use crate::headers::parser::dictionary::dictionary_builder::{
    align4, calculate_payload_header_size, spec_payload_header_size, DictionariesHeader,
    DictionariesPayloadHeader, NO_DICTIONARY_INDEX,
};
use crate::utilities::bits::get_bits64;
use crate::utilities::bytes::{read_u32_at, read_u32_le, read_u64_at, read_u64_le};
use crate::utilities::compression::zstd::{decompress, zstd_decompressed};
use crate::utilities::compression::NxDecompressionError;
use vstd::prelude::*;
use vstd::slice::{slice_subrange, slice_to_vec};

verus! {

/// Fewer bytes were available than a section needs.
#[derive(Debug, PartialEq, Eq, Clone, Copy, Structural)]
pub struct InsufficientDataError {
    /// Number of bytes available.
    pub available: u32,
    /// Number of bytes needed.
    pub expected: u32,
}

impl InsufficientDataError {
    /// Creates the error.
    pub fn new(available: u32, expected: u32) -> (r: InsufficientDataError)
        ensures
            r == (InsufficientDataError { available, expected }),
    {
        InsufficientDataError { available, expected }
    }
}

/// An error while reading the dictionary section.
#[derive(Debug, PartialEq, Eq, Clone, Copy, Structural)]
pub enum DictionaryReadError {
    /// Dictionary data is too large. Maximum decompressed size is 268,435,455 bytes.
    DecompressedSizeTooLarge,
    /// Failed to decompress dictionary data.
    DecompressionError(NxDecompressionError),
    /// Invalid dictionary header.
    InvalidHeader,
    /// Dictionary hash mismatch.
    HashMismatch,
    /// Insufficient data to read a dictionary segment.
    InsufficientData(InsufficientDataError),
    /// The decompressed size of the dictionaries is not the declared one (expected, actual).
    /// This indicates a faulty file.
    DecompressedSizeMismatch(u32, u32),
    /// The decompressed payload must be at least as big as the payload header (8 bytes).
    InsufficientPayloadSize,
    /// A dictionary index in the payload is out of bounds (index, number of dictionaries).
    /// This indicates a faulty file.
    InvalidDictionaryIndex(u32, u32),
    /// The block counts of the mappings do not add up to the number of blocks declared.
    InvalidDictionaryBlockLengthData,
}

/// The (decompressed) dictionary payload, as extracted by [`extract_payload_with_allocator`].
pub struct ExtractPayloadResult {
    /// The payload bytes.
    pub decompressed_data: Vec<u8>,
}

/// The dictionary of each block, read from the dictionary section.
pub struct DictionaryData {
    /// The content of each dictionary.
    dictionaries: Vec<Vec<u8>>,
    /// The dictionary index of each block, up to the last block that uses a dictionary.
    dict_indices_for_block: Vec<u8>,
}

impl DictionaryData {
    /// The content of each dictionary.
    pub closed spec fn spec_dictionaries(&self) -> Seq<Seq<u8>> {
        Seq::new(self.dictionaries@.len(), |i: int| self.dictionaries@[i]@)
    }

    /// The dictionary index of each block, up to the last block that uses a dictionary.
    pub closed spec fn spec_block_indices(&self) -> Seq<u8> {
        self.dict_indices_for_block@
    }

    /// Every block index names a dictionary, or no dictionary.
    #[verifier::type_invariant]
    closed spec fn wf(self) -> bool {
        forall|i: int| 0 <= i < self.dict_indices_for_block@.len() ==> {
            let d = #[trigger] self.dict_indices_for_block@[i];
            d == NO_DICTIONARY_INDEX || d < self.dictionaries@.len()
        }
    }

    /// The dictionary of the block at `block_index`: empty when the block uses no
    /// dictionary or lies past the last block that uses one.
    pub open spec fn spec_dictionary_for_block(&self, block_index: int) -> Seq<u8> {
        spec_dictionary_of(self.spec_dictionaries(), self.spec_block_indices(), block_index)
    }

    /// Gets the dictionary for the block at `block_index`. This returns an empty slice if
    /// no dictionary is used, and for blocks past the last one that uses a dictionary.
    pub fn get_dictionary_for_block_unchecked(&self, block_index: usize) -> (r: &[u8])
        ensures
            r@ == self.spec_dictionary_for_block(block_index as int),
    {
        proof {
            use_type_invariant(self);
        }
        if block_index >= self.dict_indices_for_block.len() {
            return &[];
        }
        let d = self.dict_indices_for_block[block_index];
        if d == NO_DICTIONARY_INDEX {
            return &[];
        }
        self.dictionaries[d as usize].as_slice()
    }
}

/// The dictionary of block `i`, given the dictionaries and the index of each block.
pub open spec fn spec_dictionary_of(dicts: Seq<Seq<u8>>, indices: Seq<u8>, i: int) -> Seq<u8> {
    if i < 0 || i >= indices.len() || indices[i] == NO_DICTIONARY_INDEX || indices[i] >= dicts.len() {
        Seq::empty()
    } else {
        dicts[indices[i] as int]
    }
}

/// The word of the section header at the start of `data`.
pub open spec fn spec_section_word(data: Seq<u8>) -> u64 {
    read_u64_le(data, 0)
}

/// What extracting the payload from the dictionary section `data` gives.
///
/// The section starts with an 8 byte header that declares the compressed and decompressed
/// sizes; a compressed size of zero means the payload is stored as it is. A compressed
/// payload is decompressed into a buffer of the declared decompressed size.
pub open spec fn spec_extract_outcome(data: Seq<u8>, r: Result<ExtractPayloadResult, DictionaryReadError>) -> bool {
    if data.len() < 8 {
        r == Err::<ExtractPayloadResult, DictionaryReadError>(DictionaryReadError::InsufficientData(
            InsufficientDataError { available: data.len() as u32, expected: 8 },
        ))
    } else {
        let w = spec_section_word(data);
        let decompressed_size = get_bits64(w, 0, 28);
        let compressed_size = get_bits64(w, 28, 27);
        let required = if compressed_size == 0 { decompressed_size } else { compressed_size };
        if data.len() - 8 < required {
            r == Err::<ExtractPayloadResult, DictionaryReadError>(DictionaryReadError::InsufficientData(
                InsufficientDataError { available: data.len() as u32, expected: (required + 8) as u32 },
            ))
        } else if decompressed_size < 8 {
            r == Err::<ExtractPayloadResult, DictionaryReadError>(DictionaryReadError::InsufficientPayloadSize)
        } else if compressed_size == 0 {
            r matches Ok(x) && x.decompressed_data@ == data.subrange(8, 8 + decompressed_size)
        } else {
            match zstd_decompressed(data.subrange(8, 8 + compressed_size), decompressed_size as usize) {
                Some(d) => if d.len() != decompressed_size {
                    r == Err::<ExtractPayloadResult, DictionaryReadError>(DictionaryReadError::DecompressedSizeMismatch(
                        decompressed_size as u32, d.len() as u32))
                } else {
                    r matches Ok(x) && x.decompressed_data@ == d
                },
                None => r == Err::<ExtractPayloadResult, DictionaryReadError>(
                    DictionaryReadError::DecompressionError(NxDecompressionError::ZStandard),
                ),
            }
        }
    }
}

/// Reads the dictionary section header and extracts the (decompressed) payload.
///
/// `dictionary_data` starts at the section header and may be longer than the section.
///
/// # Errors
/// * `InsufficientData` when the data is shorter than the header, or than the header and
///   the payload it declares.
/// * `InsufficientPayloadSize` when the declared payload is shorter than its 8 byte header.
/// * `DecompressionError` when the decompressor fails.
/// * `DecompressedSizeMismatch` when the payload decompresses to another size than declared.
pub fn extract_payload_with_allocator(dictionary_data: &[u8]) -> (r: Result<ExtractPayloadResult, DictionaryReadError>)
    ensures
        spec_extract_outcome(dictionary_data@, r),
{
    if dictionary_data.len() < DictionariesHeader::SIZE_BYTES {
        return Err(DictionaryReadError::InsufficientData(InsufficientDataError::new(dictionary_data.len() as u32, 8)));
    }
    let header = DictionariesHeader(read_u64_at(dictionary_data, 0));
    let decompressed_size = header.decompressed_size();
    let compressed_size = header.compressed_size();
    let required = if compressed_size == 0 { decompressed_size } else { compressed_size };
    let remaining = dictionary_data.len() - DictionariesHeader::SIZE_BYTES;
    if remaining < required as usize {
        return Err(DictionaryReadError::InsufficientData(
            InsufficientDataError::new(dictionary_data.len() as u32, required + 8),
        ));
    }
    if decompressed_size < 8 {
        return Err(DictionaryReadError::InsufficientPayloadSize);
    }
    if compressed_size == 0 {
        let payload = slice_subrange(dictionary_data, 8, 8 + decompressed_size as usize);
        return Ok(ExtractPayloadResult { decompressed_data: slice_to_vec(payload) });
    }
    let compressed = slice_subrange(dictionary_data, 8, 8 + compressed_size as usize);
    let d = match decompress(compressed, decompressed_size as usize) {
        Ok(d) => d,
        Err(e) => {
            return Err(DictionaryReadError::DecompressionError(e));
        },
    };
    if d.len() != decompressed_size as usize {
        return Err(DictionaryReadError::DecompressedSizeMismatch(decompressed_size, d.len() as u32));
    }
    Ok(ExtractPayloadResult { decompressed_data: d })
}

/// The dictionary index of each block, from the mappings whose dictionary indices are
/// `idx` and whose block counts are `lens`, appended to `acc`; an index must name one of
/// `num_dicts` dictionaries or no dictionary, and the blocks must add up to `cap`.
pub open spec fn spec_fill_indices(idx: Seq<u8>, lens: Seq<u8>, num_dicts: nat, cap: nat, acc: Seq<u8>) -> Result<Seq<u8>, DictionaryReadError>
    decreases idx.len(),
{
    if idx.len() == 0 || lens.len() == 0 {
        if acc.len() != cap {
            Err(DictionaryReadError::InvalidDictionaryBlockLengthData)
        } else {
            Ok(acc)
        }
    } else if idx[0] >= num_dicts && idx[0] != NO_DICTIONARY_INDEX {
        Err(DictionaryReadError::InvalidDictionaryIndex(idx[0] as u32, num_dicts as u32))
    } else if acc.len() + lens[0] > cap {
        Err(DictionaryReadError::InvalidDictionaryBlockLengthData)
    } else {
        spec_fill_indices(idx.drop_first(), lens.drop_first(), num_dicts, cap, acc + Seq::new(lens[0] as nat, |j: int| idx[0]))
    }
}

/// The sum of `sizes`.
pub open spec fn seq_sum(sizes: Seq<u32>) -> nat
    decreases sizes.len(),
{
    if sizes.len() == 0 {
        0
    } else {
        seq_sum(sizes.drop_last()) + sizes.last() as nat
    }
}

/// The dictionaries stored one after the other at the start of `data`, with the given sizes.
pub open spec fn spec_split_dictionaries(data: Seq<u8>, sizes: Seq<u32>) -> Seq<Seq<u8>> {
    Seq::new(sizes.len(), |k: int| data.subrange(seq_sum(sizes.take(k)) as int, seq_sum(sizes.take(k)) + sizes[k]))
}

/// The payload header word.
pub open spec fn spec_payload_word(p: Seq<u8>) -> u64 {
    read_u64_le(p, 0)
}

/// The dictionary sizes recorded in the payload `p` for `num_mappings` mappings and
/// `num_dicts` dictionaries.
pub open spec fn spec_payload_dict_sizes(p: Seq<u8>, num_mappings: nat, num_dicts: nat) -> Seq<u32> {
    Seq::new(num_dicts, |k: int| read_u32_le(p, align_up4(8 + 2 * (num_mappings as int)) + 4 * k))
}

/// `x` rounded up to a multiple of 4.
pub open spec fn align_up4(x: int) -> int {
    (x + 3) / 4 * 4
}

/// What parsing the dictionary payload `p` gives: the dictionaries and the dictionary
/// index of each block, or the first error met.
pub open spec fn spec_parse_payload(p: Seq<u8>) -> Result<(Seq<Seq<u8>>, Seq<u8>), DictionaryReadError> {
    if p.len() < 8 {
        Err(DictionaryReadError::InsufficientPayloadSize)
    } else {
        let w = spec_payload_word(p);
        let num_dicts = get_bits64(w, 44, 8) as nat;
        let num_mappings = get_bits64(w, 22, 22) as nat;
        let last = get_bits64(w, 0, 22) as nat;
        let has_hashes = get_bits64(w, 52, 1) == 1;
        let expected = spec_payload_header_size(num_mappings as u32, num_dicts as u32, has_hashes);
        if p.len() < expected {
            Err(DictionaryReadError::InsufficientData(InsufficientDataError { available: p.len() as u32, expected: expected as u32 }))
        } else {
            let m = num_mappings as int;
            let idx = p.subrange(8, 8 + m);
            let lens = p.subrange(8 + m, 8 + 2 * m);
            match spec_fill_indices(idx, lens, num_dicts, last, Seq::empty()) {
                Err(e) => Err(e),
                Ok(indices) => {
                    let sizes = spec_payload_dict_sizes(p, num_mappings, num_dicts);
                    let total = seq_sum(sizes);
                    let remaining = p.len() - expected;
                    if remaining < total {
                        Err(DictionaryReadError::InsufficientData(InsufficientDataError { available: remaining as u32, expected: total as u32 }))
                    } else {
                        Ok((spec_split_dictionaries(p.subrange(expected, p.len() as int), sizes), indices))
                    }
                },
            }
        }
    }
}

/// Adding one more size adds it to the sum.
pub(crate) proof fn lemma_seq_sum_push(sizes: Seq<u32>, k: int)
    requires
        0 <= k < sizes.len(),
    ensures
        seq_sum(sizes.take(k + 1)) == seq_sum(sizes.take(k)) + sizes[k],
{
    assert(sizes.take(k + 1).drop_last() =~= sizes.take(k));
}

/// Every index that the fill produces names a dictionary or no dictionary.
proof fn lemma_fill_indices_valid(idx: Seq<u8>, lens: Seq<u8>, num_dicts: nat, cap: nat, acc: Seq<u8>)
    requires
        forall|i: int| 0 <= i < acc.len() ==> (#[trigger] acc[i] == NO_DICTIONARY_INDEX || acc[i] < num_dicts),
    ensures
        spec_fill_indices(idx, lens, num_dicts, cap, acc) matches Ok(r) ==> forall|i: int| 0 <= i < r.len() ==> (#[trigger] r[i] == NO_DICTIONARY_INDEX || r[i] < num_dicts),
    decreases idx.len(),
{
    if idx.len() > 0 && lens.len() > 0 && !(idx[0] >= num_dicts && idx[0] != NO_DICTIONARY_INDEX) && acc.len() + lens[0] <= cap {
        let acc2 = acc + Seq::new(lens[0] as nat, |j: int| idx[0]);
        assert forall|i: int| 0 <= i < acc2.len() implies (#[trigger] acc2[i] == NO_DICTIONARY_INDEX || acc2[i] < num_dicts) by {
            if i >= acc.len() {
                assert(acc2[i] == idx[0]);
            }
        }
        lemma_fill_indices_valid(idx.drop_first(), lens.drop_first(), num_dicts, cap, acc2);
    }
}

/// Parses the dictionary payload extracted by [`extract_payload_with_allocator`].
///
/// # Errors
/// * `InsufficientPayloadSize` when the payload is shorter than its 8 byte header.
/// * `InsufficientData` when the payload is shorter than its header sections, or than the
///   dictionaries that it declares.
/// * `InvalidDictionaryIndex` when a mapping names a dictionary that does not exist.
/// * `InvalidDictionaryBlockLengthData` when the block counts of the mappings do not add up
///   to the number of blocks declared.
#[verifier::loop_isolation(false)]
pub fn parse_payload_with_allocator(payload_result: &ExtractPayloadResult) -> (r: Result<DictionaryData, DictionaryReadError>)
    ensures
        match spec_parse_payload(payload_result.decompressed_data@) {
            Ok((dicts, indices)) => r matches Ok(d) && d.spec_dictionaries() == dicts && d.spec_block_indices() == indices,
            Err(e) => r == Err::<DictionaryData, DictionaryReadError>(e),
        },
{
    let p = payload_result.decompressed_data.as_slice();
    if p.len() < 8 {
        return Err(DictionaryReadError::InsufficientPayloadSize);
    }
    let header = DictionariesPayloadHeader(read_u64_at(p, 0));
    let num_dicts = header.num_dictionaries();
    let num_mappings = header.num_mappings();
    let last = header.last_dict_block_index();
    let has_hashes = header.has_hashes() != 0;
    proof {
        vstd::arithmetic::power2::lemma2_to64();
        crate::utilities::bits::lemma_get_bits_bound64(header.0, 44, 8);
        crate::utilities::bits::lemma_get_bits_bound64(header.0, 22, 22);
        crate::utilities::bits::lemma_get_bits_bound64(header.0, 0, 22);
        crate::utilities::bits::lemma_get_bits_bound64(header.0, 52, 1);
        crate::utilities::bits::lemma_mask64_is(8, 0xff);
        crate::utilities::bits::lemma_mask64_is(22, 0x3fffff);
        crate::utilities::bits::lemma_mask64_is(1, 1);
    }
    let expected = calculate_payload_header_size(num_mappings, num_dicts, has_hashes);
    if p.len() < expected as usize {
        return Err(DictionaryReadError::InsufficientData(InsufficientDataError::new(p.len() as u32, expected)));
    }
    let m = num_mappings as usize;
    let ghost idx = p@.subrange(8, 8 + m);
    let ghost lens = p@.subrange(8 + m, 8 + 2 * m);
    let mut indices: Vec<u8> = Vec::new();
    let mut i: usize = 0;
    proof {
        assert(idx.skip(0) =~= idx);
        assert(lens.skip(0) =~= lens);
    }
    while i < m
        invariant
            i <= m,
            8 + 2 * m <= p@.len(),
            idx == p@.subrange(8, 8 + m),
            lens == p@.subrange(8 + m, 8 + 2 * m),
            indices@.len() <= last,
            spec_fill_indices(idx, lens, num_dicts as nat, last as nat, Seq::empty())
                == spec_fill_indices(idx.skip(i as int), lens.skip(i as int), num_dicts as nat, last as nat, indices@),
        decreases m - i,
    {
        let d = p[8 + i];
        let n = p[8 + m + i];
        proof {
            assert(idx.skip(i as int)[0] == d);
            assert(lens.skip(i as int)[0] == n);
            assert(idx.skip(i as int).drop_first() =~= idx.skip(i + 1));
            assert(lens.skip(i as int).drop_first() =~= lens.skip(i + 1));
        }
        if d as u32 >= num_dicts && d != NO_DICTIONARY_INDEX {
            return Err(DictionaryReadError::InvalidDictionaryIndex(d as u32, num_dicts));
        }
        if n as u32 > last - indices.len() as u32 {
            return Err(DictionaryReadError::InvalidDictionaryBlockLengthData);
        }
        let ghost before = indices@;
        let mut j: u8 = 0;
        while j < n
            invariant
                j <= n,
                indices@ == before + Seq::new(j as nat, |t: int| d),
            decreases n - j,
        {
            indices.push(d);
            proof {
                assert(before + Seq::new((j + 1) as nat, |t: int| d) =~= (before + Seq::new(j as nat, |t: int| d)).push(d));
            }
            j = j + 1;
        }
        i = i + 1;
    }
    proof {
        assert(idx.skip(i as int).len() == 0);
    }
    if indices.len() != last as usize {
        return Err(DictionaryReadError::InvalidDictionaryBlockLengthData);
    }
    let sizes_pos = align4(8 + 2 * num_mappings) as usize;
    let ghost sizes = spec_payload_dict_sizes(p@, m as nat, num_dicts as nat);
    let mut dict_sizes: Vec<u32> = Vec::new();
    let mut total: u64 = 0;
    let mut k: usize = 0;
    while k < num_dicts as usize
        invariant
            k <= num_dicts,
            num_dicts <= 0xff,
            sizes_pos == align_up4(8 + 2 * m),
            sizes_pos + 4 * num_dicts <= expected <= p@.len(),
            sizes == spec_payload_dict_sizes(p@, m as nat, num_dicts as nat),
            dict_sizes@ == sizes.take(k as int),
            total == seq_sum(sizes.take(k as int)),
            total <= k * 0xFFFF_FFFFu64,
        decreases num_dicts - k,
    {
        let size = read_u32_at(p, sizes_pos + 4 * k);
        proof {
            lemma_seq_sum_push(sizes, k as int);
            assert(dict_sizes@.push(size) =~= sizes.take(k + 1));
        }
        dict_sizes.push(size);
        total = total + size as u64;
        k = k + 1;
    }
    proof {
        assert(sizes.take(k as int) =~= sizes);
    }
    let remaining = p.len() - expected as usize;
    if (remaining as u64) < total {
        return Err(DictionaryReadError::InsufficientData(InsufficientDataError::new(remaining as u32, total as u32)));
    }
    let data = slice_subrange(p, expected as usize, p.len());
    let mut dictionaries: Vec<Vec<u8>> = Vec::new();
    let mut offset: usize = 0;
    let mut t: usize = 0;
    while t < dict_sizes.len()
        invariant
            t <= dict_sizes@.len(),
            dict_sizes@ == sizes,
            offset == seq_sum(sizes.take(t as int)),
            seq_sum(sizes) <= data@.len(),
            dictionaries@.len() == t,
            forall|q: int| 0 <= q < t ==> (#[trigger] dictionaries@[q])@ == spec_split_dictionaries(data@, sizes)[q],
        decreases dict_sizes@.len() - t,
    {
        proof {
            lemma_seq_sum_push(sizes, t as int);
            lemma_seq_sum_prefix_le(sizes, t + 1);
        }
        let size = dict_sizes[t] as usize;
        let dict = slice_to_vec(slice_subrange(data, offset, offset + size));
        dictionaries.push(dict);
        offset = offset + size;
        t = t + 1;
    }
    proof {
        lemma_fill_indices_valid(idx, lens, num_dicts as nat, last as nat, Seq::empty());
    }
    let result = DictionaryData { dictionaries, dict_indices_for_block: indices };
    proof {
        assert(result.spec_dictionaries() =~= spec_split_dictionaries(data@, sizes));
    }
    Ok(result)
}

/// A prefix never sums to more than the whole.
proof fn lemma_seq_sum_prefix_le(sizes: Seq<u32>, k: int)
    requires
        0 <= k <= sizes.len(),
    ensures
        seq_sum(sizes.take(k)) <= seq_sum(sizes),
    decreases sizes.len() - k,
{
    if k < sizes.len() {
        lemma_seq_sum_push(sizes, k);
        lemma_seq_sum_prefix_le(sizes, k + 1);
    } else {
        assert(sizes.take(k) =~= sizes);
    }
}

} // verus!
