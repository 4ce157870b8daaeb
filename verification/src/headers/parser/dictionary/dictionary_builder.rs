use crate::api::traits::has_dict_index::HasDictIndex;
use crate::headers::raw::toc::v2::presets::preset0_header::PRESET0_BLOCK_COUNT_MAX;
use crate::utilities::bits::{
    lemma_mask64_is,get_bits64, get_field64, mask64, set_bits64, set_field64};
use vstd::arithmetic::power2::lemma2_to64;
use crate::headers::parser::string_pool::{append_bytes, spec_concat};
use crate::headers::types::xxh3sum::{xxh3_64, XXH3sum};
use crate::utilities::bytes::{le_bytes32, le_bytes64, push_u32_le, push_u64_le, push_zeros, zeros};
use crate::utilities::compression::zstd::{compress, spec_frame_of, zstd_compressed};
use crate::utilities::compression::NxCompressionError;
use vstd::prelude::*;

verus! {

/// Maximum number of possible dictionaries.
pub const MAX_DICTIONARIES: usize = 254;

/// The dictionary index of blocks that use no dictionary.
pub const NO_DICTIONARY_INDEX: u8 = 254;

/// Maximum amount of blocks that can be serialized in a dictionary.
pub const MAX_BLOCK_COUNT: u32 = PRESET0_BLOCK_COUNT_MAX;

/// Error type for dictionary serialization operations.
#[derive(Debug, PartialEq, Eq, Clone, Copy, Structural)]
pub enum DictionarySerializeError {
    /// Too many dictionaries specified. Maximum is 254.
    TooManyDictionaries,
    /// Too many mappings specified. Maximum is u24::MAX.
    TooManyMappings,
    /// Dictionary data is too large. Maximum compressed size is 134,217,727 bytes.
    CompressedSizeTooLarge,
    /// Dictionary data is too large. Maximum decompressed size is 268,435,455 bytes.
    DecompressedSizeTooLarge,
    /// No blocks provided.
    NoBlocks,
    /// Too many blocks provided.
    TooManyBlocks,
    /// Failed to compress dictionary data.
    CompressionError(NxCompressionError),
}

/// `x` rounded up to a multiple of `a`.
pub open spec fn align_up(x: int, a: int) -> int {
    (x + a - 1) / a * a
}

/// Size in bytes of the dictionary payload header section: the 8 byte payload header,
/// two bytes per mapping, padding to 4 bytes, four bytes per dictionary size and, with
/// hashes, padding to 8 bytes and eight bytes per dictionary hash.
pub open spec fn spec_payload_header_size(num_mappings: u32, num_dictionaries: u32, has_hashes: bool) -> int {
    let sizes_end = align_up(8 + 2 * num_mappings, 4) + 4 * num_dictionaries;
    if has_hashes {
        align_up(sizes_end, 8) + 8 * num_dictionaries
    } else {
        sizes_end
    }
}

/// No step of [`calculate_payload_header_size`] leaves `u32`.
pub open spec fn spec_payload_header_size_fits(num_mappings: u32, num_dictionaries: u32, has_hashes: bool) -> bool {
    &&& 8 + 2 * num_mappings + 3 <= u32::MAX
    &&& align_up(8 + 2 * num_mappings, 4) + 4 * num_dictionaries + (if has_hashes { 7int } else { 0 }) <= u32::MAX
    &&& spec_payload_header_size(num_mappings, num_dictionaries, has_hashes) <= u32::MAX
}

/// Rounds `x` up to a multiple of 4.
pub(crate) fn align4(x: u32) -> (r: u32)
    requires
        x + 3 <= u32::MAX,
    ensures
        r == align_up(x as int, 4),
{
    let y = x + 3;
    assert(y & !3u32 == (y / 4) * 4) by (bit_vector);
    y & !3u32
}

/// Rounds `x` up to a multiple of 8.
pub(crate) fn align8(x: u32) -> (r: u32)
    requires
        x + 7 <= u32::MAX,
    ensures
        r == align_up(x as int, 8),
{
    let y = x + 7;
    assert(y & !7u32 == (y / 8) * 8) by (bit_vector);
    y & !7u32
}

/// Calculates the size of the dictionary payload header section in bytes
/// (excluding the 8-byte [`DictionariesHeader`] and the raw dictionary data).
pub fn calculate_payload_header_size(num_mappings: u32, num_dictionaries: u32, has_hashes: bool) -> (r: u32)
    requires
        spec_payload_header_size_fits(num_mappings, num_dictionaries, has_hashes),
    ensures
        r == spec_payload_header_size(num_mappings, num_dictionaries, has_hashes),
{
    let mut size = DictionariesPayloadHeader::SIZE_BYTES as u32;
    size = size + num_mappings * 2;
    size = align4(size);
    size = size + num_dictionaries * 4;
    if has_hashes {
        size = align8(size);
        size = size + num_dictionaries * 8;
    }
    size
}

/// A run of `num_blocks` consecutive blocks that use the dictionary `dictionary_index`.
#[derive(Debug, PartialEq, Eq, Clone, Copy, Structural)]
pub struct DictionaryMapping {
    /// Index of the dictionary.
    pub dictionary_index: u8,
    /// Number of consecutive blocks using it.
    pub num_blocks: u8,
}

/// The dictionary index of each block, truncated to a byte.
pub open spec fn spec_block_dict_indices<T: HasDictIndex>(blocks: Seq<T>) -> Seq<u8> {
    Seq::new(blocks.len(), |i: int| blocks[i].spec_dict_index() as u8)
}

/// Run length encoding of dictionary indices: consecutive equal indices form one mapping,
/// and a run that reaches 255 blocks continues in a new mapping.
pub open spec fn spec_dictionary_mappings(s: Seq<u8>) -> Seq<DictionaryMapping>
    decreases s.len(),
{
    if s.len() == 0 {
        Seq::empty()
    } else {
        let m = spec_dictionary_mappings(s.drop_last());
        let x = s.last();
        if m.len() > 0 && m.last().dictionary_index == x && m.last().num_blocks < 255 {
            m.update(m.len() - 1, DictionaryMapping { dictionary_index: x, num_blocks: (m.last().num_blocks + 1) as u8 })
        } else {
            m.push(DictionaryMapping { dictionary_index: x, num_blocks: 1 })
        }
    }
}

/// The dictionary index of each block that a list of mappings describes.
pub open spec fn spec_expand_mappings(m: Seq<DictionaryMapping>) -> Seq<u8>
    decreases m.len(),
{
    if m.len() == 0 {
        Seq::empty()
    } else {
        spec_expand_mappings(m.drop_last()) + Seq::new(m.last().num_blocks as nat, |i: int| m.last().dictionary_index)
    }
}

/// Number of blocks covered by the mappings up to and including the last one that uses
/// a dictionary, if any does.
pub open spec fn spec_last_dict_block_count(m: Seq<DictionaryMapping>) -> Option<nat>
    decreases m.len(),
{
    if m.len() == 0 {
        None
    } else if m.last().dictionary_index != NO_DICTIONARY_INDEX {
        Some(spec_expand_mappings(m).len())
    } else {
        spec_last_dict_block_count(m.drop_last())
    }
}

/// Expanding the mappings of a sequence of dictionary indices gives the sequence back,
/// and every mapping covers between 1 and 255 blocks.
pub proof fn lemma_dictionary_mappings_round_trip(s: Seq<u8>)
    ensures
        spec_expand_mappings(spec_dictionary_mappings(s)) == s,
        forall|i: int| 0 <= i < spec_dictionary_mappings(s).len() ==> 1 <= #[trigger] spec_dictionary_mappings(s)[i].num_blocks,
        spec_dictionary_mappings(s).len() <= s.len(),
    decreases s.len(),
{
    if s.len() > 0 {
        let p = s.drop_last();
        lemma_dictionary_mappings_round_trip(p);
        let m = spec_dictionary_mappings(p);
        let x = s.last();
        if m.len() > 0 && m.last().dictionary_index == x && m.last().num_blocks < 255 {
            let n = m.update(m.len() - 1, DictionaryMapping { dictionary_index: x, num_blocks: (m.last().num_blocks + 1) as u8 });
            assert(n.drop_last() =~= m.drop_last());
            assert(spec_expand_mappings(m) == spec_expand_mappings(m.drop_last()) + Seq::new(m.last().num_blocks as nat, |i: int| x));
            assert(Seq::new(n.last().num_blocks as nat, |i: int| x) =~= Seq::new(m.last().num_blocks as nat, |i: int| x).push(x));
            assert(s =~= p.push(x));
            assert(spec_expand_mappings(n) =~= spec_expand_mappings(m).push(x));
        } else {
            let n = m.push(DictionaryMapping { dictionary_index: x, num_blocks: 1 });
            assert(n.drop_last() =~= m);
            assert(Seq::new(1nat, |i: int| x) =~= seq![x]);
            assert(s =~= p.push(x));
        }
    }
}

/// Creates the list of dictionary mappings for a sequence of blocks.
///
/// Consecutive blocks that use the same dictionary are combined into one mapping, and
/// runs longer than 255 blocks are split, as a mapping counts its blocks in a byte.
/// When some mapping uses a dictionary, `last_block_with_dictionary_count` is set to the
/// number of blocks up to the end of the last such mapping; else it is left as it is.
///
/// # Errors
/// * `TooManyMappings` if the resulting number of mappings exceeds u24::MAX
pub fn create_dictionary_mappings_with_allocator<T: HasDictIndex>(
    blocks: &[T],
    last_block_with_dictionary_count: &mut u32,
) -> (r: Result<Vec<DictionaryMapping>, DictionarySerializeError>)
    ensures
        spec_dictionary_mappings(spec_block_dict_indices(blocks@)).len() > 0xFF_FFFF ==> r == Err::<Vec<DictionaryMapping>, DictionarySerializeError>(DictionarySerializeError::TooManyMappings),
        spec_dictionary_mappings(spec_block_dict_indices(blocks@)).len() <= 0xFF_FFFF ==> (r matches Ok(m) && m@ == spec_dictionary_mappings(spec_block_dict_indices(blocks@))),
        *final(last_block_with_dictionary_count) == match spec_last_dict_block_count(spec_dictionary_mappings(spec_block_dict_indices(blocks@))) {
            Some(n) => n as u32,
            None => *old(last_block_with_dictionary_count),
        },
{
    let ghost s = spec_block_dict_indices(blocks@);
    let mut mappings: Vec<DictionaryMapping> = Vec::new();
    let mut current_index: u8 = 255;
    let mut current_count: u8 = 0;
    let mut num_total_blocks: usize = 0;
    let mut i: usize = 0;
    while i < blocks.len()
        invariant
            i <= blocks.len(),
            s == spec_block_dict_indices(blocks@),
            current_count == 0 <==> i == 0,
            ({
                let cur = if current_count > 0 { mappings@.push(DictionaryMapping { dictionary_index: current_index, num_blocks: current_count }) } else { mappings@ };
                cur == spec_dictionary_mappings(s.take(i as int))
            }),
            num_total_blocks == spec_expand_mappings(mappings@).len(),
            *last_block_with_dictionary_count == match spec_last_dict_block_count(mappings@) {
                Some(n) => n as u32,
                None => *old(last_block_with_dictionary_count),
            },
            spec_expand_mappings(mappings@).len() <= i,
        decreases blocks.len() - i,
    {
        let dict_index = blocks[i].dict_index() as u8;
        proof {
            lemma_dictionary_mappings_round_trip(s.take(i as int));
            assert(s.take(i + 1).drop_last() =~= s.take(i as int));
            assert(s.take(i + 1).last() == dict_index);
        }
        if dict_index == current_index && current_count < 255 {
            current_count = current_count + 1;
        } else {
            if current_count > 0 {
                let ghost old_m = mappings@;
                let m = DictionaryMapping { dictionary_index: current_index, num_blocks: current_count };
                mappings.push(m);
                proof {
                    assert(mappings@.drop_last() =~= old_m);
                    assert(spec_expand_mappings(mappings@) == spec_expand_mappings(old_m) + Seq::new(current_count as nat, |j: int| current_index));
                    let cur = mappings@;
                    assert(cur == spec_dictionary_mappings(s.take(i as int)));
                    lemma_dictionary_mappings_round_trip(s.take(i as int));
                }
                num_total_blocks = num_total_blocks + current_count as usize;
                if current_index != NO_DICTIONARY_INDEX {
                    *last_block_with_dictionary_count = num_total_blocks as u32;
                }
            }
            current_index = dict_index;
            current_count = 1;
        }
        i = i + 1;
    }
    proof {
        assert(s.take(i as int) =~= s);
    }
    if current_count > 0 {
        let ghost old_m = mappings@;
        mappings.push(DictionaryMapping { dictionary_index: current_index, num_blocks: current_count });
        proof {
            assert(mappings@.drop_last() =~= old_m);
            lemma_dictionary_mappings_round_trip(s);
        }
        num_total_blocks = num_total_blocks + current_count as usize;
        if current_index != NO_DICTIONARY_INDEX {
            *last_block_with_dictionary_count = num_total_blocks as u32;
        }
    }
    if mappings.len() > 0x00FF_FFFF {
        return Err(DictionarySerializeError::TooManyMappings);
    }
    Ok(mappings)
}

/// Compression level of the dictionary payload; aggressive, as the data is small.
pub const DEFAULT_COMPRESSION_LEVEL: i32 = 16;

/// Largest decompressed size of the dictionary payload (`u28`).
pub const MAX_DECOMPRESSED_SIZE: u32 = 0x0FFF_FFFF;

/// Largest compressed size of the dictionary payload.
pub const MAX_COMPRESSED_SIZE: u32 = 0x07FF_FFFF;

/// The dictionary index of each mapping.
pub open spec fn spec_mapping_indices(m: Seq<DictionaryMapping>) -> Seq<u8> {
    Seq::new(m.len(), |i: int| m[i].dictionary_index)
}

/// The block count of each mapping.
pub open spec fn spec_mapping_counts(m: Seq<DictionaryMapping>) -> Seq<u8> {
    Seq::new(m.len(), |i: int| m[i].num_blocks)
}

/// The size of each dictionary, as 32 bit little endian values.
pub open spec fn spec_dict_size_bytes(dicts: Seq<Seq<u8>>) -> Seq<u8>
    decreases dicts.len(),
{
    if dicts.len() == 0 {
        Seq::empty()
    } else {
        spec_dict_size_bytes(dicts.drop_last()) + le_bytes32(dicts.last().len() as u32)
    }
}

/// The XXH3 hash of each dictionary, as 64 bit little endian values.
pub open spec fn spec_dict_hash_bytes(dicts: Seq<Seq<u8>>) -> Seq<u8>
    decreases dicts.len(),
{
    if dicts.len() == 0 {
        Seq::empty()
    } else {
        spec_dict_hash_bytes(dicts.drop_last()) + le_bytes64(xxh3_64(dicts.last()))
    }
}

/// `s` followed by zeros up to a multiple of `a` bytes.
pub open spec fn pad_to(s: Seq<u8>, a: int) -> Seq<u8> {
    s + zeros((align_up(s.len() as int, a) - s.len()) as nat)
}

/// The uncompressed dictionary payload: the payload header, the dictionary index of each
/// mapping, the block count of each mapping, padding to 4 bytes, the size of each
/// dictionary, with hashes padding to 8 bytes and the hash of each dictionary, and then
/// the dictionaries themselves.
#[verifier::opaque]
pub open spec fn spec_payload_bytes(dicts: Seq<Seq<u8>>, m: Seq<DictionaryMapping>, last: u32, write_hashes: bool) -> Seq<u8> {
    spec_payload_sections(dicts, m, last, write_hashes) + spec_concat(dicts)
}

/// The sections of the uncompressed payload that come before the dictionaries.
#[verifier::opaque]
pub open spec fn spec_payload_sections(dicts: Seq<Seq<u8>>, m: Seq<DictionaryMapping>, last: u32, write_hashes: bool) -> Seq<u8> {
    let head = le_bytes64(spec_payload_header_word(dicts.len() as u32, m.len() as u32, last, write_hashes))
        + spec_mapping_indices(m) + spec_mapping_counts(m);
    let sized = pad_to(head, 4) + spec_dict_size_bytes(dicts);
    if write_hashes {
        pad_to(sized, 8) + spec_dict_hash_bytes(dicts)
    } else {
        sized
    }
}

/// The number of blocks up to the last one that uses a dictionary, as the serializer
/// records it (zero when no block uses one).
pub open spec fn spec_last_dict_blocks(m: Seq<DictionaryMapping>) -> u32 {
    match spec_last_dict_block_count(m) {
        Some(n) => n as u32,
        None => 0,
    }
}

/// The views of a list of byte slices.
pub open spec fn slices_view(s: Seq<&[u8]>) -> Seq<Seq<u8>> {
    Seq::new(s.len(), |i: int| s[i]@)
}

/// What serializing the dictionaries `dicts` for blocks with dictionary indices `indices`
/// gives: the input errors, the error for a payload over its maximum size, else the
/// payload compressed at [`DEFAULT_COMPRESSION_LEVEL`]: the error of the compressor, the
/// error for a compressed payload over its maximum size, or the section header and the
/// compressed payload.
pub open spec fn spec_serialize_outcome(
    dicts: Seq<Seq<u8>>,
    indices: Seq<u8>,
    write_hashes: bool,
    r: Result<DictionarySerializeResult, DictionarySerializeError>,
) -> bool {
    if dicts.len() > MAX_DICTIONARIES {
        r == Err::<DictionarySerializeResult, DictionarySerializeError>(DictionarySerializeError::TooManyDictionaries)
    } else if indices.len() == 0 {
        r == Err::<DictionarySerializeResult, DictionarySerializeError>(DictionarySerializeError::NoBlocks)
    } else if indices.len() > MAX_BLOCK_COUNT {
        r == Err::<DictionarySerializeResult, DictionarySerializeError>(DictionarySerializeError::TooManyBlocks)
    } else {
        let m = spec_dictionary_mappings(indices);
        let payload = spec_payload_bytes(dicts, m, spec_last_dict_blocks(m), write_hashes);
        if payload.len() > MAX_DECOMPRESSED_SIZE {
            r == Err::<DictionarySerializeResult, DictionarySerializeError>(DictionarySerializeError::DecompressedSizeTooLarge)
        } else {
            match zstd_compressed(DEFAULT_COMPRESSION_LEVEL, payload) {
                None => r == Err::<DictionarySerializeResult, DictionarySerializeError>(
                    DictionarySerializeError::CompressionError(NxCompressionError::ZStandard),
                ),
                Some(c) => if c.len() > MAX_COMPRESSED_SIZE {
                    r == Err::<DictionarySerializeResult, DictionarySerializeError>(DictionarySerializeError::CompressedSizeTooLarge)
                } else {
                    &&& r matches Ok(res)
                    &&& res.payload@ == c
                    &&& spec_frame_of(c, payload)
                    &&& res.dict_header.0 == spec_dictionaries_header_word(0, 0, c.len() as u32, payload.len() as u32)
                },
            }
        }
    }
}

/// The result of a successful dictionary serialization.
pub struct DictionarySerializeResult {
    /// The header to place before the payload.
    pub dict_header: DictionariesHeader,
    /// The payload to write after the header.
    pub payload: Vec<u8>,
}

impl DictionarySerializeResult {
    /// Creates the result.
    pub fn new(dict_header: DictionariesHeader, payload: Vec<u8>) -> (r: DictionarySerializeResult)
        ensures
            r.dict_header == dict_header,
            r.payload@ == payload@,
    {
        DictionarySerializeResult { dict_header, payload }
    }
}

/// Appending a dictionary appends its size.
proof fn lemma_dict_size_bytes_push(dicts: Seq<Seq<u8>>, d: Seq<u8>)
    ensures
        spec_dict_size_bytes(dicts.push(d)) == spec_dict_size_bytes(dicts) + le_bytes32(d.len() as u32),
{
    assert(dicts.push(d).drop_last() =~= dicts);
}

/// Appending a dictionary appends its hash.
proof fn lemma_dict_hash_bytes_push(dicts: Seq<Seq<u8>>, d: Seq<u8>)
    ensures
        spec_dict_hash_bytes(dicts.push(d)) == spec_dict_hash_bytes(dicts) + le_bytes64(xxh3_64(d)),
{
    assert(dicts.push(d).drop_last() =~= dicts);
}

/// Appending a dictionary appends its content.
pub(crate) proof fn lemma_concat_push_dict(dicts: Seq<Seq<u8>>, d: Seq<u8>)
    ensures
        spec_concat(dicts.push(d)) == spec_concat(dicts) + d,
{
    assert(dicts.push(d).drop_last() =~= dicts);
}

/// Four bytes per dictionary size.
pub(crate) proof fn lemma_dict_size_bytes_len(dicts: Seq<Seq<u8>>)
    ensures
        spec_dict_size_bytes(dicts).len() == 4 * dicts.len(),
    decreases dicts.len(),
{
    if dicts.len() > 0 {
        lemma_dict_size_bytes_len(dicts.drop_last());
    }
}

/// Eight bytes per dictionary hash.
pub(crate) proof fn lemma_dict_hash_bytes_len(dicts: Seq<Seq<u8>>)
    ensures
        spec_dict_hash_bytes(dicts).len() == 8 * dicts.len(),
    decreases dicts.len(),
{
    if dicts.len() > 0 {
        lemma_dict_hash_bytes_len(dicts.drop_last());
    }
}

/// The header part of the payload has the size that [`calculate_payload_header_size`] computes.
pub(crate) proof fn lemma_payload_head_len(dicts: Seq<Seq<u8>>, m: Seq<DictionaryMapping>, last: u32, write_hashes: bool)
    requires
        m.len() <= 0x3F_FFFF,
        dicts.len() <= MAX_DICTIONARIES,
    ensures
        spec_payload_sections(dicts, m, last, write_hashes).len() == spec_payload_header_size(m.len() as u32, dicts.len() as u32, write_hashes),
        spec_payload_bytes(dicts, m, last, write_hashes).len() == spec_payload_header_size(m.len() as u32, dicts.len() as u32, write_hashes) + spec_concat(dicts).len(),
{
    reveal(spec_payload_bytes);
    reveal(spec_payload_sections);
    lemma_dict_size_bytes_len(dicts);
    lemma_dict_hash_bytes_len(dicts);
}

/// Builds the uncompressed dictionary payload.
fn build_payload(
    dictionaries: &[&[u8]],
    mappings: &Vec<DictionaryMapping>,
    last: u32,
    write_hashes: bool,
) -> (r: Vec<u8>)
    requires
        mappings@.len() <= 0x3F_FFFF,
        dictionaries@.len() <= MAX_DICTIONARIES,
        spec_payload_header_size(mappings@.len() as u32, dictionaries@.len() as u32, write_hashes) + spec_concat(slices_view(dictionaries@)).len() <= MAX_DECOMPRESSED_SIZE,
    ensures
        r@ == spec_payload_bytes(slices_view(dictionaries@), mappings@, last, write_hashes),
{
    let ghost dicts = slices_view(dictionaries@);
    let ghost m = mappings@;
    let mut out: Vec<u8> = Vec::new();
    let header = DictionariesPayloadHeader::new(dictionaries.len() as u32, mappings.len() as u32, last, write_hashes);
    push_u64_le(&mut out, header.0);
    let mut i: usize = 0;
    while i < mappings.len()
        invariant
            i <= mappings@.len(),
            out@ == le_bytes64(header.0) + spec_mapping_indices(m).take(i as int),
            m == mappings@,
        decreases mappings@.len() - i,
    {
        out.push(mappings[i].dictionary_index);
        assert(spec_mapping_indices(m).take(i + 1) =~= spec_mapping_indices(m).take(i as int).push(mappings@[i as int].dictionary_index));
        i = i + 1;
    }
    assert(spec_mapping_indices(m).take(i as int) =~= spec_mapping_indices(m));
    let ghost with_indices = out@;
    i = 0;
    while i < mappings.len()
        invariant
            i <= mappings@.len(),
            out@ == with_indices + spec_mapping_counts(m).take(i as int),
            m == mappings@,
        decreases mappings@.len() - i,
    {
        out.push(mappings[i].num_blocks);
        assert(spec_mapping_counts(m).take(i + 1) =~= spec_mapping_counts(m).take(i as int).push(mappings@[i as int].num_blocks));
        i = i + 1;
    }
    assert(spec_mapping_counts(m).take(i as int) =~= spec_mapping_counts(m));
    let ghost head = out@;
    assert(head.len() == 8 + 2 * m.len());
    let aligned = align4(out.len() as u32) as usize;
    let pad = aligned - out.len();
    push_zeros(&mut out, pad);
    let ghost padded = out@;
    let mut k: usize = 0;
    while k < dictionaries.len()
        invariant
            k <= dictionaries@.len(),
            dicts == slices_view(dictionaries@),
            out@ == padded + spec_dict_size_bytes(dicts.take(k as int)),
        decreases dictionaries@.len() - k,
    {
        let d = dictionaries[k];
        proof {
            assert(dicts.take(k + 1) =~= dicts.take(k as int).push(d@));
            lemma_dict_size_bytes_push(dicts.take(k as int), d@);
        }
        push_u32_le(&mut out, d.len() as u32);
        k = k + 1;
    }
    assert(dicts.take(k as int) =~= dicts);
    proof {
        lemma_dict_size_bytes_len(dicts);
        lemma_dict_hash_bytes_len(dicts);
    }
    if write_hashes {
        let ghost sized = out@;
        let aligned8 = align8(out.len() as u32) as usize;
        let pad8 = aligned8 - out.len();
        push_zeros(&mut out, pad8);
        let ghost padded8 = out@;
        k = 0;
        while k < dictionaries.len()
            invariant
                k <= dictionaries@.len(),
                dicts == slices_view(dictionaries@),
                out@ == padded8 + spec_dict_hash_bytes(dicts.take(k as int)),
            decreases dictionaries@.len() - k,
        {
            let d = dictionaries[k];
            proof {
                assert(dicts.take(k + 1) =~= dicts.take(k as int).push(d@));
                lemma_dict_hash_bytes_push(dicts.take(k as int), d@);
            }
            push_u64_le(&mut out, XXH3sum::create(d).0);
            k = k + 1;
        }
        assert(dicts.take(k as int) =~= dicts);
    }
    let ghost hashed = out@;
    k = 0;
    while k < dictionaries.len()
        invariant
            k <= dictionaries@.len(),
            dicts == slices_view(dictionaries@),
            out@ == hashed + spec_concat(dicts.take(k as int)),
        decreases dictionaries@.len() - k,
    {
        let d = dictionaries[k];
        proof {
            assert(dicts.take(k + 1) =~= dicts.take(k as int).push(d@));
            lemma_concat_push_dict(dicts.take(k as int), d@);
        }
        append_bytes(&mut out, d);
        k = k + 1;
    }
    assert(dicts.take(k as int) =~= dicts);
    proof {
        reveal(spec_payload_bytes);
        reveal(spec_payload_sections);
    }
    out
}

/// Serializes the dictionaries and the dictionary index of each block into the
/// compressed dictionary payload and the header that precedes it.
///
/// # Arguments
/// * `dictionaries` - Raw dictionary data for each dictionary
/// * `blocks` - The blocks in the exact order they will be compressed in the archive.
/// * `write_hashes` - Whether to write the dictionary hashes
///
/// # Errors
/// * `TooManyDictionaries` for more than 254 dictionaries.
/// * `NoBlocks` for no blocks; `TooManyBlocks` for more than [`MAX_BLOCK_COUNT`].
/// * `DecompressedSizeTooLarge` when the payload exceeds [`MAX_DECOMPRESSED_SIZE`] bytes.
/// * `CompressionError` when the compressor fails.
/// * `CompressedSizeTooLarge` when the compressed payload exceeds [`MAX_COMPRESSED_SIZE`] bytes.
pub fn serialize_dictionary_payload_with_allocator<T: HasDictIndex>(
    dictionaries: &[&[u8]],
    blocks: &[T],
    write_hashes: bool,
) -> (r: Result<DictionarySerializeResult, DictionarySerializeError>)
    ensures
        spec_serialize_outcome(slices_view(dictionaries@), spec_block_dict_indices(blocks@), write_hashes, r),
{
    match prepare_payload(dictionaries, blocks, write_hashes) {
        Err(e) => Err(e),
        Ok(payload) => {
            match compress(DEFAULT_COMPRESSION_LEVEL, payload.as_slice()) {
                Err(e) => Err(DictionarySerializeError::CompressionError(e)),
                Ok(c) => {
                    if c.len() > MAX_COMPRESSED_SIZE as usize {
                        return Err(DictionarySerializeError::CompressedSizeTooLarge);
                    }
                    let header = DictionariesHeader::new(0, 0, c.len() as u32, payload.len() as u32);
                    Ok(DictionarySerializeResult::new(header, c))
                },
            }
        },
    }
}

/// What preparing the uncompressed payload gives: the input errors, or the payload.
pub open spec fn spec_prepare_outcome(
    dicts: Seq<Seq<u8>>,
    indices: Seq<u8>,
    write_hashes: bool,
    r: Result<Vec<u8>, DictionarySerializeError>,
) -> bool {
    if dicts.len() > MAX_DICTIONARIES {
        r == Err::<Vec<u8>, DictionarySerializeError>(DictionarySerializeError::TooManyDictionaries)
    } else if indices.len() == 0 {
        r == Err::<Vec<u8>, DictionarySerializeError>(DictionarySerializeError::NoBlocks)
    } else if indices.len() > MAX_BLOCK_COUNT {
        r == Err::<Vec<u8>, DictionarySerializeError>(DictionarySerializeError::TooManyBlocks)
    } else {
        let m = spec_dictionary_mappings(indices);
        let payload = spec_payload_bytes(dicts, m, spec_last_dict_blocks(m), write_hashes);
        if payload.len() > MAX_DECOMPRESSED_SIZE {
            r == Err::<Vec<u8>, DictionarySerializeError>(DictionarySerializeError::DecompressedSizeTooLarge)
        } else {
            r matches Ok(p) && p@ == payload
        }
    }
}

/// Checks the input and builds the uncompressed payload.
#[verifier::loop_isolation(false)]
pub(crate) fn prepare_payload<T: HasDictIndex>(
    dictionaries: &[&[u8]],
    blocks: &[T],
    write_hashes: bool,
) -> (r: Result<Vec<u8>, DictionarySerializeError>)
    ensures
        spec_prepare_outcome(slices_view(dictionaries@), spec_block_dict_indices(blocks@), write_hashes, r),
{
    let ghost dicts = slices_view(dictionaries@);
    if dictionaries.len() > MAX_DICTIONARIES {
        return Err(DictionarySerializeError::TooManyDictionaries);
    }
    if blocks.len() == 0 {
        return Err(DictionarySerializeError::NoBlocks);
    }
    if blocks.len() > MAX_BLOCK_COUNT as usize {
        return Err(DictionarySerializeError::TooManyBlocks);
    }
    let mut last: u32 = 0;
    let mappings = match create_dictionary_mappings_with_allocator(blocks, &mut last) {
        Ok(m) => m,
        Err(e) => {
            proof {
                lemma_dictionary_mappings_round_trip(spec_block_dict_indices(blocks@));
            }
            return Err(e);
        },
    };
    proof {
        lemma_dictionary_mappings_round_trip(spec_block_dict_indices(blocks@));
        assert(last == spec_last_dict_blocks(mappings@));
    }
    let header_size = calculate_payload_header_size(mappings.len() as u32, dictionaries.len() as u32, write_hashes);
    let mut total: u64 = header_size as u64;
    let mut k: usize = 0;
    while k < dictionaries.len()
        invariant
            k <= dictionaries@.len(),
            dicts == slices_view(dictionaries@),
            total == header_size + spec_concat(dicts.take(k as int)).len(),
            total <= MAX_DECOMPRESSED_SIZE,
        decreases dictionaries@.len() - k,
    {
        let d = dictionaries[k];
        proof {
            assert(dicts.take(k + 1) =~= dicts.take(k as int).push(d@));
            lemma_concat_push_dict(dicts.take(k as int), d@);
        }
        if d.len() as u64 > MAX_DECOMPRESSED_SIZE as u64 - total {
            proof {
                lemma_concat_prefix_len(dicts, k + 1);
                lemma_payload_head_len(dicts, mappings@, last, write_hashes);
            }
            return Err(DictionarySerializeError::DecompressedSizeTooLarge);
        }
        total = total + d.len() as u64;
        k = k + 1;
    }
    proof {
        assert(dicts.take(k as int) =~= dicts);
        lemma_payload_head_len(dicts, mappings@, last, write_hashes);
    }
    Ok(build_payload(dictionaries, &mappings, last, write_hashes))
}

/// A prefix of the dictionaries is never longer than all of them.
pub(crate) proof fn lemma_concat_prefix_len(dicts: Seq<Seq<u8>>, k: int)
    requires
        0 <= k <= dicts.len(),
    ensures
        spec_concat(dicts.take(k)).len() <= spec_concat(dicts).len(),
    decreases dicts.len() - k,
{
    if k < dicts.len() {
        assert(dicts.take(k + 1) =~= dicts.take(k).push(dicts[k]));
        lemma_concat_push_dict(dicts.take(k), dicts[k]);
        lemma_concat_prefix_len(dicts, k + 1);
    } else {
        assert(dicts.take(k) =~= dicts);
    }
}

/// The packed word that [`DictionariesHeader::new`] produces.
pub open spec fn spec_dictionaries_header_word(reserved: u8, version: u8, compressed_size: u32, decompressed_size: u32) -> u64 {
    set_bits64(set_bits64(set_bits64(set_bits64(0, 59, 5, reserved as u64), 55, 4, version as u64), 28, 27, compressed_size as u64), 0, 28, decompressed_size as u64)
}

/// Packed dictionary section header.
///
/// | Bits    | Field                       |
/// |---------|-----------------------------|
/// | 63 - 59 | `reserved` (u5)             |
/// | 58 - 55 | `version` (u4)              |
/// | 54 - 28 | `compressed_size` (u27)     |
/// | 27 - 0  | `decompressed_size` (u28)   |
#[derive(Clone, Copy, PartialEq, Eq, Hash, Default, Debug)]
pub struct DictionariesHeader(pub u64);

impl DictionariesHeader {
    /// Size of the header in bytes.
    pub const SIZE_BYTES: usize = 8;

    /// Packs the header; each value is truncated to its field.
    pub fn new(reserved: u8, version: u8, compressed_size: u32, decompressed_size: u32) -> (r: DictionariesHeader)
        ensures
            r.0 == spec_dictionaries_header_word(reserved, version, compressed_size, decompressed_size),
    {
        let mut w: u64 = 0;
        w = set_field64(w, 59, 5, reserved as u64);
        w = set_field64(w, 55, 4, version as u64);
        w = set_field64(w, 28, 27, compressed_size as u64);
        w = set_field64(w, 0, 28, decompressed_size as u64);
        DictionariesHeader(w)
    }

    /// `u5` Unused.
    pub fn reserved(&self) -> (r: u8)
        ensures
            r as u64 == get_bits64(self.0, 59, 5),
    {
        let r = get_field64(self.0, 59, 5);
        proof {
            lemma2_to64();
            lemma_mask64_is(5, 0x1f);
        }
        r as u8
    }

    /// `u4` The version of the archive.
    pub fn version(&self) -> (r: u8)
        ensures
            r as u64 == get_bits64(self.0, 55, 4),
    {
        let r = get_field64(self.0, 55, 4);
        proof {
            lemma2_to64();
            lemma_mask64_is(4, 0xf);
        }
        r as u8
    }

    /// `u27` The compressed size of the payload.
    pub fn compressed_size(&self) -> (r: u32)
        ensures
            r as u64 == get_bits64(self.0, 28, 27),
            r <= 0x07FF_FFFF,
    {
        let r = get_field64(self.0, 28, 27);
        proof {
            lemma2_to64();
            lemma_mask64_is(27, 0x7ffffff);
        }
        r as u32
    }

    /// `u28` The decompressed size of the payload.
    pub fn decompressed_size(&self) -> (r: u32)
        ensures
            r as u64 == get_bits64(self.0, 0, 28),
            r <= 0x0FFF_FFFF,
    {
        let r = get_field64(self.0, 0, 28);
        proof {
            lemma2_to64();
            lemma_mask64_is(28, 0xfffffff);
        }
        r as u32
    }

    /// Sets the decompressed size, truncated to its 28 bits.
    pub fn set_decompressed_size(&mut self, value: u32)
        ensures
            final(self).0 == set_bits64(old(self).0, 0, 28, value as u64),
    {
        self.0 = set_field64(self.0, 0, 28, value as u64);
    }
}

/// Reading the fields of a packed dictionary header gives back the values it was packed
/// with, each truncated to its field: the fields do not overlap.
pub proof fn lemma_dictionaries_header_fields(reserved: u8, version: u8, compressed_size: u32, decompressed_size: u32)
    ensures
        ({
            let w = spec_dictionaries_header_word(reserved, version, compressed_size, decompressed_size);
            &&& get_bits64(w, 59, 5) == reserved as u64 % 32
            &&& get_bits64(w, 55, 4) == version as u64 % 16
            &&& get_bits64(w, 28, 27) == compressed_size as u64 % 0x0800_0000
            &&& get_bits64(w, 0, 28) == decompressed_size as u64 % 0x1000_0000
        }),
{
    let reserved = reserved as u64;
    let version = version as u64;
    let compressed_size = compressed_size as u64;
    let decompressed_size = decompressed_size as u64;
    broadcast use crate::utilities::bits::group_bit_fields;
    lemma2_to64();
    let w = set_bits64(set_bits64(set_bits64(set_bits64(0, 59, 5, reserved), 55, 4, version), 28, 27, compressed_size), 0, 28, decompressed_size);
    assert(get_bits64(w, 59, 5) == reserved % 32);
    assert(get_bits64(w, 55, 4) == version % 16);
    assert(get_bits64(w, 28, 27) == compressed_size % 0x0800_0000);
    assert(get_bits64(w, 0, 28) == decompressed_size % 0x1000_0000);
}

/// The packed word that [`DictionariesPayloadHeader::new`] produces.
pub open spec fn spec_payload_header_word(num_dictionaries: u32, num_mappings: u32, last_dict_block_index: u32, has_hashes: bool) -> u64 {
    set_bits64(set_bits64(set_bits64(set_bits64(0, 44, 8, num_dictionaries as u64), 22, 22, num_mappings as u64), 0, 22, last_dict_block_index as u64), 52, 1, if has_hashes { 1 } else { 0 })
}

/// Packed header at the start of the (decompressed) dictionary payload.
///
/// | Bits    | Field                          |
/// |---------|--------------------------------|
/// | 52      | `has_hashes` (u1)              |
/// | 51 - 44 | `num_dictionaries` (u8)        |
/// | 43 - 22 | `num_mappings` (u22)           |
/// | 21 - 0  | `last_dict_block_index` (u22)  |
#[derive(Clone, Copy, PartialEq, Eq, Hash, Default, Debug)]
pub struct DictionariesPayloadHeader(pub u64);

impl DictionariesPayloadHeader {
    /// Size of the header in bytes.
    pub const SIZE_BYTES: usize = 8;

    /// Packs the header; each value is truncated to its field.
    pub fn new(num_dictionaries: u32, num_mappings: u32, last_dict_block_index: u32, has_hashes: bool) -> (r: DictionariesPayloadHeader)
        ensures
            r.0 == spec_payload_header_word(num_dictionaries, num_mappings, last_dict_block_index, has_hashes),
    {
        let mut w: u64 = 0;
        w = set_field64(w, 44, 8, num_dictionaries as u64);
        w = set_field64(w, 22, 22, num_mappings as u64);
        w = set_field64(w, 0, 22, last_dict_block_index as u64);
        w = set_field64(w, 52, 1, if has_hashes { 1 } else { 0 });
        DictionariesPayloadHeader(w)
    }

    /// `u1` The flag for having hashes.
    pub fn has_hashes(&self) -> (r: u8)
        ensures
            r as u64 == get_bits64(self.0, 52, 1),
    {
        let r = get_field64(self.0, 52, 1);
        proof {
            lemma2_to64();
            lemma_mask64_is(1, 0x1);
        }
        r as u8
    }

    /// `u8` The number of dictionaries.
    pub fn num_dictionaries(&self) -> (r: u32)
        ensures
            r as u64 == get_bits64(self.0, 44, 8),
    {
        let r = get_field64(self.0, 44, 8);
        proof {
            lemma2_to64();
            lemma_mask64_is(8, 0xff);
        }
        r as u32
    }

    /// `u22` The number of mappings.
    pub fn num_mappings(&self) -> (r: u32)
        ensures
            r as u64 == get_bits64(self.0, 22, 22),
    {
        let r = get_field64(self.0, 22, 22);
        proof {
            lemma2_to64();
            lemma_mask64_is(22, 0x3fffff);
        }
        r as u32
    }

    /// `u22` The number of blocks up to the last one that uses a dictionary.
    pub fn last_dict_block_index(&self) -> (r: u32)
        ensures
            r as u64 == get_bits64(self.0, 0, 22),
    {
        let r = get_field64(self.0, 0, 22);
        proof {
            lemma2_to64();
            lemma_mask64_is(22, 0x3fffff);
        }
        r as u32
    }
}

/// Reading the fields of a packed payload header gives back the values it was packed
/// with, each truncated to the width of its field.
pub proof fn lemma_payload_header_fields(num_dictionaries: u32, num_mappings: u32, last_dict_block_index: u32, has_hashes: bool)
    ensures
        ({
            let w = spec_payload_header_word(num_dictionaries, num_mappings, last_dict_block_index, has_hashes);
            &&& (get_bits64(w, 52, 1) == 1) == has_hashes
            &&& get_bits64(w, 44, 8) == num_dictionaries as u64 % 0x100
            &&& get_bits64(w, 22, 22) == num_mappings as u64 % 0x40_0000
            &&& get_bits64(w, 0, 22) == last_dict_block_index as u64 % 0x40_0000
        }),
{
    let h: u64 = if has_hashes { 1 } else { 0 };
    let num_dictionaries = num_dictionaries as u64;
    let num_mappings = num_mappings as u64;
    let last_dict_block_index = last_dict_block_index as u64;
    broadcast use crate::utilities::bits::group_bit_fields;
    lemma2_to64();
    assert(get_bits64(set_bits64(set_bits64(set_bits64(set_bits64(0, 44, 8, num_dictionaries as u64), 22, 22, num_mappings as u64), 0, 22, last_dict_block_index as u64), 52, 1, h), 52, 1) == h);
    assert(get_bits64(set_bits64(set_bits64(set_bits64(set_bits64(0, 44, 8, num_dictionaries as u64), 22, 22, num_mappings as u64), 0, 22, last_dict_block_index as u64), 52, 1, h), 44, 8) == num_dictionaries % 0x100);
    assert(get_bits64(set_bits64(set_bits64(set_bits64(set_bits64(0, 44, 8, num_dictionaries as u64), 22, 22, num_mappings as u64), 0, 22, last_dict_block_index as u64), 52, 1, h), 22, 22) == num_mappings % 0x40_0000);
    assert(get_bits64(set_bits64(set_bits64(set_bits64(set_bits64(0, 44, 8, num_dictionaries as u64), 22, 22, num_mappings as u64), 0, 22, last_dict_block_index as u64), 52, 1, h), 0, 22) == last_dict_block_index % 0x40_0000);
}

} // verus!
