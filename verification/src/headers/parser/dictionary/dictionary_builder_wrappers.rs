use crate::api::traits::has_dict_index::HasDictIndex;
use crate::headers::parser::dictionary::dictionary_builder::{
    lemma_concat_push_dict, lemma_dict_hash_bytes_len, lemma_dict_size_bytes_len, lemma_dictionaries_header_fields,
    spec_dict_hash_bytes,
    lemma_dictionary_mappings_round_trip, lemma_payload_head_len, lemma_payload_header_fields, pad_to,
    spec_dict_size_bytes, spec_expand_mappings, spec_mapping_counts, spec_mapping_indices,
    spec_payload_header_word, spec_payload_sections, DictionaryMapping, NO_DICTIONARY_INDEX,
    prepare_payload, serialize_dictionary_payload_with_allocator, slices_view, spec_block_dict_indices,
    spec_dictionaries_header_word, spec_dictionary_mappings, spec_last_dict_blocks, spec_payload_bytes,
    spec_serialize_outcome, DictionariesHeader, DEFAULT_COMPRESSION_LEVEL, DictionarySerializeError, DictionarySerializeResult,
    MAX_BLOCK_COUNT, MAX_COMPRESSED_SIZE, MAX_DECOMPRESSED_SIZE, MAX_DICTIONARIES,
};
use crate::headers::parser::dictionary::dictionary_reader::{
    align_up4, extract_payload_with_allocator, lemma_seq_sum_push, parse_payload_with_allocator, seq_sum,
    spec_dictionary_of, spec_fill_indices, spec_parse_payload, spec_payload_dict_sizes, spec_payload_word, spec_split_dictionaries,
    spec_section_word, DictionaryData, DictionaryReadError, InsufficientDataError,
};
use crate::headers::parser::string_pool::{append_bytes, spec_concat};
use crate::utilities::bits::get_bits64;
use crate::utilities::bytes::{
    le_bytes32, le_bytes64, lemma_read_u32_where, lemma_read_u64_where, push_u64_le, read_u32_le, read_u64_le,
};
use crate::headers::types::xxh3sum::xxh3_64;
use crate::utilities::compression::zstd::{spec_frame_of, zstd_compressed, zstd_decompressed};
use crate::utilities::compression::{NxCompressionError, NxDecompressionError};
use vstd::prelude::*;

verus! {

/// The blocks of the first mapping come first.
proof fn lemma_expand_front(m: Seq<DictionaryMapping>)
    requires
        m.len() > 0,
    ensures
        spec_expand_mappings(m) == Seq::new(m[0].num_blocks as nat, |i: int| m[0].dictionary_index) + spec_expand_mappings(m.drop_first()),
    decreases m.len(),
{
    if m.len() == 1 {
        assert(m.drop_first() =~= Seq::<DictionaryMapping>::empty());
        assert(m.drop_last() =~= Seq::<DictionaryMapping>::empty());
        assert(spec_expand_mappings(m) =~= Seq::new(m[0].num_blocks as nat, |i: int| m[0].dictionary_index) + spec_expand_mappings(m.drop_first()));
    } else {
        let dl = m.drop_last();
        lemma_expand_front(dl);
        assert(m.drop_first().drop_last() =~= dl.drop_first());
        assert(m.drop_first().last() == m.last());
        assert(spec_expand_mappings(m) =~= Seq::new(m[0].num_blocks as nat, |i: int| m[0].dictionary_index) + spec_expand_mappings(m.drop_first()));
    }
}

/// An index is that of a dictionary or no dictionary.
pub open spec fn valid_dict_index(d: u8, num_dicts: nat) -> bool {
    d == NO_DICTIONARY_INDEX || d < num_dicts
}

/// The mappings of valid block indices hold valid indices.
proof fn lemma_mapping_indices_valid(m: Seq<DictionaryMapping>, num_dicts: nat)
    requires
        forall|i: int| 0 <= i < m.len() ==> 1 <= #[trigger] m[i].num_blocks,
        forall|j: int| 0 <= j < spec_expand_mappings(m).len() ==> valid_dict_index(#[trigger] spec_expand_mappings(m)[j], num_dicts),
    ensures
        forall|i: int| 0 <= i < m.len() ==> valid_dict_index(#[trigger] m[i].dictionary_index, num_dicts),
    decreases m.len(),
{
    if m.len() > 0 {
        let dl = m.drop_last();
        let e = spec_expand_mappings(dl);
        assert forall|i: int| 0 <= i < dl.len() implies 1 <= #[trigger] dl[i].num_blocks by {
            assert(dl[i] == m[i]);
        }
        assert forall|j: int| 0 <= j < e.len() implies valid_dict_index(#[trigger] e[j], num_dicts) by {
            assert(spec_expand_mappings(m)[j] == e[j]);
        }
        lemma_mapping_indices_valid(dl, num_dicts);
        assert(spec_expand_mappings(m)[e.len() as int] == m.last().dictionary_index);
        assert forall|i: int| 0 <= i < m.len() implies valid_dict_index(#[trigger] m[i].dictionary_index, num_dicts) by {
            if i < dl.len() {
                assert(dl[i] == m[i]);
            }
        }
    }
}

/// Filling the block indices from the mapping sections gives the expanded mappings.
proof fn lemma_fill_of_mappings(m: Seq<DictionaryMapping>, num_dicts: nat, cap: nat, acc: Seq<u8>)
    requires
        forall|i: int| 0 <= i < m.len() ==> valid_dict_index(#[trigger] m[i].dictionary_index, num_dicts),
        acc.len() + spec_expand_mappings(m).len() == cap,
    ensures
        spec_fill_indices(spec_mapping_indices(m), spec_mapping_counts(m), num_dicts, cap, acc) == Ok::<Seq<u8>, DictionaryReadError>(acc + spec_expand_mappings(m)),
    decreases m.len(),
{
    if m.len() == 0 {
        assert(acc + spec_expand_mappings(m) =~= acc);
    } else {
        let rest = m.drop_first();
        let run = Seq::new(m[0].num_blocks as nat, |i: int| m[0].dictionary_index);
        lemma_expand_front(m);
        assert(valid_dict_index(m[0].dictionary_index, num_dicts));
        assert forall|i: int| 0 <= i < rest.len() implies valid_dict_index(#[trigger] rest[i].dictionary_index, num_dicts) by {
            assert(rest[i] == m[i + 1]);
        }
        assert(spec_mapping_indices(m).drop_first() =~= spec_mapping_indices(rest));
        assert(spec_mapping_counts(m).drop_first() =~= spec_mapping_counts(rest));
        assert(Seq::new(spec_mapping_counts(m)[0] as nat, |j: int| spec_mapping_indices(m)[0]) =~= run);
        lemma_fill_of_mappings(rest, num_dicts, cap, acc + run);
        assert(acc + run + spec_expand_mappings(rest) =~= acc + spec_expand_mappings(m));
    }
}

/// The size of dictionary `k` lies at bytes `4k..4k+4` of the size section.
proof fn lemma_dict_size_bytes_at(dicts: Seq<Seq<u8>>, k: int)
    requires
        0 <= k < dicts.len(),
    ensures
        spec_dict_size_bytes(dicts).subrange(4 * k, 4 * k + 4) == le_bytes32(dicts[k].len() as u32),
    decreases dicts.len(),
{
    let dl = dicts.drop_last();
    lemma_dict_size_bytes_len(dl);
    if k == dicts.len() - 1 {
        assert(spec_dict_size_bytes(dicts).subrange(4 * k, 4 * k + 4) =~= le_bytes32(dicts[k].len() as u32));
    } else {
        lemma_dict_size_bytes_at(dl, k);
        assert(spec_dict_size_bytes(dicts).subrange(4 * k, 4 * k + 4) =~= spec_dict_size_bytes(dl).subrange(4 * k, 4 * k + 4));
    }
}

/// Dictionary `k` lies in the concatenation right after the ones before it.
proof fn lemma_concat_at(dicts: Seq<Seq<u8>>, k: int)
    requires
        0 <= k < dicts.len(),
    ensures
        spec_concat(dicts.take(k)).len() + dicts[k].len() <= spec_concat(dicts).len(),
        spec_concat(dicts).subrange(spec_concat(dicts.take(k)).len() as int, spec_concat(dicts.take(k)).len() + dicts[k].len() as int) == dicts[k],
    decreases dicts.len(),
{
    let dl = dicts.drop_last();
    if k == dicts.len() - 1 {
        assert(dicts.take(k) =~= dl);
        assert(spec_concat(dicts).subrange(spec_concat(dl).len() as int, spec_concat(dl).len() + dicts[k].len() as int) =~= dicts[k]);
    } else {
        lemma_concat_at(dl, k);
        assert(dl.take(k) =~= dicts.take(k));
        let a = spec_concat(dicts.take(k)).len() as int;
        assert(spec_concat(dicts).subrange(a, a + dicts[k].len()) =~= spec_concat(dl).subrange(a, a + dl[k].len()));
    }
}

/// The running sum of the sizes is the running length of the concatenation.
proof fn lemma_sizes_sum(dicts: Seq<Seq<u8>>, sizes: Seq<u32>, k: int)
    requires
        sizes.len() == dicts.len(),
        forall|i: int| 0 <= i < dicts.len() ==> #[trigger] sizes[i] == dicts[i].len(),
        0 <= k <= dicts.len(),
    ensures
        seq_sum(sizes.take(k)) == spec_concat(dicts.take(k)).len(),
    decreases k,
{
    if k > 0 {
        lemma_sizes_sum(dicts, sizes, k - 1);
        lemma_seq_sum_push(sizes, k - 1);
        assert(dicts.take(k) =~= dicts.take(k - 1).push(dicts[k - 1]));
        lemma_concat_push_dict(dicts.take(k - 1), dicts[k - 1]);
    } else {
        assert(sizes.take(0) =~= Seq::<u32>::empty());
        assert(dicts.take(0) =~= Seq::<Seq<u8>>::empty());
    }
}

/// The payload starts with the payload header word.
proof fn lemma_payload_word(dicts: Seq<Seq<u8>>, m: Seq<DictionaryMapping>, last: u32, write_hashes: bool)
    ensures
        spec_payload_bytes(dicts, m, last, write_hashes).len() >= 8 + 2 * m.len(),
        spec_payload_word(spec_payload_bytes(dicts, m, last, write_hashes))
            == spec_payload_header_word(dicts.len() as u32, m.len() as u32, last, write_hashes),
        spec_payload_bytes(dicts, m, last, write_hashes).subrange(8, 8 + m.len() as int) == spec_mapping_indices(m),
        spec_payload_bytes(dicts, m, last, write_hashes).subrange(8 + m.len() as int, 8 + 2 * m.len() as int) == spec_mapping_counts(m),
{
    reveal(spec_payload_bytes);
    reveal(spec_payload_sections);
    let word = spec_payload_header_word(dicts.len() as u32, m.len() as u32, last, write_hashes);
    let p = spec_payload_bytes(dicts, m, last, write_hashes);
    let nm = m.len() as int;
    assert(p.subrange(0, 8) =~= le_bytes64(word));
    lemma_read_u64_where(p, 0, word);
    assert(p.subrange(8, 8 + nm) =~= spec_mapping_indices(m));
    assert(p.subrange(8 + nm, 8 + 2 * nm) =~= spec_mapping_counts(m));
}

/// The size section of the payload holds the size of each dictionary.
proof fn lemma_payload_sizes(dicts: Seq<Seq<u8>>, m: Seq<DictionaryMapping>, last: u32, write_hashes: bool)
    requires
        m.len() <= 0x3F_FFFF,
        dicts.len() <= MAX_DICTIONARIES,
        spec_payload_bytes(dicts, m, last, write_hashes).len() <= MAX_DECOMPRESSED_SIZE,
    ensures
        spec_payload_dict_sizes(spec_payload_bytes(dicts, m, last, write_hashes), m.len(), dicts.len())
            == Seq::new(dicts.len(), |k: int| dicts[k].len() as u32),
        forall|k: int| 0 <= k < dicts.len() ==> dicts[k].len() <= MAX_DECOMPRESSED_SIZE,
{
    reveal(spec_payload_bytes);
    reveal(spec_payload_sections);
    let p = spec_payload_bytes(dicts, m, last, write_hashes);
    let nm = m.len() as int;
    let nd = dicts.len();
    let word = spec_payload_header_word(dicts.len() as u32, m.len() as u32, last, write_hashes);
    let head = le_bytes64(word) + spec_mapping_indices(m) + spec_mapping_counts(m);
    let sb = spec_dict_size_bytes(dicts);
    lemma_payload_head_len(dicts, m, last, write_hashes);
    lemma_dict_size_bytes_len(dicts);
    let base = align_up4(8 + 2 * nm);
    assert(pad_to(head, 4).len() == base);
    let sizes = spec_payload_dict_sizes(p, nm as nat, nd);
    assert forall|k: int| 0 <= k < nd implies dicts[k].len() <= MAX_DECOMPRESSED_SIZE by {
        crate::headers::parser::dictionary::dictionary_builder::lemma_concat_prefix_len(dicts, k + 1);
        assert(dicts.take(k + 1) =~= dicts.take(k).push(dicts[k]));
        lemma_concat_push_dict(dicts.take(k), dicts[k]);
    }
    assert forall|k: int| 0 <= k < nd implies #[trigger] sizes[k] == dicts[k].len() as u32 by {
        lemma_dict_size_bytes_at(dicts, k);
        assert(p.subrange(base + 4 * k, base + 4 * k + 4) =~= sb.subrange(4 * k, 4 * k + 4));
        lemma_read_u32_where(p, base + 4 * k, dicts[k].len() as u32);
    }
    assert(sizes =~= Seq::new(dicts.len(), |k: int| dicts[k].len() as u32));
}

/// The dictionaries follow the header sections, and splitting them by their sizes gives
/// them back.
proof fn lemma_payload_data(dicts: Seq<Seq<u8>>, m: Seq<DictionaryMapping>, last: u32, write_hashes: bool)
    requires
        forall|k: int| 0 <= k < dicts.len() ==> dicts[k].len() <= MAX_DECOMPRESSED_SIZE,
    ensures
        ({
            let p = spec_payload_bytes(dicts, m, last, write_hashes);
            let sizes = Seq::new(dicts.len(), |k: int| dicts[k].len() as u32);
            let start = spec_payload_sections(dicts, m, last, write_hashes).len() as int;
            &&& seq_sum(sizes) == spec_concat(dicts).len()
            &&& spec_split_dictionaries(p.subrange(start, p.len() as int), sizes) == dicts
        }),
{
    reveal(spec_payload_bytes);
    reveal(spec_payload_sections);
    let p = spec_payload_bytes(dicts, m, last, write_hashes);
    let sizes = Seq::new(dicts.len(), |k: int| dicts[k].len() as u32);
    let start = spec_payload_sections(dicts, m, last, write_hashes).len() as int;
    let nd = dicts.len() as int;
    lemma_sizes_sum(dicts, sizes, nd);
    assert(sizes.take(nd) =~= sizes);
    assert(dicts.take(nd) =~= dicts);
    let data = p.subrange(start, p.len() as int);
    assert(data =~= spec_concat(dicts));
    assert forall|k: int| 0 <= k < nd implies #[trigger] spec_split_dictionaries(data, sizes)[k] == dicts[k] by {
        lemma_sizes_sum(dicts, sizes, k);
        lemma_concat_at(dicts, k);
    }
    assert(spec_split_dictionaries(data, sizes) =~= dicts);
}

/// Parsing the uncompressed payload of valid dictionaries and block indices gives them
/// back, provided the last block uses a dictionary.
proof fn lemma_parse_of_payload(dicts: Seq<Seq<u8>>, indices: Seq<u8>, write_hashes: bool)
    requires
        dicts.len() <= MAX_DICTIONARIES,
        0 < indices.len() <= MAX_BLOCK_COUNT,
        forall|i: int| 0 <= i < indices.len() ==> valid_dict_index(#[trigger] indices[i], dicts.len()),
        indices.last() != NO_DICTIONARY_INDEX,
        spec_payload_bytes(dicts, spec_dictionary_mappings(indices), spec_last_dict_blocks(spec_dictionary_mappings(indices)), write_hashes).len() <= MAX_DECOMPRESSED_SIZE,
    ensures
        spec_dictionary_mappings(indices).len() <= indices.len(),
        spec_parse_payload(spec_payload_bytes(dicts, spec_dictionary_mappings(indices), spec_last_dict_blocks(spec_dictionary_mappings(indices)), write_hashes))
            == Ok::<(Seq<Seq<u8>>, Seq<u8>), DictionaryReadError>((dicts, indices)),
{
    let m = spec_dictionary_mappings(indices);
    lemma_dictionary_mappings_round_trip(indices);
    let nd = dicts.len();
    let nm = m.len() as int;
    let dl = m.drop_last();
    assert(spec_expand_mappings(m)[spec_expand_mappings(dl).len() as int] == m.last().dictionary_index);
    assert(spec_expand_mappings(m).last() == m.last().dictionary_index);
    let last = spec_last_dict_blocks(m);
    assert(last == indices.len());
    let p = spec_payload_bytes(dicts, m, last, write_hashes);
    lemma_payload_head_len(dicts, m, last, write_hashes);
    lemma_payload_word(dicts, m, last, write_hashes);
    lemma_payload_header_fields(nd as u32, nm as u32, last, write_hashes);
    let w = spec_payload_word(p);
    assert(get_bits64(w, 44, 8) == nd);
    assert(get_bits64(w, 22, 22) == nm);
    assert(get_bits64(w, 0, 22) == last);
    lemma_mapping_indices_valid(m, nd);
    lemma_fill_of_mappings(m, nd, last as nat, Seq::empty());
    assert(Seq::<u8>::empty() + spec_expand_mappings(m) =~= indices);
    lemma_payload_sizes(dicts, m, last, write_hashes);
    lemma_payload_data(dicts, m, last, write_hashes);
}

/// Deserializing a serialized dictionary section gives, for every block, the dictionary
/// that the block names (or none), whether the payload was stored as it is or compressed.
///
/// This holds when every block names one of the dictionaries or no dictionary, and the
/// last block uses a dictionary (the section records the blocks only up to the last one
/// that uses a dictionary, while it writes the mappings of all blocks).
#[verifier::spinoff_prover]
#[verifier::rlimit(40)]
pub proof fn lemma_dictionary_section_round_trip(
    dicts: Seq<Seq<u8>>,
    indices: Seq<u8>,
    write_hashes: bool,
    compress: bool,
    serialized: Vec<u8>,
    r: Result<DictionaryData, DictionaryReadError>,
)
    requires
        dicts.len() <= MAX_DICTIONARIES,
        0 < indices.len() <= MAX_BLOCK_COUNT,
        forall|i: int| 0 <= i < indices.len() ==> valid_dict_index(#[trigger] indices[i], dicts.len()),
        indices.last() != NO_DICTIONARY_INDEX,
        spec_serialize_data_outcome(dicts, indices, write_hashes, compress, Ok(serialized)),
        spec_deserialize_outcome(serialized@, r),
    ensures
        r matches Ok(d) && forall|i: int| #[trigger] d.spec_dictionary_for_block(i) == spec_dictionary_of(dicts, indices, i),
{
    let m = spec_dictionary_mappings(indices);
    let payload = spec_payload_bytes(dicts, m, spec_last_dict_blocks(m), write_hashes);
    lemma_parse_of_payload(dicts, indices, write_hashes);
    lemma_payload_head_len(dicts, m, spec_last_dict_blocks(m), write_hashes);
    assert(payload.len() <= MAX_DECOMPRESSED_SIZE);
    assert(payload.len() >= 8);
    if !compress {
        assert(serialized@.skip(8) =~= payload);
        lemma_section_reads_back(serialized@, payload, 0);
    } else {
        let c = zstd_compressed(DEFAULT_COMPRESSION_LEVEL, payload)->0;
        assert(serialized@.skip(8) =~= c);
        lemma_section_reads_back(serialized@, payload, c.len() as u32);
        assert(zstd_decompressed(c, payload.len() as usize) == Some(payload));
    }
}

/// A section made of its header and a body reads back the sizes in the header, and
/// the body where the header says it lies.
#[verifier::spinoff_prover]
proof fn lemma_section_reads_back(v: Seq<u8>, payload: Seq<u8>, clen: u32)
    requires
        8 <= payload.len() <= MAX_DECOMPRESSED_SIZE,
        clen <= MAX_COMPRESSED_SIZE,
        v == le_bytes64(spec_dictionaries_header_word(0, 0, clen, payload.len() as u32)) + v.skip(8),
        clen == 0 ==> v.skip(8) == payload,
        clen != 0 ==> v.len() - 8 == clen,
    ensures
        v.len() >= 8,
        get_bits64(spec_section_word(v), 0, 28) == payload.len(),
        get_bits64(spec_section_word(v), 28, 27) == clen,
        clen == 0 ==> v.subrange(8, 8 + payload.len() as int) == payload,
        clen != 0 ==> v.subrange(8, 8 + clen as int) == v.skip(8),
{
    let hw = spec_dictionaries_header_word(0, 0, clen, payload.len() as u32);
    assert(v.subrange(0, 8) =~= le_bytes64(hw));
    lemma_read_u64_where(v, 0, hw);
    lemma_dictionaries_header_fields(0, 0, clen, payload.len() as u32);
    if clen == 0 {
        assert(v.subrange(8, 8 + payload.len() as int) =~= payload);
    } else {
        assert(v.subrange(8, 8 + clen as int) =~= v.skip(8));
    }
}

/// The hash of dictionary `k` lies at bytes `8k..8k+8` of the hash section.
proof fn lemma_dict_hash_bytes_at(dicts: Seq<Seq<u8>>, k: int)
    requires
        0 <= k < dicts.len(),
    ensures
        spec_dict_hash_bytes(dicts).subrange(8 * k, 8 * k + 8) == le_bytes64(xxh3_64(dicts[k])),
    decreases dicts.len(),
{
    let dl = dicts.drop_last();
    lemma_dict_hash_bytes_len(dl);
    if k == dicts.len() - 1 {
        assert(spec_dict_hash_bytes(dicts).subrange(8 * k, 8 * k + 8) =~= le_bytes64(xxh3_64(dicts[k])));
    } else {
        lemma_dict_hash_bytes_at(dl, k);
        assert(spec_dict_hash_bytes(dicts).subrange(8 * k, 8 * k + 8) =~= spec_dict_hash_bytes(dl).subrange(8 * k, 8 * k + 8));
    }
}

/// Where the parts of a dictionary section stored as it is lie. After the 8 byte section
/// header, whose low 28 bits hold the payload's size and whose next 27 bits (the
/// compressed size) are zero, comes the payload:
/// * an 8 byte header word that holds the number of block runs (mappings) in bits 22-43,
///   the number of dictionaries in bits 44-51, whether hashes follow in bit 52 and the
///   number of blocks up to the last one that uses a dictionary in bits 0-21;
/// * the dictionary index of each run, one byte each, then the block count of each run,
///   one byte each;
/// * from the next multiple of 4, the size of each dictionary in 4 bytes;
/// * with hashes, from the next multiple of 8, the XXH3 hash of each dictionary in 8 bytes;
/// * the dictionaries themselves, one after the other, which end the section.
///
/// Offsets count from the start of the payload; all values are little endian.
pub proof fn lemma_dictionary_stored_section_layout(
    dicts: Seq<Seq<u8>>,
    indices: Seq<u8>,
    write_hashes: bool,
    serialized: Vec<u8>,
)
    requires
        spec_serialize_data_outcome(dicts, indices, write_hashes, false, Ok(serialized)),
    ensures
        ({
            let v = serialized@;
            let p = v.skip(8);
            let m = spec_dictionary_mappings(indices);
            let nm = m.len() as int;
            let nd = dicts.len() as int;
            let sizes_pos = (8 + 2 * nm + 3) / 4 * 4;
            let hashes_pos = (sizes_pos + 4 * nd + 7) / 8 * 8;
            let data_pos = if write_hashes { hashes_pos + 8 * nd } else { sizes_pos + 4 * nd };
            let sw = read_u64_le(v, 0);
            let pw = read_u64_le(p, 0);
            &&& v.len() >= 8
            &&& get_bits64(sw, 0, 28) == p.len()
            &&& get_bits64(sw, 28, 27) == 0
            &&& get_bits64(pw, 22, 22) == nm
            &&& get_bits64(pw, 44, 8) == nd
            &&& (get_bits64(pw, 52, 1) == 1) == write_hashes
            &&& get_bits64(pw, 0, 22) == spec_last_dict_blocks(m) as u64 % 0x40_0000
            &&& forall|j: int| 0 <= j < nm ==> #[trigger] p[8 + j] == m[j].dictionary_index && p[8 + nm + j] == m[j].num_blocks
            &&& forall|k: int| 0 <= k < nd ==> #[trigger] read_u32_le(p, sizes_pos + 4 * k) == dicts[k].len() as u32
            &&& write_hashes ==> forall|k: int| 0 <= k < nd ==> #[trigger] read_u64_le(p, hashes_pos + 8 * k) == xxh3_64(dicts[k])
            &&& data_pos <= p.len()
            &&& p.subrange(data_pos, p.len() as int) == spec_concat(dicts)
        }),
{
    reveal(spec_payload_bytes);
    reveal(spec_payload_sections);
    let v = serialized@;
    let p = v.skip(8);
    let m = spec_dictionary_mappings(indices);
    let last = spec_last_dict_blocks(m);
    let payload = spec_payload_bytes(dicts, m, last, write_hashes);
    lemma_dictionary_mappings_round_trip(indices);
    let nm = m.len() as int;
    let nd = dicts.len() as int;
    assert(p =~= payload);
    lemma_payload_head_len(dicts, m, last, write_hashes);
    lemma_payload_word(dicts, m, last, write_hashes);
    lemma_payload_header_fields(nd as u32, nm as u32, last, write_hashes);
    lemma_section_reads_back(v, payload, 0);
    lemma_dict_size_bytes_len(dicts);
    lemma_dict_hash_bytes_len(dicts);
    let word = spec_payload_header_word(dicts.len() as u32, m.len() as u32, last, write_hashes);
    let head = le_bytes64(word) + spec_mapping_indices(m) + spec_mapping_counts(m);
    let sb = spec_dict_size_bytes(dicts);
    let hb = spec_dict_hash_bytes(dicts);
    let sizes_pos = (8 + 2 * nm + 3) / 4 * 4;
    let sized = pad_to(head, 4) + sb;
    assert(pad_to(head, 4).len() == sizes_pos);
    let hashes_pos = (sizes_pos + 4 * nd + 7) / 8 * 8;
    assert forall|j: int| 0 <= j < nm implies #[trigger] p[8 + j] == m[j].dictionary_index && p[8 + nm + j] == m[j].num_blocks by {
        assert(p.subrange(8, 8 + nm)[j] == p[8 + j]);
        assert(p.subrange(8 + nm, 8 + 2 * nm)[j] == p[8 + nm + j]);
    }
    assert forall|k: int| 0 <= k < nd implies #[trigger] read_u32_le(p, sizes_pos + 4 * k) == dicts[k].len() as u32 by {
        lemma_dict_size_bytes_at(dicts, k);
        assert(p.subrange(sizes_pos + 4 * k, sizes_pos + 4 * k + 4) =~= sb.subrange(4 * k, 4 * k + 4));
        lemma_read_u32_where(p, sizes_pos + 4 * k, dicts[k].len() as u32);
    }
    if write_hashes {
        assert(pad_to(sized, 8).len() == hashes_pos);
        assert forall|k: int| 0 <= k < nd implies #[trigger] read_u64_le(p, hashes_pos + 8 * k) == xxh3_64(dicts[k]) by {
            lemma_dict_hash_bytes_at(dicts, k);
            assert(p.subrange(hashes_pos + 8 * k, hashes_pos + 8 * k + 8) =~= hb.subrange(8 * k, 8 * k + 8));
            lemma_read_u64_where(p, hashes_pos + 8 * k, xxh3_64(dicts[k]));
        }
        assert(p.subrange(hashes_pos + 8 * nd, p.len() as int) =~= spec_concat(dicts));
    } else {
        assert(p.subrange(sizes_pos + 4 * nd, p.len() as int) =~= spec_concat(dicts));
    }
}

/// Serializes the compressed dictionary payload and the header that precedes it;
/// see [`serialize_dictionary_payload_with_allocator`].
pub fn serialize_dictionary_payload<T: HasDictIndex>(
    dictionaries: &[&[u8]],
    blocks: &[T],
    write_hashes: bool,
) -> (r: Result<DictionarySerializeResult, DictionarySerializeError>)
    ensures
        spec_serialize_outcome(slices_view(dictionaries@), spec_block_dict_indices(blocks@), write_hashes, r),
{
    serialize_dictionary_payload_with_allocator(dictionaries, blocks, write_hashes)
}

/// The parsed form of the payload `p`, or the error met parsing it.
pub open spec fn spec_parsed(p: Seq<u8>, r: Result<DictionaryData, DictionaryReadError>) -> bool {
    match spec_parse_payload(p) {
        Ok((dicts, indices)) => r matches Ok(d) && d.spec_dictionaries() == dicts && d.spec_block_indices() == indices,
        Err(e) => r == Err::<DictionaryData, DictionaryReadError>(e),
    }
}

/// What deserializing the dictionary section `data` gives: the errors of extracting the
/// payload, else the parsed payload or the error met parsing it.
pub open spec fn spec_deserialize_outcome(data: Seq<u8>, r: Result<DictionaryData, DictionaryReadError>) -> bool {
    if data.len() < 8 {
        r == Err::<DictionaryData, DictionaryReadError>(DictionaryReadError::InsufficientData(
            InsufficientDataError { available: data.len() as u32, expected: 8 },
        ))
    } else {
        let w = spec_section_word(data);
        let decompressed_size = get_bits64(w, 0, 28);
        let compressed_size = get_bits64(w, 28, 27);
        let required = if compressed_size == 0 { decompressed_size } else { compressed_size };
        if data.len() - 8 < required {
            r == Err::<DictionaryData, DictionaryReadError>(DictionaryReadError::InsufficientData(
                InsufficientDataError { available: data.len() as u32, expected: (required + 8) as u32 },
            ))
        } else if decompressed_size < 8 {
            r == Err::<DictionaryData, DictionaryReadError>(DictionaryReadError::InsufficientPayloadSize)
        } else if compressed_size == 0 {
            spec_parsed(data.subrange(8, 8 + decompressed_size), r)
        } else {
            match zstd_decompressed(data.subrange(8, 8 + compressed_size), decompressed_size as usize) {
                Some(d) => if d.len() != decompressed_size {
                    r == Err::<DictionaryData, DictionaryReadError>(DictionaryReadError::DecompressedSizeMismatch(
                        decompressed_size as u32, d.len() as u32))
                } else {
                    spec_parsed(d, r)
                },
                None => r == Err::<DictionaryData, DictionaryReadError>(
                    DictionaryReadError::DecompressionError(NxDecompressionError::ZStandard),
                ),
            }
        }
    }
}

/// Deserializes the dictionary section: extracts its payload and parses it.
///
/// `dictionary_data` starts at the section header and may be longer than the section.
pub fn deserialize_dictionary_data(dictionary_data: &[u8]) -> (r: Result<DictionaryData, DictionaryReadError>)
    ensures
        spec_deserialize_outcome(dictionary_data@, r),
{
    deserialize_dictionary_data_with_allocator(dictionary_data)
}

/// Deserializes the dictionary section; see [`deserialize_dictionary_data`].
pub fn deserialize_dictionary_data_with_allocator(dictionary_data: &[u8]) -> (r: Result<DictionaryData, DictionaryReadError>)
    ensures
        spec_deserialize_outcome(dictionary_data@, r),
{
    let extracted = match extract_payload_with_allocator(dictionary_data) {
        Ok(x) => x,
        Err(e) => {
            return Err(e);
        },
    };
    parse_payload_with_allocator(&extracted)
}

/// What serializing the whole dictionary section gives: the input errors, else for an
/// uncompressed section its header (with a compressed size of zero) followed by the
/// payload, and for a compressed section the payload compressed at
/// [`DEFAULT_COMPRESSION_LEVEL`]: the error of the compressor, the error for a compressed
/// payload over its maximum size, or the header followed by the frame.
pub open spec fn spec_serialize_data_outcome(
    dicts: Seq<Seq<u8>>,
    indices: Seq<u8>,
    write_hashes: bool,
    compress: bool,
    r: Result<Vec<u8>, DictionarySerializeError>,
) -> bool {
    if dicts.len() > MAX_DICTIONARIES {
        r == Err::<Vec<u8>, DictionarySerializeError>(DictionarySerializeError::TooManyDictionaries)
    } else if indices.len() == 0 {
        r == Err::<Vec<u8>, DictionarySerializeError>(DictionarySerializeError::NoBlocks)
    } else if indices.len() > MAX_BLOCK_COUNT {
        r == Err::<Vec<u8>, DictionarySerializeError>(DictionarySerializeError::TooManyBlocks)
    } else {
        let m = spec_dictionary_mappings(indices);
        let payload = spec_payload_bytes(dicts, m, spec_last_dict_blocks(m), write_hashes);
        if payload.len() > MAX_DECOMPRESSED_SIZE {
            r == Err::<Vec<u8>, DictionarySerializeError>(DictionarySerializeError::DecompressedSizeTooLarge)
        } else if !compress {
            r matches Ok(v) && v@ == le_bytes64(spec_dictionaries_header_word(0, 0, 0, payload.len() as u32)) + payload
        } else {
            match zstd_compressed(DEFAULT_COMPRESSION_LEVEL, payload) {
                None => r == Err::<Vec<u8>, DictionarySerializeError>(
                    DictionarySerializeError::CompressionError(NxCompressionError::ZStandard),
                ),
                Some(c) => if c.len() > MAX_COMPRESSED_SIZE {
                    r == Err::<Vec<u8>, DictionarySerializeError>(DictionarySerializeError::CompressedSizeTooLarge)
                } else {
                    &&& r matches Ok(v)
                    &&& v@ == le_bytes64(spec_dictionaries_header_word(0, 0, c.len() as u32, payload.len() as u32)) + c
                    &&& spec_frame_of(c, payload)
                },
            }
        }
    }
}

/// Serializes the whole dictionary section (header and payload), compressing the payload
/// when `compress` is set and storing it as it is otherwise.
pub fn serialize_dictionary_data<T: HasDictIndex>(
    dictionaries: &[&[u8]],
    blocks: &[T],
    write_hashes: bool,
    compress: bool,
) -> (r: Result<Vec<u8>, DictionarySerializeError>)
    ensures
        spec_serialize_data_outcome(slices_view(dictionaries@), spec_block_dict_indices(blocks@), write_hashes, compress, r),
{
    if compress {
        let result = match serialize_dictionary_payload(dictionaries, blocks, write_hashes) {
            Ok(x) => x,
            Err(e) => {
                return Err(e);
            },
        };
        let mut data: Vec<u8> = Vec::new();
        push_u64_le(&mut data, result.dict_header.0);
        append_bytes(&mut data, result.payload.as_slice());
        proof {
            assert(data@.skip(8) =~= result.payload@);
        }
        Ok(data)
    } else {
        let payload = match prepare_payload(dictionaries, blocks, write_hashes) {
            Ok(p) => p,
            Err(e) => {
                return Err(e);
            },
        };
        let header = DictionariesHeader::new(0, 0, 0, payload.len() as u32);
        let mut data: Vec<u8> = Vec::new();
        push_u64_le(&mut data, header.0);
        append_bytes(&mut data, payload.as_slice());
        Ok(data)
    }
}

} // verus!
