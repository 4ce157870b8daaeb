use crate::api::traits::has_relative_path::HasRelativePath;
use crate::headers::parser::path_order::{
    bytes_equal, paths_sorted, relative_paths, sort_by_relative_path,
};
use crate::headers::parser::string_pool_common::{
    StringPoolFormat, StringPoolPackError, StringPoolUnpackError,
};
use crate::headers::raw::native_toc_header::NativeTocHeader;
use crate::utilities::compression::zstd::{
    GetDecompressedSizeError, compress, decompress, get_decompressed_size, max_alloc_for_compress_size,
    spec_compress_bound, spec_decompressed_size, spec_frame_of, zstd_compressed, zstd_decompressed,
};
use crate::utilities::compression::{NxCompressionError, NxDecompressionError};
use crate::utilities::search::find_byte;
use vstd::prelude::*;
use vstd::slice::{slice_subrange, slice_to_vec};
use vstd::string::StringSliceAdditionalSpecFns;

verus! {

/// The compression level used for the string pool. Levels beyond this one bring no
/// space savings in practice, due to the nature of the data.
pub const DEFAULT_COMPRESSION_LEVEL: i32 = 16;

/// Largest size of a string pool, compressed or not.
pub open spec fn spec_max_pool_size() -> int {
    NativeTocHeader::MAX_STRING_POOL_SIZE as int
}

/// The V0 pool of `paths`: each path followed by a zero byte.
pub open spec fn spec_v0_pool(paths: Seq<Seq<u8>>) -> Seq<u8>
    decreases paths.len(),
{
    if paths.len() == 0 {
        Seq::empty()
    } else {
        spec_v0_pool(paths.drop_last()) + paths.last().push(0u8)
    }
}

/// All `paths` one after the other.
pub open spec fn spec_concat(paths: Seq<Seq<u8>>) -> Seq<u8>
    decreases paths.len(),
{
    if paths.len() == 0 {
        Seq::empty()
    } else {
        spec_concat(paths.drop_last()) + paths.last()
    }
}

/// The length of each path, as a byte.
pub open spec fn spec_path_lengths(paths: Seq<Seq<u8>>) -> Seq<u8> {
    Seq::new(paths.len(), |i: int| paths[i].len() as u8)
}

/// The length prefixed pool of `paths`: their lengths, then the paths themselves.
pub open spec fn spec_vprefix_pool(paths: Seq<Seq<u8>>) -> Seq<u8> {
    spec_path_lengths(paths) + spec_concat(paths)
}

/// The uncompressed pool of `paths` in the given format.
pub open spec fn spec_pool_bytes(format: StringPoolFormat, paths: Seq<Seq<u8>>) -> Seq<u8> {
    match format {
        StringPoolFormat::V0 => spec_v0_pool(paths),
        StringPoolFormat::VPrefix => spec_vprefix_pool(paths),
    }
}

/// Some path is longer than a length byte can tell.
pub open spec fn spec_has_long_path(paths: Seq<Seq<u8>>) -> bool {
    exists|i: int| 0 <= i < paths.len() && #[trigger] paths[i].len() > 255
}

/// What packing `paths` in `format` gives: the error for a path too long for the format,
/// the error for a pool whose compressed form could exceed the maximum size, else the pool
/// compressed at [`DEFAULT_COMPRESSION_LEVEL`], or the error of the compressor.
pub open spec fn spec_pack_outcome(
    format: StringPoolFormat,
    paths: Seq<Seq<u8>>,
    r: Result<Vec<u8>, StringPoolPackError>,
) -> bool {
    let pool = spec_pool_bytes(format, paths);
    if format == StringPoolFormat::VPrefix && spec_has_long_path(paths) {
        r == Err::<Vec<u8>, StringPoolPackError>(StringPoolPackError::FilePathTooLong)
    } else if spec_compress_bound(pool.len() as int) > spec_max_pool_size() {
        r == Err::<Vec<u8>, StringPoolPackError>(StringPoolPackError::PoolTooLarge)
    } else {
        spec_compressed_pool_outcome(pool, r)
    }
}

/// What compressing the complete `pool` gives: its frame at [`DEFAULT_COMPRESSION_LEVEL`],
/// or the error of the compressor.
pub open spec fn spec_compressed_pool_outcome(pool: Seq<u8>, r: Result<Vec<u8>, StringPoolPackError>) -> bool {
    match zstd_compressed(DEFAULT_COMPRESSION_LEVEL, pool) {
        Some(c) => r matches Ok(v) && v@ == c && spec_frame_of(c, pool),
        None => r == Err::<Vec<u8>, StringPoolPackError>(
            StringPoolPackError::FailedToCompress(NxCompressionError::ZStandard),
        ),
    }
}

/// Every path is valid UTF-8.
pub open spec fn all_utf8(paths: Seq<Seq<u8>>) -> bool {
    forall|i: int| 0 <= i < paths.len() ==> vstd::utf8::valid_utf8(#[trigger] paths[i])
}

/// Appending a path to the list appends it and its terminator to the V0 pool.
proof fn lemma_v0_pool_push(paths: Seq<Seq<u8>>, p: Seq<u8>)
    ensures
        spec_v0_pool(paths.push(p)) == spec_v0_pool(paths) + p.push(0u8),
{
    assert(paths.push(p).drop_last() =~= paths);
}

/// Appending a path to the list appends it to the concatenation.
proof fn lemma_concat_push(paths: Seq<Seq<u8>>, p: Seq<u8>)
    ensures
        spec_concat(paths.push(p)) == spec_concat(paths) + p,
{
    assert(paths.push(p).drop_last() =~= paths);
}

/// A pool never gets shorter when paths are added.
proof fn lemma_v0_pool_len_monotone(paths: Seq<Seq<u8>>, i: int)
    requires
        0 <= i <= paths.len(),
    ensures
        spec_v0_pool(paths.take(i)).len() <= spec_v0_pool(paths).len(),
    decreases paths.len() - i,
{
    if i < paths.len() {
        lemma_v0_pool_len_monotone(paths, i + 1);
        assert(paths.take(i + 1) =~= paths.take(i).push(paths[i]));
        lemma_v0_pool_push(paths.take(i), paths[i]);
    } else {
        assert(paths.take(i) =~= paths);
    }
}

/// A concatenation never gets shorter when paths are added.
proof fn lemma_concat_len_monotone(paths: Seq<Seq<u8>>, i: int)
    requires
        0 <= i <= paths.len(),
    ensures
        spec_concat(paths.take(i)).len() <= spec_concat(paths).len(),
    decreases paths.len() - i,
{
    if i < paths.len() {
        lemma_concat_len_monotone(paths, i + 1);
        assert(paths.take(i + 1) =~= paths.take(i).push(paths[i]));
        lemma_concat_push(paths.take(i), paths[i]);
    } else {
        assert(paths.take(i) =~= paths);
    }
}

/// Appends `src` to `dst`.
pub(crate) fn append_bytes(dst: &mut Vec<u8>, src: &[u8])
    ensures
        final(dst)@ == old(dst)@ + src@,
{
    let mut i: usize = 0;
    while i < src.len()
        invariant
            i <= src@.len(),
            dst@ == old(dst)@ + src@.take(i as int),
        decreases src@.len() - i,
    {
        dst.push(src[i]);
        proof {
            assert(src@.take(i + 1) =~= src@.take(i as int).push(src@[i as int]));
        }
        i = i + 1;
    }
    proof {
        assert(src@.take(i as int) =~= src@);
    }
}

/// Compresses a complete pool, unless its compressed form could exceed the maximum size.
fn compress_pool(pool: &Vec<u8>) -> (r: Result<Vec<u8>, StringPoolPackError>)
    requires
        pool@.len() <= spec_max_pool_size(),
    ensures
        spec_compress_bound(pool@.len() as int) > spec_max_pool_size() ==> r == Err::<Vec<u8>, StringPoolPackError>(StringPoolPackError::PoolTooLarge),
        spec_compress_bound(pool@.len() as int) <= spec_max_pool_size() ==> spec_compressed_pool_outcome(pool@, r),
{
    let bound = max_alloc_for_compress_size(pool.len());
    if bound > NativeTocHeader::MAX_STRING_POOL_SIZE {
        return Err(StringPoolPackError::PoolTooLarge);
    }
    match compress(DEFAULT_COMPRESSION_LEVEL, pool.as_slice()) {
        Ok(c) => Ok(c),
        Err(e) => Err(StringPoolPackError::FailedToCompress(e)),
    }
}

/// The position of the first zero byte of `d`, if it holds one.
pub open spec fn spec_first_zero(d: Seq<u8>) -> Option<nat>
    decreases d.len(),
{
    if d.len() == 0 {
        None
    } else if d[0] == 0 {
        Some(0)
    } else {
        match spec_first_zero(d.drop_first()) {
            Some(k) => Some(k + 1),
            None => None,
        }
    }
}

/// `ps` followed by the paths of `rest`, when there are such.
pub open spec fn prepend_paths(ps: Seq<Seq<u8>>, rest: Option<Seq<Seq<u8>>>) -> Option<Seq<Seq<u8>>> {
    match rest {
        Some(r) => Some(ps + r),
        None => None,
    }
}

/// The first `n` zero terminated paths at the start of `d`, if it holds that many.
pub open spec fn spec_split_v0(d: Seq<u8>, n: nat) -> Option<Seq<Seq<u8>>>
    decreases n,
{
    if n == 0 {
        Some(Seq::empty())
    } else {
        match spec_first_zero(d) {
            None => None,
            Some(k) => prepend_paths(seq![d.take(k as int)], spec_split_v0(d.skip(k + 1int), (n - 1) as nat)),
        }
    }
}

/// The paths at the start of `body` with the lengths `lens`, if `body` is long enough.
pub open spec fn spec_take_paths(body: Seq<u8>, lens: Seq<u8>) -> Option<Seq<Seq<u8>>>
    decreases lens.len(),
{
    if lens.len() == 0 {
        Some(Seq::empty())
    } else if lens[0] > body.len() {
        None
    } else {
        prepend_paths(seq![body.take(lens[0] as int)], spec_take_paths(body.skip(lens[0] as int), lens.drop_first()))
    }
}

/// The `n` paths of a length prefixed pool `d`, if it holds them.
pub open spec fn spec_split_vprefix(d: Seq<u8>, n: nat) -> Option<Seq<Seq<u8>>> {
    if n > d.len() {
        None
    } else {
        spec_take_paths(d.skip(n as int), d.take(n as int))
    }
}

/// The `n` paths of the uncompressed pool `d` in the given format, when it holds that many
/// and each is valid UTF-8.
pub open spec fn spec_parse_pool(format: StringPoolFormat, d: Seq<u8>, n: nat) -> Option<Seq<Seq<u8>>> {
    let split = match format {
        StringPoolFormat::V0 => spec_split_v0(d, n),
        StringPoolFormat::VPrefix => spec_split_vprefix(d, n),
    };
    match split {
        Some(p) => if all_utf8(p) {
            Some(p)
        } else {
            None
        },
        None => None,
    }
}

/// What unpacking `source` as a pool of `n` paths in `format` gives.
///
/// The frame's declared size decides first: an unreadable or undeclared size is an error,
/// a declared size of zero gives the empty pool, and one above the maximum pool size is an
/// error. Else the frame is decompressed into a buffer of the declared size: the
/// decompressor's error, or the pool's paths parsed from what it gives.
pub open spec fn spec_unpack_outcome(
    format: StringPoolFormat,
    source: Seq<u8>,
    n: usize,
    r: Result<StringPool, StringPoolUnpackError>,
) -> bool {
    match spec_decompressed_size(source) {
        Err(e) => r == Err::<StringPool, StringPoolUnpackError>(StringPoolUnpackError::FailedToGetDecompressedSize(e)),
        Ok(size) => if size == 0 {
            r matches Ok(pool) && pool@ == Seq::<Seq<u8>>::empty()
        } else if size > spec_max_pool_size() {
            r == Err::<StringPool, StringPoolUnpackError>(StringPoolUnpackError::ExceededMaxSize(spec_max_pool_size() as u32))
        } else {
            match zstd_decompressed(source, size) {
                Some(d) => match spec_parse_pool(format, d, n as nat) {
                    Some(paths) => r matches Ok(pool) && pool@ == paths,
                    None => r == Err::<StringPool, StringPoolUnpackError>(StringPoolUnpackError::InvalidPoolData),
                },
                None => r == Err::<StringPool, StringPoolUnpackError>(
                    StringPoolUnpackError::FailedToDecompress(NxDecompressionError::ZStandard),
                ),
            }
        }
    }
}

/// The bytes of each vector.
pub open spec fn vecs_view(v: Seq<Vec<u8>>) -> Seq<Seq<u8>> {
    Seq::new(v.len(), |i: int| v[i]@)
}

/// Nothing put before the paths leaves them as they are.
proof fn lemma_prepend_empty(x: Option<Seq<Seq<u8>>>)
    ensures
        prepend_paths(Seq::empty(), x) == x,
{
    match x {
        Some(r) => {
            assert(Seq::<Seq<u8>>::empty() + r =~= r);
        },
        None => {},
    }
}

/// What `memchr` finds is the first zero.
proof fn lemma_first_zero_at(d: Seq<u8>, z: int)
    requires
        0 <= z < d.len(),
        d[z] == 0,
        forall|j: int| 0 <= j < z ==> d[j] != 0,
    ensures
        spec_first_zero(d) == Some(z as nat),
    decreases z,
{
    if z > 0 {
        lemma_first_zero_at(d.drop_first(), z - 1);
    }
}

/// A sequence without zeros has no first zero.
proof fn lemma_first_zero_none(d: Seq<u8>)
    requires
        forall|j: int| 0 <= j < d.len() ==> d[j] != 0,
    ensures
        spec_first_zero(d) == None::<nat>,
    decreases d.len(),
{
    if d.len() > 0 {
        lemma_first_zero_none(d.drop_first());
    }
}

/// Calls `core::str::from_utf8`, which its documentation says returns the slice as a `str`
/// when it is valid UTF-8, and an error otherwise.
#[verifier::external_body]
fn str_from_utf8(bytes: &[u8]) -> (r: Option<&str>)
    ensures
        r is Some <==> vstd::utf8::valid_utf8(bytes@),
        r matches Some(s) ==> s.spec_bytes() == bytes@,
{
    core::str::from_utf8(bytes).ok()
}

/// Splits a decompressed V0 pool into its first `n` paths.
fn split_v0(d: &[u8], n: usize) -> (r: Option<Vec<Vec<u8>>>)
    ensures
        match spec_parse_pool(StringPoolFormat::V0, d@, n as nat) {
            Some(p) => r matches Some(v) && vecs_view(v@) == p,
            None => r is None,
        },
{
    let mut paths: Vec<Vec<u8>> = Vec::new();
    let mut start: usize = 0;
    let mut k: usize = 0;
    proof {
        assert(d@.skip(0) =~= d@);
        lemma_prepend_empty(spec_split_v0(d@, n as nat));
        assert(vecs_view(paths@) =~= Seq::<Seq<u8>>::empty());
    }
    while k < n
        invariant
            start <= d@.len(),
            k <= n,
            paths@.len() == k,
            all_utf8(vecs_view(paths@)),
            spec_split_v0(d@, n as nat) == prepend_paths(vecs_view(paths@), spec_split_v0(d@.skip(start as int), (n - k) as nat)),
        decreases n - k,
    {
        let rest = slice_subrange(d, start, d.len());
        match find_byte(0u8, rest) {
            None => {
                proof {
                    lemma_first_zero_none(rest@);
                    assert(rest@ =~= d@.skip(start as int));
                }
                return None;
            },
            Some(z) => {
                proof {
                    lemma_first_zero_at(rest@, z as int);
                    assert(rest@ =~= d@.skip(start as int));
                    assert(d@.skip(start as int).skip(z + 1) =~= d@.skip(start + z + 1));
                }
                let p = slice_subrange(d, start, start + z);
                proof {
                    assert(p@ =~= d@.skip(start as int).take(z as int));
                }
                if str_from_utf8(p).is_none() {
                    proof {
                        match spec_split_v0(d@, n as nat) {
                            Some(all) => {
                                let r2 = spec_split_v0(d@.skip(start + z + 1), (n - k - 1) as nat);
                                assert(r2 is Some);
                                assert(all == vecs_view(paths@) + (seq![p@] + r2.unwrap()));
                                assert(all[k as int] == p@);
                            },
                            None => {},
                        }
                    }
                    return None;
                }
                let ghost old_paths = vecs_view(paths@);
                paths.push(slice_to_vec(p));
                proof {
                    assert(vecs_view(paths@) =~= old_paths.push(p@));
                    let r2 = spec_split_v0(d@.skip(start + z + 1), (n - k - 1) as nat);
                    match r2 {
                        Some(rr) => {
                            assert(old_paths + (seq![p@] + rr) =~= old_paths.push(p@) + rr);
                        },
                        None => {},
                    }
                }
                start = start + z + 1;
                k = k + 1;
            },
        }
    }
    proof {
        assert(vecs_view(paths@) + Seq::<Seq<u8>>::empty() =~= vecs_view(paths@));
    }
    Some(paths)
}

/// Splits a decompressed length prefixed pool into its `n` paths.
fn split_vprefix(d: &[u8], n: usize) -> (r: Option<Vec<Vec<u8>>>)
    ensures
        match spec_parse_pool(StringPoolFormat::VPrefix, d@, n as nat) {
            Some(p) => r matches Some(v) && vecs_view(v@) == p,
            None => r is None,
        },
{
    if n > d.len() {
        return None;
    }
    let lens = slice_subrange(d, 0, n);
    let body = slice_subrange(d, n, d.len());
    proof {
        assert(lens@ =~= d@.take(n as int));
        assert(body@ =~= d@.skip(n as int));
    }
    let mut paths: Vec<Vec<u8>> = Vec::new();
    let mut pos: usize = 0;
    let mut k: usize = 0;
    proof {
        assert(body@.skip(0) =~= body@);
        assert(lens@.skip(0) =~= lens@);
        lemma_prepend_empty(spec_take_paths(body@, lens@));
        assert(vecs_view(paths@) =~= Seq::<Seq<u8>>::empty());
    }
    while k < n
        invariant
            lens@ == d@.take(n as int),
            body@ == d@.skip(n as int),
            n <= d@.len(),
            lens@.len() == n,
            pos <= body@.len(),
            k <= n,
            paths@.len() == k,
            all_utf8(vecs_view(paths@)),
            spec_take_paths(body@, lens@) == prepend_paths(vecs_view(paths@), spec_take_paths(body@.skip(pos as int), lens@.skip(k as int))),
        decreases n - k,
    {
        let l = lens[k] as usize;
        proof {
            assert(lens@.skip(k as int)[0] == lens@[k as int]);
            assert(lens@.skip(k as int).drop_first() =~= lens@.skip(k + 1));
        }
        if l > body.len() - pos {
            return None;
        }
        let p = slice_subrange(body, pos, pos + l);
        proof {
            assert(p@ =~= body@.skip(pos as int).take(l as int));
            assert(body@.skip(pos as int).skip(l as int) =~= body@.skip(pos + l));
        }
        if str_from_utf8(p).is_none() {
            proof {
                match spec_take_paths(body@, lens@) {
                    Some(all) => {
                        let r2 = spec_take_paths(body@.skip(pos + l), lens@.skip(k + 1));
                        assert(r2 is Some);
                        assert(all == vecs_view(paths@) + (seq![p@] + r2.unwrap()));
                        assert(all[k as int] == p@);
                    },
                    None => {},
                }
            }
            return None;
        }
        let ghost old_paths = vecs_view(paths@);
        paths.push(slice_to_vec(p));
        proof {
            assert(vecs_view(paths@) =~= old_paths.push(p@));
            let r2 = spec_take_paths(body@.skip(pos + l), lens@.skip(k + 1));
            match r2 {
                Some(rr) => {
                    assert(old_paths + (seq![p@] + rr) =~= old_paths.push(p@) + rr);
                },
                None => {},
            }
        }
        pos = pos + l;
        k = k + 1;
    }
    proof {
        assert(lens@.skip(k as int) =~= Seq::<u8>::empty());
        assert(vecs_view(paths@) + Seq::<Seq<u8>>::empty() =~= vecs_view(paths@));
    }
    Some(paths)
}

/// Unpacks a pool of `file_count` paths in `format` from its compressed form.
fn unpack_format(source: &[u8], file_count: usize, format: StringPoolFormat) -> (r: Result<StringPool, StringPoolUnpackError>)
    ensures
        spec_unpack_outcome(format, source@, file_count, r),
{
    let size = match get_decompressed_size(source) {
        Ok(s) => s,
        Err(e) => {
            return Err(StringPoolUnpackError::FailedToGetDecompressedSize(e));
        },
    };
    if size == 0 {
        let pool = StringPool { paths: Vec::new() };
        proof {
            assert(pool@ =~= Seq::<Seq<u8>>::empty());
        }
        return Ok(pool);
    }
    if size > NativeTocHeader::MAX_STRING_POOL_SIZE {
        return Err(StringPoolUnpackError::ExceededMaxSize(NativeTocHeader::MAX_STRING_POOL_SIZE as u32));
    }
    let d = match decompress(source, size) {
        Ok(d) => d,
        Err(e) => {
            return Err(StringPoolUnpackError::FailedToDecompress(e));
        },
    };
    let split = match format {
        StringPoolFormat::V0 => split_v0(d.as_slice(), file_count),
        StringPoolFormat::VPrefix => split_vprefix(d.as_slice(), file_count),
    };
    match split {
        Some(paths) => {
            proof {
                assert forall|i: int| 0 <= i < paths@.len() implies vstd::utf8::valid_utf8(#[trigger] paths@[i]@) by {
                    assert(vecs_view(paths@)[i] == paths@[i]@);
                }
            }
            let pool = StringPool { paths };
            proof {
                assert(pool@ =~= vecs_view(paths@));
            }
            Ok(pool)
        },
        None => Err(StringPoolUnpackError::InvalidPoolData),
    }
}

/// The V0 pool starts with the first path and its terminator.
proof fn lemma_v0_pool_front(paths: Seq<Seq<u8>>)
    requires
        paths.len() > 0,
    ensures
        spec_v0_pool(paths) == paths[0].push(0u8) + spec_v0_pool(paths.drop_first()),
    decreases paths.len(),
{
    if paths.len() == 1 {
        assert(paths.drop_first() =~= Seq::<Seq<u8>>::empty());
        assert(paths.drop_last() =~= Seq::<Seq<u8>>::empty());
        assert(spec_v0_pool(paths) =~= paths[0].push(0u8) + spec_v0_pool(paths.drop_first()));
    } else {
        let dl = paths.drop_last();
        lemma_v0_pool_front(dl);
        assert(paths.drop_first().drop_last() =~= dl.drop_first());
        assert(paths.drop_first().last() == paths.last());
        assert(spec_v0_pool(paths) =~= paths[0].push(0u8) + spec_v0_pool(paths.drop_first()));
    }
}

/// The concatenation starts with the first path.
proof fn lemma_concat_front(paths: Seq<Seq<u8>>)
    requires
        paths.len() > 0,
    ensures
        spec_concat(paths) == paths[0] + spec_concat(paths.drop_first()),
    decreases paths.len(),
{
    if paths.len() == 1 {
        assert(paths.drop_first() =~= Seq::<Seq<u8>>::empty());
        assert(paths.drop_last() =~= Seq::<Seq<u8>>::empty());
        assert(spec_concat(paths) =~= paths[0] + spec_concat(paths.drop_first()));
    } else {
        let dl = paths.drop_last();
        lemma_concat_front(dl);
        assert(paths.drop_first().drop_last() =~= dl.drop_first());
        assert(paths.drop_first().last() == paths.last());
        assert(spec_concat(paths) =~= paths[0] + spec_concat(paths.drop_first()));
    }
}

/// Each path adds at least its terminator to the V0 pool.
proof fn lemma_v0_pool_len(paths: Seq<Seq<u8>>)
    ensures
        spec_v0_pool(paths).len() >= paths.len(),
    decreases paths.len(),
{
    if paths.len() > 0 {
        lemma_v0_pool_len(paths.drop_last());
    }
}

/// No path holds a zero byte.
pub open spec fn no_zero_bytes(paths: Seq<Seq<u8>>) -> bool {
    forall|i: int, j: int| 0 <= i < paths.len() && 0 <= j < paths[i].len() ==> #[trigger] paths[i][j] != 0
}

/// Splitting a V0 pool gives back its paths, when no path holds a zero byte.
proof fn lemma_split_v0_of_pool(paths: Seq<Seq<u8>>)
    requires
        no_zero_bytes(paths),
    ensures
        spec_split_v0(spec_v0_pool(paths), paths.len()) == Some(paths),
    decreases paths.len(),
{
    if paths.len() > 0 {
        let p0 = paths[0];
        let rest = paths.drop_first();
        let pool = spec_v0_pool(paths);
        lemma_v0_pool_front(paths);
        assert(no_zero_bytes(rest)) by {
            assert forall|i: int, j: int| 0 <= i < rest.len() && 0 <= j < rest[i].len() implies #[trigger] rest[i][j] != 0 by {
                assert(rest[i] == paths[i + 1]);
                assert(paths[i + 1][j] != 0);
            }
        }
        lemma_split_v0_of_pool(rest);
        assert forall|j: int| 0 <= j < p0.len() implies pool[j] != 0 by {
            assert(pool[j] == p0[j]);
            assert(paths[0][j] != 0);
        }
        lemma_first_zero_at(pool, p0.len() as int);
        assert(pool.take(p0.len() as int) =~= p0);
        assert(pool.skip(p0.len() + 1int) =~= spec_v0_pool(rest));
        assert(seq![p0] + rest =~= paths);
    }
}

/// Taking the paths of a concatenation by their lengths gives them back, when each is at
/// most 255 bytes long.
proof fn lemma_take_paths_of_concat(paths: Seq<Seq<u8>>)
    requires
        !spec_has_long_path(paths),
    ensures
        spec_take_paths(spec_concat(paths), spec_path_lengths(paths)) == Some(paths),
    decreases paths.len(),
{
    if paths.len() > 0 {
        let p0 = paths[0];
        let rest = paths.drop_first();
        let body = spec_concat(paths);
        let lens = spec_path_lengths(paths);
        lemma_concat_front(paths);
        assert(!spec_has_long_path(rest)) by {
            if spec_has_long_path(rest) {
                let i = choose|i: int| 0 <= i < rest.len() && #[trigger] rest[i].len() > 255;
                assert(paths[i + 1].len() > 255);
            }
        }
        lemma_take_paths_of_concat(rest);
        assert(paths[0].len() <= 255);
        assert(lens[0] as int == p0.len());
        assert(lens.drop_first() =~= spec_path_lengths(rest));
        assert(body.take(p0.len() as int) =~= p0);
        assert(body.skip(p0.len() as int) =~= spec_concat(rest));
        assert(seq![p0] + rest =~= paths);
    }
}

/// Parsing the uncompressed pool of valid paths gives the paths back.
proof fn lemma_parse_pool_bytes(format: StringPoolFormat, paths: Seq<Seq<u8>>)
    requires
        all_utf8(paths),
        format == StringPoolFormat::V0 ==> no_zero_bytes(paths),
        format == StringPoolFormat::VPrefix ==> !spec_has_long_path(paths),
    ensures
        spec_parse_pool(format, spec_pool_bytes(format, paths), paths.len()) == Some(paths),
        spec_pool_bytes(format, paths).len() >= paths.len(),
{
    match format {
        StringPoolFormat::V0 => {
            lemma_split_v0_of_pool(paths);
            lemma_v0_pool_len(paths);
        },
        StringPoolFormat::VPrefix => {
            let pool = spec_vprefix_pool(paths);
            lemma_take_paths_of_concat(paths);
            assert(pool.take(paths.len() as int) =~= spec_path_lengths(paths));
            assert(pool.skip(paths.len() as int) =~= spec_concat(paths));
        },
    }
}

/// Unpacking what packing produced gives back the packed paths, in the same order.
///
/// This holds for UTF-8 paths, and in the V0 format for paths without zero bytes (which
/// would read as terminators).
pub proof fn lemma_string_pool_round_trip(
    format: StringPoolFormat,
    paths: Seq<Seq<u8>>,
    packed: Vec<u8>,
    r: Result<StringPool, StringPoolUnpackError>,
)
    requires
        all_utf8(paths),
        format == StringPoolFormat::V0 ==> no_zero_bytes(paths),
        paths.len() <= usize::MAX,
        spec_pack_outcome(format, paths, Ok(packed)),
        spec_unpack_outcome(format, packed@, paths.len() as usize, r),
    ensures
        r matches Ok(pool) && pool@ == paths,
{
    let pool = spec_pool_bytes(format, paths);
    lemma_parse_pool_bytes(format, paths);
    assert(spec_decompressed_size(packed@) == Ok::<usize, GetDecompressedSizeError>(pool.len() as usize));
    if pool.len() == 0 {
        assert(paths =~= Seq::<Seq<u8>>::empty());
    }
}

/// The string pool: the list of file paths in an archive, in the order of their indices.
///
/// Each path is held as its UTF-8 bytes.
pub struct StringPool {
    /// The paths, each as its bytes.
    paths: Vec<Vec<u8>>,
}

impl View for StringPool {
    type V = Seq<Seq<u8>>;

    closed spec fn view(&self) -> Seq<Seq<u8>> {
        Seq::new(self.paths@.len(), |i: int| self.paths@[i]@)
    }
}

impl StringPool {
    /// Every path is valid UTF-8.
    #[verifier::type_invariant]
    closed spec fn wf(self) -> bool {
        forall|i: int| 0 <= i < self.paths@.len() ==> vstd::utf8::valid_utf8(#[trigger] self.paths@[i]@)
    }

    /// Packs the paths of `items` into a string pool in the given format.
    ///
    /// The items are first sorted by their paths, in place; the pool lists the paths in
    /// that order.
    ///
    /// # Errors
    /// * `FilePathTooLong` when the format is length prefixed and a path is longer than 255 bytes.
    /// * `PoolTooLarge` when the compressed pool could exceed the maximum size.
    /// * `FailedToCompress` when the compressor fails.
    pub fn pack<T: HasRelativePath>(items: &mut [T], format: StringPoolFormat) -> (r: Result<Vec<u8>, StringPoolPackError>)
        ensures
            final(items)@.to_multiset() == old(items)@.to_multiset(),
            paths_sorted(final(items)@),
            spec_pack_outcome(format, relative_paths(final(items)@), r),
            r is Ok ==> all_utf8(relative_paths(final(items)@)),
    {
        match format {
            StringPoolFormat::V0 => Self::pack_v0_with_allocators(items),
            StringPoolFormat::VPrefix => Self::pack_vprefix_with_allocators(items),
        }
    }

    /// Packs the paths of `items` into a string pool in the V0 format; see [`StringPool::pack`].
    pub fn pack_v0<T: HasRelativePath>(items: &mut [T]) -> (r: Result<Vec<u8>, StringPoolPackError>)
        ensures
            final(items)@.to_multiset() == old(items)@.to_multiset(),
            paths_sorted(final(items)@),
            spec_pack_outcome(StringPoolFormat::V0, relative_paths(final(items)@), r),
            r is Ok ==> all_utf8(relative_paths(final(items)@)),
    {
        Self::pack_v0_with_allocators(items)
    }

    /// Packs the paths of `items` into a string pool in the given format; see [`StringPool::pack`].
    pub fn pack_with_allocators<T: HasRelativePath>(items: &mut [T], format: StringPoolFormat) -> (r: Result<Vec<u8>, StringPoolPackError>)
        ensures
            final(items)@.to_multiset() == old(items)@.to_multiset(),
            paths_sorted(final(items)@),
            spec_pack_outcome(format, relative_paths(final(items)@), r),
            r is Ok ==> all_utf8(relative_paths(final(items)@)),
    {
        Self::pack(items, format)
    }

    /// Unpacks a string pool of `file_count` paths in the given format from its compressed form.
    ///
    /// # Errors
    /// * `FailedToGetDecompressedSize` when the frame header is unreadable or declares no size.
    /// * `ExceededMaxSize` when the declared size exceeds the maximum size of a pool.
    /// * `FailedToDecompress` when the decompressor fails.
    /// * `InvalidPoolData` when the pool does not hold `file_count` UTF-8 paths.
    ///
    /// A frame that declares a size of zero gives the empty pool.
    pub fn unpack(source: &[u8], file_count: usize, format: StringPoolFormat) -> (r: Result<StringPool, StringPoolUnpackError>)
        ensures
            spec_unpack_outcome(format, source@, file_count, r),
    {
        unpack_format(source, file_count, format)
    }

    /// Unpacks a V0 string pool; see [`StringPool::unpack`].
    pub fn unpack_v0(source: &[u8], file_count: usize) -> (r: Result<StringPool, StringPoolUnpackError>)
        ensures
            spec_unpack_outcome(StringPoolFormat::V0, source@, file_count, r),
    {
        unpack_format(source, file_count, StringPoolFormat::V0)
    }

    /// Unpacks a string pool in the given format; see [`StringPool::unpack`].
    pub fn unpack_with_allocators(source: &[u8], file_count: usize, format: StringPoolFormat) -> (r: Result<StringPool, StringPoolUnpackError>)
        ensures
            spec_unpack_outcome(format, source@, file_count, r),
    {
        unpack_format(source, file_count, format)
    }

    /// Unpacks a V0 string pool; see [`StringPool::unpack`].
    pub fn unpack_v0_with_allocators(source: &[u8], file_count: usize) -> (r: Result<StringPool, StringPoolUnpackError>)
        ensures
            spec_unpack_outcome(StringPoolFormat::V0, source@, file_count, r),
    {
        unpack_format(source, file_count, StringPoolFormat::V0)
    }

    /// Unpacks a length prefixed string pool; see [`StringPool::unpack`].
    pub fn unpack_vprefix_with_allocators(source: &[u8], file_count: usize) -> (r: Result<StringPool, StringPoolUnpackError>)
        ensures
            spec_unpack_outcome(StringPoolFormat::VPrefix, source@, file_count, r),
    {
        unpack_format(source, file_count, StringPoolFormat::VPrefix)
    }

    /// Checks whether `path` is one of the pool's paths, comparing bytes exactly
    /// (case-sensitive).
    pub fn contains(&self, path: &str) -> (r: bool)
        ensures
            r == self@.contains(path.spec_bytes()),
    {
        let p = path.as_bytes();
        let mut i: usize = 0;
        while i < self.paths.len()
            invariant
                i <= self@.len(),
                self@.len() == self.paths@.len(),
                p@ == path.spec_bytes(),
                forall|j: int| 0 <= j < i ==> self@[j] != p@,
            decreases self@.len() - i,
        {
            if bytes_equal(self.paths[i].as_slice(), p) {
                proof {
                    assert(self@[i as int] == p@);
                }
                return true;
            }
            i = i + 1;
        }
        false
    }

    /// Returns the number of paths in the pool.
    pub fn len(&self) -> (r: usize)
        ensures
            r == self@.len(),
    {
        self.paths.len()
    }

    /// Returns whether the pool holds no path.
    pub fn is_empty(&self) -> (r: bool)
        ensures
            r == (self@.len() == 0),
    {
        self.paths.len() == 0
    }

    /// Returns the path at `index` without a bounds check on the caller's side: the index
    /// must be in bounds.
    pub fn get_unchecked(&self, index: usize) -> (r: &str)
        requires
            index < self@.len(),
        ensures
            r.spec_bytes() == self@[index as int],
    {
        proof {
            use_type_invariant(self);
        }
        let bytes = self.paths[index].as_slice();
        assert(bytes@ == self@[index as int]);
        match str_from_utf8(bytes) {
            Some(s) => s,
            None => {
                assert(false);
                ""
            },
        }
    }

    /// Returns the path at `index`, or `None` when the index is out of bounds.
    pub fn get(&self, index: usize) -> (r: Option<&str>)
        ensures
            index < self@.len() ==> (r matches Some(s) && s.spec_bytes() == self@[index as int]),
            index >= self@.len() ==> r is None,
    {
        if index >= self.paths.len() {
            return None;
        }
        Some(self.get_unchecked(index))
    }

    /// Returns the paths of the pool, in order.
    pub fn iter(&self) -> (r: Vec<&str>)
        ensures
            r@.len() == self@.len(),
            forall|i: int| 0 <= i < r@.len() ==> (#[trigger] r@[i]).spec_bytes() == self@[i],
    {
        let mut out: Vec<&str> = Vec::new();
        let mut i: usize = 0;
        while i < self.paths.len()
            invariant
                i <= self@.len(),
                self@.len() == self.paths@.len(),
                out@.len() == i,
                forall|j: int| 0 <= j < i ==> (#[trigger] out@[j]).spec_bytes() == self@[j],
            decreases self@.len() - i,
        {
            out.push(self.get_unchecked(i));
            i = i + 1;
        }
        out
    }

    /// Packs the paths of `items` in the V0 format.
    ///
    /// The items are first sorted by their paths, in place; the pool lists the paths in
    /// that order.
    ///
    /// # Errors
    /// * `PoolTooLarge` when the compressed pool could exceed the maximum size.
    /// * `FailedToCompress` when the compressor fails.
    pub fn pack_v0_with_allocators<T: HasRelativePath>(items: &mut [T]) -> (r: Result<Vec<u8>, StringPoolPackError>)
        ensures
            final(items)@.to_multiset() == old(items)@.to_multiset(),
            paths_sorted(final(items)@),
            spec_pack_outcome(StringPoolFormat::V0, relative_paths(final(items)@), r),
            r is Ok ==> all_utf8(relative_paths(final(items)@)),
    {
        sort_by_relative_path(items);
        let ghost sorted = items@;
        let ghost paths = relative_paths(items@);
        let mut pool: Vec<u8> = Vec::new();
        let mut i: usize = 0;
        while i < items.len()
            invariant
                items@ == sorted,
                sorted.to_multiset() == old(items)@.to_multiset(),
                paths_sorted(sorted),
                paths == relative_paths(items@),
                i <= items@.len(),
                pool@ == spec_v0_pool(paths.take(i as int)),
                pool@.len() <= spec_max_pool_size(),
                forall|j: int| 0 <= j < i ==> vstd::utf8::valid_utf8(#[trigger] paths[j]),
            decreases items@.len() - i,
        {
            let path = items[i].relative_path();
            let p = path.as_bytes();
            proof {
                vstd::utf8::encode_utf8_valid_utf8(path@);
                assert(paths[i as int] == p@);
                assert(paths.take(i + 1) =~= paths.take(i as int).push(p@));
                lemma_v0_pool_push(paths.take(i as int), p@);
            }
            if p.len() >= NativeTocHeader::MAX_STRING_POOL_SIZE - pool.len() {
                proof {
                    lemma_v0_pool_len_monotone(paths, i + 1);
                    assert(spec_compress_bound(spec_v0_pool(paths).len() as int) > spec_max_pool_size());
                }
                return Err(StringPoolPackError::PoolTooLarge);
            }
            append_bytes(&mut pool, p);
            pool.push(0u8);
            i = i + 1;
        }
        proof {
            assert(paths.take(i as int) =~= paths);
        }
        compress_pool(&pool)
    }

    /// Packs the paths of `items` in the length prefixed format.
    ///
    /// The items are first sorted by their paths, in place; the pool lists the paths in
    /// that order.
    ///
    /// # Errors
    /// * `FilePathTooLong` when a path is longer than 255 bytes.
    /// * `PoolTooLarge` when the compressed pool could exceed the maximum size.
    /// * `FailedToCompress` when the compressor fails.
    pub fn pack_vprefix_with_allocators<T: HasRelativePath>(items: &mut [T]) -> (r: Result<Vec<u8>, StringPoolPackError>)
        ensures
            final(items)@.to_multiset() == old(items)@.to_multiset(),
            paths_sorted(final(items)@),
            spec_pack_outcome(StringPoolFormat::VPrefix, relative_paths(final(items)@), r),
            r is Ok ==> all_utf8(relative_paths(final(items)@)),
    {
        sort_by_relative_path(items);
        let ghost sorted = items@;
        let ghost paths = relative_paths(items@);
        let mut lengths: Vec<u8> = Vec::new();
        let mut idx: usize = 0;
        while idx < items.len()
            invariant
                items@ == sorted,
                sorted.to_multiset() == old(items)@.to_multiset(),
                paths_sorted(sorted),
                paths == relative_paths(items@),
                idx <= items@.len(),
                lengths@ == spec_path_lengths(paths.take(idx as int)),
                forall|j: int| 0 <= j < idx ==> #[trigger] paths[j].len() <= 255,
            decreases items@.len() - idx,
        {
            let length = items[idx].relative_path().as_bytes().len();
            assert(paths[idx as int] == items@[idx as int].spec_relative_path());
            if length > 255 {
                assert(paths[idx as int].len() > 255);
                return Err(StringPoolPackError::FilePathTooLong);
            }
            lengths.push(length as u8);
            proof {
                assert(lengths@ =~= spec_path_lengths(paths.take(idx + 1)));
            }
            idx = idx + 1;
        }
        proof {
            assert(paths.take(idx as int) =~= paths);
            assert(!spec_has_long_path(paths));
        }
        if lengths.len() > NativeTocHeader::MAX_STRING_POOL_SIZE {
            return Err(StringPoolPackError::PoolTooLarge);
        }
        let mut pool = lengths;
        let ghost head = pool@;
        let mut i: usize = 0;
        while i < items.len()
            invariant
                items@ == sorted,
                sorted.to_multiset() == old(items)@.to_multiset(),
                paths_sorted(sorted),
                paths == relative_paths(items@),
                head == spec_path_lengths(paths),
                !spec_has_long_path(paths),
                i <= items@.len(),
                pool@ == head + spec_concat(paths.take(i as int)),
                pool@.len() <= spec_max_pool_size(),
                forall|j: int| 0 <= j < i ==> vstd::utf8::valid_utf8(#[trigger] paths[j]),
            decreases items@.len() - i,
        {
            let path = items[i].relative_path();
            let p = path.as_bytes();
            proof {
                vstd::utf8::encode_utf8_valid_utf8(path@);
                assert(paths[i as int] == p@);
                assert(paths.take(i + 1) =~= paths.take(i as int).push(p@));
                lemma_concat_push(paths.take(i as int), p@);
            }
            if p.len() > NativeTocHeader::MAX_STRING_POOL_SIZE - pool.len() {
                proof {
                    lemma_concat_len_monotone(paths, i + 1);
                    assert(spec_compress_bound(spec_vprefix_pool(paths).len() as int) > spec_max_pool_size());
                }
                return Err(StringPoolPackError::PoolTooLarge);
            }
            append_bytes(&mut pool, p);
            i = i + 1;
        }
        proof {
            assert(paths.take(i as int) =~= paths);
        }
        compress_pool(&pool)
    }
}

} // verus!
