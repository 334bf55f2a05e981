//! The base-call decoder: plain BCL, gzip BCL, and segmented CBCL
//! containers, each decoded from the container's bytes to base characters.

use vstd::prelude::*;
use std::io::Read;
use crate::errors::IngestError;
use crate::stacks::BclLocator;
use crate::strutil::{spec_ends_with, str_ends_with};

verus! {

/// The little-endian 16-bit value at `off`.
pub open spec fn spec_le16_at(data: Seq<u8>, off: int) -> int {
    data[off] + 256 * data[off + 1]
}

/// The little-endian 32-bit value at `off`.
pub open spec fn spec_le32_at(data: Seq<u8>, off: int) -> int {
    data[off] + 256 * data[off + 1] + 65536 * data[off + 2] + 16777216 * data[off + 3]
}

/// Read the little-endian 16-bit value at `off`.
fn read_le16_at(data: &Vec<u8>, off: usize) -> (r: u16)
    requires
        off + 2 <= data@.len(),
    ensures
        r == spec_le16_at(data@, off as int),
{
    let n = data.len();
    data[off] as u16 + 256 * (data[off + 1] as u16)
}

/// Read the little-endian 32-bit value at `off`.
fn read_le32_at(data: &Vec<u8>, off: usize) -> (r: u32)
    requires
        off + 4 <= data@.len(),
    ensures
        r == spec_le32_at(data@, off as int),
{
    let n = data.len();
    data[off] as u32 + 256 * (data[off + 1] as u32) + 65536 * (data[off + 2] as u32) + 16777216
        * (data[off + 3] as u32)
}

/// The base character of a two-bit code.
pub open spec fn spec_base_char(code: int) -> char {
    if code == 0 {
        'A'
    } else if code == 1 {
        'C'
    } else if code == 2 {
        'G'
    } else {
        'T'
    }
}

/// What one plain-BCL byte calls: a whole byte of zero is a no-call `N`;
/// otherwise its low two bits pick the base.
pub open spec fn spec_bcl_char(b: u8) -> char {
    if b == 0 {
        'N'
    } else {
        spec_base_char(b as int % 4)
    }
}

/// The cluster count actually read: a positive sampling bound clamps it.
pub open spec fn spec_bcl_take(n: int, sample: int) -> int {
    if sample > 0 && sample < n {
        sample
    } else {
        n
    }
}

/// Decode an uncompressed BCL payload: a little-endian cluster count, then
/// one byte per cluster.  `Err(IoError)` when the bytes end early.
pub open spec fn spec_decode_payload(data: Seq<u8>, sample: int) -> Result<Seq<char>, IngestError> {
    if data.len() < 4 {
        Err(IngestError::IoError)
    } else {
        let n = spec_bcl_take(spec_le32_at(data, 0), sample);
        if n + 4 <= data.len() {
            Ok(Seq::new(n as nat, |i: int| spec_bcl_char(data[4 + i])))
        } else {
            Err(IngestError::IoError)
        }
    }
}

/// Translate one base byte.
fn bcl_char_of(b: u8) -> (r: char)
    ensures
        r == spec_bcl_char(b),
{
    if b == 0 {
        'N'
    } else {
        match b % 4 {
            0 => 'A',
            1 => 'C',
            2 => 'G',
            _ => 'T',
        }
    }
}

/// Decode an uncompressed BCL payload, as `spec_decode_payload` says: the
/// leading count (clamped by a positive sampling bound) tells how many
/// bytes follow; a zero byte is a no-call.
pub fn decode_bcl_payload(data: &Vec<u8>, sample_reads_per_tile: i32) -> (r: Result<
    Vec<char>,
    IngestError,
>)
    ensures
        match r {
            Ok(v) => spec_decode_payload(data@, sample_reads_per_tile as int) == Ok::<
                Seq<char>,
                IngestError,
            >(v@),
            Err(e) => spec_decode_payload(data@, sample_reads_per_tile as int) == Err::<
                Seq<char>,
                IngestError,
            >(e),
        },
{
    if data.len() < 4 {
        return Err(IngestError::IoError);
    }
    let n0 = read_le32_at(data, 0);
    let n: usize = if sample_reads_per_tile > 0 && (sample_reads_per_tile as usize) < (
    n0 as usize) {
        sample_reads_per_tile as usize
    } else {
        n0 as usize
    };
    if data.len() - 4 < n {
        return Err(IngestError::IoError);
    }
    let dlen = data.len();
    let mut out: Vec<char> = Vec::new();
    let mut i: usize = 0;
    while i < n
        invariant
            0 <= i <= n,
            dlen == data@.len(),
            n + 4 <= dlen,
            out@.len() == i,
            forall|m: int| 0 <= m < i ==> out@[m] == spec_bcl_char(data@[4 + m]),
        decreases n - i,
    {
        out.push(bcl_char_of(data[4 + i]));
        i += 1;
    }
    proof {
        assert(out@ =~= Seq::new(n as nat, |i: int| spec_bcl_char(data@[4 + i])));
    }
    Ok(out)
}

/// The decompressed concatenation of all gzip members of a byte string.
pub uninterp spec fn gunzip_multi(data: Seq<u8>) -> Seq<u8>;

/// The decompressed first gzip member of a byte string; what follows the
/// member is ignored.
pub uninterp spec fn gunzip_member(data: Seq<u8>) -> Seq<u8>;

/// Whether decompressing the gzip members of the byte string succeeds when
/// at most `max` output bytes are drawn.
pub uninterp spec fn gunzip_multi_within(data: Seq<u8>, max: int) -> bool;

/// Whether decompressing the first gzip member of the byte string succeeds
/// when at most `max` output bytes are drawn.
pub uninterp spec fn gunzip_member_within(data: Seq<u8>, max: int) -> bool;

/// Relies on `flate2::read::MultiGzDecoder`: decompresses the concatenation
/// of all gzip members of the input, a function of the input bytes alone;
/// reading stops after `max` bytes of output.
#[verifier::external_body]
fn gunzip_multi_prefix(data: &Vec<u8>, max: usize) -> (r: Option<Vec<u8>>)
    ensures
        r is Some <==> gunzip_multi_within(data@, max as int),
        r matches Some(v) ==> v@.len() <= max && v@.len() <= gunzip_multi(data@).len()
            && v@ == gunzip_multi(data@).take(v@.len() as int)
            && (v@.len() < max ==> v@ == gunzip_multi(data@)),
{
    let decoder = flate2::read::MultiGzDecoder::new(data.as_slice());
    let mut out = Vec::new();
    match decoder.take(max as u64).read_to_end(&mut out) {
        Ok(_) => Some(out),
        Err(_) => None,
    }
}

/// Relies on `flate2::read::GzDecoder`: decompresses the first gzip member
/// of the input and ignores what follows it, a function of the input bytes
/// alone; reading stops after `max` bytes of output.
#[verifier::external_body]
fn gunzip_member_prefix(data: &Vec<u8>, max: usize) -> (r: Option<Vec<u8>>)
    ensures
        r is Some <==> gunzip_member_within(data@, max as int),
        r matches Some(v) ==> v@.len() <= max && v@.len() <= gunzip_member(data@).len()
            && v@ == gunzip_member(data@).take(v@.len() as int)
            && (v@.len() < max ==> v@ == gunzip_member(data@)),
{
    let decoder = flate2::read::GzDecoder::new(data.as_slice());
    let mut out = Vec::new();
    match decoder.take(max as u64).read_to_end(&mut out) {
        Ok(_) => Some(out),
        Err(_) => None,
    }
}

/// Decoding a payload prefix that covers the sampled clusters agrees with
/// decoding the whole payload.
proof fn lemma_payload_prefix(full: Seq<u8>, prefix: Seq<u8>, max: int, sample: int)
    requires
        sample > 0,
        max >= 4 + sample,
        prefix.len() <= full.len(),
        prefix == full.take(prefix.len() as int),
        prefix.len() <= max,
        prefix.len() < max ==> prefix == full,
    ensures
        spec_decode_payload(prefix, sample) == spec_decode_payload(full, sample),
{
    if prefix.len() < max {
    } else {
        // The prefix is exactly `max` bytes long, enough for the count and
        // every sampled cluster.
        assert(prefix.len() == max);
        assert(prefix.len() <= full.len());
        if full.len() < 4 {
        } else {
            assert(prefix[0] == full[0]);
            assert(prefix[1] == full[1]);
            assert(prefix[2] == full[2]);
            assert(prefix[3] == full[3]);
            let n = spec_bcl_take(spec_le32_at(full, 0), sample);
            assert(n <= sample || n == spec_le32_at(full, 0));
            if n + 4 <= prefix.len() {
                assert(n + 4 <= full.len());
                assert(Seq::new(n as nat, |i: int| spec_bcl_char(prefix[4 + i])) =~= Seq::new(
                    n as nat,
                    |i: int| spec_bcl_char(full[4 + i]),
                ));
            } else {
                // The prefix holds `max >= 4 + sample` bytes, so a count
                // that does not fit the prefix is not clamped and does not
                // fit the whole payload either.
                assert(n > sample);
                assert(n + 4 > full.len());
            }
        }
    }
}

/// How many decompressed bytes the gzip reader must draw: the count word
/// plus the sampled bytes for a positive bound, everything otherwise.
pub open spec fn spec_gzip_max(sample: int) -> int {
    if sample > 0 {
        4 + sample
    } else {
        usize::MAX as int
    }
}

/// Whether decoding a gzip BCL file is bound to succeed: the stream
/// decompresses as far as the sampling needs, and the decompressed payload
/// is well-formed.
pub open spec fn spec_gzip_runs(data: Seq<u8>, sample: int) -> bool {
    &&& gunzip_multi_within(data, spec_gzip_max(sample))
    &&& (sample <= 0 ==> gunzip_multi(data).len() < usize::MAX)
    &&& spec_decode_payload(gunzip_multi(data), sample) is Ok
}

/// Decode a gzip-compressed BCL file (possibly of several members, as
/// block-gzipped files are): decompress, then decode the payload.  The call
/// succeeds exactly when `spec_gzip_runs` says decompression carries far
/// enough and the payload is well-formed.
pub fn decode_gzip_bcl(data: &Vec<u8>, sample_reads_per_tile: i32) -> (r: Result<
    Vec<char>,
    IngestError,
>)
    ensures
        r is Ok <==> spec_gzip_runs(data@, sample_reads_per_tile as int),
        r matches Ok(v) ==> spec_decode_payload(gunzip_multi(data@), sample_reads_per_tile as int)
            == Ok::<Seq<char>, IngestError>(v@),
        r matches Err(e) ==> e == IngestError::IoError,
{
    let max: usize = if sample_reads_per_tile > 0 {
        proof {
            assert(usize::MAX >= u32::MAX);
        }
        4 + (sample_reads_per_tile as usize)
    } else {
        usize::MAX
    };
    let payload = match gunzip_multi_prefix(data, max) {
        Option::Some(v) => v,
        Option::None => {
            return Err(IngestError::IoError);
        },
    };
    if sample_reads_per_tile <= 0 && payload.len() == usize::MAX {
        // A decompressed stream that fills the whole address space cannot
        // be told apart from a truncated read; treat it as one.
        return Err(IngestError::IoError);
    }
    proof {
        if sample_reads_per_tile > 0 {
            lemma_payload_prefix(
                gunzip_multi(data@),
                payload@,
                max as int,
                sample_reads_per_tile as int,
            );
        } else {
            assert(payload@.len() < max);
            assert(payload@ == gunzip_multi(data@));
        }
    }
    match decode_bcl_payload(&payload, sample_reads_per_tile) {
        Ok(v) => Ok(v),
        Err(_) => Err(IngestError::IoError),
    }
}

/// One tile's entry in a CBCL header.
#[derive(Clone, Copy, PartialEq, Eq, Structural, Debug)]
pub struct CbclTileInfo {
    /// The tile's identifier.
    pub tile_no: u32,
    /// How many clusters the tile holds.
    pub num_clusters: u32,
    /// The tile's block size before compression.
    pub uncompressed_size: u32,
    /// The tile's block size as stored.
    pub compressed_size: u32,
    /// Whether clusters that did not pass the filter are excluded.
    pub non_pf_excluded: bool,
}

/// The header of a CBCL container.
#[derive(Debug)]
pub struct CbclHeader {
    /// The container format version.
    pub version: u16,
    /// The offset at which the compressed payload region begins.
    pub header_size: u32,
    /// Bits per base call; only 2 is supported.
    pub bits_per_basecall: u8,
    /// Bits per quality score; only 2 is supported.
    pub bits_per_qscore: u8,
    /// The quality score bins, as (from, to) pairs.
    pub bins: Vec<(u32, u32)>,
    /// The per-tile offsets, in file order.
    pub tiles: Vec<CbclTileInfo>,
}

/// Why parsing a CBCL header fails, when it does: truncation is an I/O
/// failure, and unsupported bit widths violate the format assumptions.
pub open spec fn spec_cbcl_parse_error(data: Seq<u8>) -> Option<IngestError> {
    if data.len() < 7 {
        Some(IngestError::IoError)
    } else if data[6] != 2 {
        Some(IngestError::BadCbcl)
    } else if data.len() < 8 {
        Some(IngestError::IoError)
    } else if data[7] != 2 {
        Some(IngestError::BadCbcl)
    } else if data.len() < 12 {
        Some(IngestError::IoError)
    } else {
        let nbins = spec_le32_at(data, 8);
        if data.len() < 16 + 8 * nbins {
            Some(IngestError::IoError)
        } else {
            let ntiles = spec_le32_at(data, 12 + 8 * nbins);
            if data.len() < 16 + 8 * nbins + 17 * ntiles {
                Some(IngestError::IoError)
            } else {
                None
            }
        }
    }
}

/// Whether a parsed header holds exactly what the bytes say.
pub open spec fn spec_cbcl_header_matches(data: Seq<u8>, h: CbclHeader) -> bool {
    let nbins = spec_le32_at(data, 8);
    let tiles_base = 16 + 8 * nbins;
    &&& h.version == spec_le16_at(data, 0)
    &&& h.header_size == spec_le32_at(data, 2)
    &&& h.bits_per_basecall == 2 && data[6] == 2
    &&& h.bits_per_qscore == 2 && data[7] == 2
    &&& h.bins@.len() == nbins
    &&& forall|i: int|
        0 <= i < nbins ==> (#[trigger] h.bins@[i]).0 == spec_le32_at(data, 12 + 8 * i)
            && h.bins@[i].1 == spec_le32_at(data, 12 + 8 * i + 4)
    &&& h.tiles@.len() == spec_le32_at(data, 12 + 8 * nbins)
    &&& forall|i: int|
        0 <= i < h.tiles@.len() ==> ((#[trigger] h.tiles@[i]).tile_no == spec_le32_at(
            data,
            tiles_base + 17 * i,
        ) && h.tiles@[i].num_clusters == spec_le32_at(data, tiles_base + 17 * i + 4)
            && h.tiles@[i].uncompressed_size == spec_le32_at(data, tiles_base + 17 * i + 8)
            && h.tiles@[i].compressed_size == spec_le32_at(data, tiles_base + 17 * i + 12)
            && h.tiles@[i].non_pf_excluded == (data[tiles_base + 17 * i + 16] != 0))
}

/// Parse a CBCL header: version, header size, bit widths (both must be 2),
/// the quality bins, and the per-tile offsets.
pub fn parse_cbcl_header(data: &Vec<u8>) -> (r: Result<CbclHeader, IngestError>)
    ensures
        r matches Ok(h) ==> spec_cbcl_parse_error(data@) is None && spec_cbcl_header_matches(
            data@,
            h,
        ),
        r matches Err(e) ==> spec_cbcl_parse_error(data@) == Some(e),
{
    let dlen = data.len();
    if dlen < 7 {
        return Err(IngestError::IoError);
    }
    if data[6] != 2 {
        return Err(IngestError::BadCbcl);
    }
    if dlen < 8 {
        return Err(IngestError::IoError);
    }
    if data[7] != 2 {
        return Err(IngestError::BadCbcl);
    }
    if dlen < 12 {
        return Err(IngestError::IoError);
    }
    let version = read_le16_at(data, 0);
    let header_size = read_le32_at(data, 2);
    let nbins = read_le32_at(data, 8);
    // The bins span 8 bytes each, and the tile count takes 4 more.
    if dlen < 16 || ((dlen - 16) as u64) < 8 * (nbins as u64) {
        return Err(IngestError::IoError);
    }
    let nbins_sz = nbins as usize;
    let mut bins: Vec<(u32, u32)> = Vec::new();
    let mut i: usize = 0;
    while i < nbins_sz
        invariant
            0 <= i <= nbins_sz,
            nbins_sz == spec_le32_at(data@, 8),
            16 + 8 * nbins_sz <= data@.len(),
            dlen == data@.len(),
            bins@.len() == i,
            forall|m: int|
                0 <= m < i ==> (#[trigger] bins@[m]).0 == spec_le32_at(data@, 12 + 8 * m)
                    && bins@[m].1 == spec_le32_at(data@, 12 + 8 * m + 4),
        decreases nbins_sz - i,
    {
        let from = read_le32_at(data, 12 + 8 * i);
        let to = read_le32_at(data, 12 + 8 * i + 4);
        bins.push((from, to));
        i += 1;
    }
    let tiles_base: usize = 16 + 8 * nbins_sz;
    let ntiles = read_le32_at(data, tiles_base - 4);
    if (((dlen - tiles_base) as u64)) < 17 * (ntiles as u64) {
        return Err(IngestError::IoError);
    }
    let ntiles_sz = ntiles as usize;
    let mut tiles: Vec<CbclTileInfo> = Vec::new();
    let mut t: usize = 0;
    while t < ntiles_sz
        invariant
            0 <= t <= ntiles_sz,
            tiles_base == 16 + 8 * spec_le32_at(data@, 8),
            ntiles_sz == spec_le32_at(data@, tiles_base - 4),
            tiles_base + 17 * ntiles_sz <= data@.len(),
            dlen == data@.len(),
            tiles@.len() == t,
            forall|m: int|
                0 <= m < t ==> ((#[trigger] tiles@[m]).tile_no == spec_le32_at(
                    data@,
                    tiles_base + 17 * m,
                ) && tiles@[m].num_clusters == spec_le32_at(data@, tiles_base + 17 * m + 4)
                    && tiles@[m].uncompressed_size == spec_le32_at(data@, tiles_base + 17 * m + 8)
                    && tiles@[m].compressed_size == spec_le32_at(data@, tiles_base + 17 * m + 12)
                    && tiles@[m].non_pf_excluded == (data@[tiles_base + 17 * m + 16] != 0)),
        decreases ntiles_sz - t,
    {
        let base = tiles_base + 17 * t;
        let tile_no = read_le32_at(data, base);
        let num_clusters = read_le32_at(data, base + 4);
        let uncompressed_size = read_le32_at(data, base + 8);
        let compressed_size = read_le32_at(data, base + 12);
        let non_pf_excluded = data[base + 16] != 0;
        tiles.push(
            CbclTileInfo { tile_no, num_clusters, uncompressed_size, compressed_size, non_pf_excluded },
        );
        t += 1;
    }
    Ok(
        CbclHeader {
            version,
            header_size,
            bits_per_basecall: 2,
            bits_per_qscore: 2,
            bins,
            tiles,
        },
    )
}

/// The sum of the first `t` tiles' compressed sizes, from the parsed tiles.
pub open spec fn spec_sum_compressed(tiles: Seq<CbclTileInfo>, t: int) -> int
    decreases t when t >= 0
{
    if t <= 0 {
        0
    } else {
        spec_sum_compressed(tiles, t - 1) + tiles[t - 1].compressed_size
    }
}

/// The sum of the first `t` tiles' compressed sizes, read off the bytes.
pub open spec fn spec_sum_compressed_at(data: Seq<u8>, tiles_base: int, t: int) -> int
    decreases t when t >= 0
{
    if t <= 0 {
        0
    } else {
        spec_sum_compressed_at(data, tiles_base, t - 1) + spec_le32_at(
            data,
            tiles_base + 17 * (t - 1) + 12,
        )
    }
}

/// A header that matches the bytes sums its compressed sizes as the bytes do.
proof fn lemma_sum_compressed_matches(data: Seq<u8>, h: CbclHeader, t: int)
    requires
        spec_cbcl_header_matches(data, h),
        0 <= t <= h.tiles@.len(),
    ensures
        spec_sum_compressed(h.tiles@, t) == spec_sum_compressed_at(
            data,
            16 + 8 * spec_le32_at(data, 8),
            t,
        ),
    decreases t,
{
    if t > 0 {
        lemma_sum_compressed_matches(data, h, t - 1);
    }
}

/// The base character of one packed CBCL cluster: the even cluster of a byte
/// sits in its low two bits, the odd one in bits four and five.
pub open spec fn spec_cbcl_char(b: u8, half: int) -> char {
    if half == 0 {
        spec_base_char(b as int % 4)
    } else {
        spec_base_char((b as int / 16) % 4)
    }
}

/// Unpack `k` clusters from a CBCL tile payload, two clusters per byte: the
/// decoder emits exactly `k` bases, cluster `2i` from the low bits of byte
/// `i` and cluster `2i+1` from bits four and five.  The zero-byte no-call
/// rule of the plain format does not apply here.
pub fn decode_cbcl_clusters(payload: &Vec<u8>, k: u32) -> (r: Vec<char>)
    requires
        k / 2 + k % 2 <= payload@.len(),
    ensures
        r@.len() == k,
        forall|i: int| 0 <= i < k ==> r@[i] == spec_cbcl_char(payload@[i / 2], i % 2),
{
    let plen = payload.len();
    let mut out: Vec<char> = Vec::new();
    let mut i: u32 = 0;
    while i < k
        invariant
            0 <= i <= k,
            plen == payload@.len(),
            k / 2 + k % 2 <= plen,
            out@.len() == i,
            forall|m: int| 0 <= m < i ==> out@[m] == spec_cbcl_char(payload@[m / 2], m % 2),
        decreases k - i,
    {
        let b = payload[(i / 2) as usize];
        let code: u8 = if i % 2 == 0 {
            b % 4
        } else {
            (b / 16) % 4
        };
        let c = match code {
            0 => 'A',
            1 => 'C',
            2 => 'G',
            _ => 'T',
        };
        out.push(c);
        i += 1;
    }
    out
}

/// Copy the bytes of `data` from `off` on.
fn copy_tail(data: &Vec<u8>, off: usize) -> (r: Vec<u8>)
    requires
        off <= data@.len(),
    ensures
        r@ == data@.skip(off as int),
{
    let dlen = data.len();
    let mut out: Vec<u8> = Vec::new();
    let mut i: usize = off;
    while i < dlen
        invariant
            off <= i <= dlen,
            dlen == data@.len(),
            out@.len() == i - off,
            forall|m: int| 0 <= m < out@.len() ==> out@[m] == data@[off + m],
        decreases dlen - i,
    {
        out.push(data[i]);
        i += 1;
    }
    proof {
        assert(out@ =~= data@.skip(off as int));
    }
    out
}

/// Decode one tile of a CBCL container, from the raw bytes: skip the header
/// and the earlier tiles' blocks, decompress the tile's own single-member
/// gzip block, and unpack the tile's clusters, clamped by a positive
/// sampling bound (zero reads them all, as on the plain path).
pub open spec fn spec_decode_cbcl(data: Seq<u8>, tile: int, sample: int) -> Result<
    Seq<char>,
    IngestError,
> {
    match spec_cbcl_parse_error(data) {
        Some(e) => Err(e),
        None => {
            let nbins = spec_le32_at(data, 8);
            let tiles_base = 16 + 8 * nbins;
            let ntiles = spec_le32_at(data, 12 + 8 * nbins);
            if tile < 0 || tile >= ntiles {
                Err(IngestError::IoError)
            } else {
                let off = spec_le32_at(data, 2) + spec_sum_compressed_at(data, tiles_base, tile);
                if off > data.len() {
                    Err(IngestError::IoError)
                } else {
                    let nc = spec_le32_at(data, tiles_base + 17 * tile + 4);
                    let k = spec_bcl_take(nc, sample);
                    let pay = gunzip_member(data.skip(off));
                    if pay.len() < k / 2 + k % 2 {
                        Err(IngestError::IoError)
                    } else {
                        Ok(Seq::new(k as nat, |i: int| spec_cbcl_char(pay[i / 2], i % 2)))
                    }
                }
            }
        },
    }
}

/// The byte offset of one tile's compressed block inside the container.
pub open spec fn spec_cbcl_block_off(data: Seq<u8>, tile: int) -> int {
    spec_le32_at(data, 2) + spec_sum_compressed_at(data, 16 + 8 * spec_le32_at(data, 8), tile)
}

/// How many decompressed bytes the tile's block must yield for the sampled
/// clusters, two clusters per byte.
pub open spec fn spec_cbcl_needed(data: Seq<u8>, tile: int, sample: int) -> int {
    let nc = spec_le32_at(data, 16 + 8 * spec_le32_at(data, 8) + 17 * tile + 4);
    let k = spec_bcl_take(nc, sample);
    k / 2 + k % 2
}

/// Whether decoding one CBCL tile is bound to succeed: the container is
/// specified to decode, and the tile's block decompresses as far as the
/// sampled clusters need.
pub open spec fn spec_cbcl_runs(data: Seq<u8>, tile: int, sample: int) -> bool {
    &&& spec_decode_cbcl(data, tile, sample) is Ok
    &&& gunzip_member_within(
        data.skip(spec_cbcl_block_off(data, tile)),
        spec_cbcl_needed(data, tile, sample),
    )
}

/// Decode one tile of a CBCL container whose header was already parsed.
/// The call succeeds exactly when `spec_cbcl_runs` holds.
fn decode_cbcl_tile(data: &Vec<u8>, h: &CbclHeader, tile: usize, sample: u32) -> (r: Result<
    Vec<char>,
    IngestError,
>)
    requires
        spec_cbcl_parse_error(data@) is None,
        spec_cbcl_header_matches(data@, *h),
        tile < h.tiles@.len(),
        h.tiles@.len() < 0x1_0000_0000,
    ensures
        r is Ok <==> spec_cbcl_runs(data@, tile as int, sample as int),
        r matches Ok(v) ==> spec_decode_cbcl(data@, tile as int, sample as int) == Ok::<
            Seq<char>,
            IngestError,
        >(v@),
        r matches Err(e) ==> e == IngestError::IoError,
{
    let dlen = data.len();
    // Sum the compressed sizes of the tiles in front of this one.
    let mut acc: u64 = 0;
    let mut i: usize = 0;
    while i < tile
        invariant
            0 <= i <= tile,
            tile < h.tiles@.len(),
            h.tiles@.len() < 0x1_0000_0000,
            acc == spec_sum_compressed(h.tiles@, i as int),
            acc <= (i as int) * 0xFFFF_FFFF,
        decreases tile - i,
    {
        proof {
            assert(acc + h.tiles@[i as int].compressed_size <= (i as int) * 0xFFFF_FFFF
                + 0xFFFF_FFFF);
        }
        acc = acc + h.tiles[i].compressed_size as u64;
        i += 1;
    }
    proof {
        lemma_sum_compressed_matches(data@, *h, tile as int);
    }
    let off_wide: u64 = h.header_size as u64 + acc;
    if off_wide > dlen as u64 {
        return Err(IngestError::IoError);
    }
    let off: usize = off_wide as usize;
    let tail = copy_tail(data, off);
    let nc = h.tiles[tile].num_clusters;
    let k: u32 = if sample > 0 && sample < nc {
        sample
    } else {
        nc
    };
    let needed: usize = (k / 2 + k % 2) as usize;
    let payload = match gunzip_member_prefix(&tail, needed) {
        Option::Some(v) => v,
        Option::None => {
            return Err(IngestError::IoError);
        },
    };
    if payload.len() < needed {
        // The member ended before the sampled clusters were read.
        proof {
            assert(payload@ == gunzip_member(data@.skip(off as int)));
        }
        return Err(IngestError::IoError);
    }
    proof {
        let full = gunzip_member(data@.skip(off as int));
        assert(payload@ == full.take(payload@.len() as int));
        assert forall|i2: int| 0 <= i2 < k implies payload@[#[trigger] (i2 / 2)] == full[i2 / 2] by {
            assert(i2 / 2 < needed);
        };
    }
    let out = decode_cbcl_clusters(&payload, k);
    proof {
        let full = gunzip_member(data@.skip(off as int));
        assert(out@ =~= Seq::new(k as nat, |i2: int| spec_cbcl_char(full[i2 / 2], i2 % 2)));
    }
    Ok(out)
}

/// Whether the file name names a gzip-compressed single-tile container.
pub open spec fn spec_is_gzip_name(path: Seq<char>) -> bool {
    spec_ends_with(path, ".gz"@) || spec_ends_with(path, ".bgzf"@)
}

/// What decoding one located base-call file must give: a CBCL locator picks
/// one tile of the segmented container; a `.gz` or `.bgzf` name is a
/// gzip-compressed plain payload; anything else is an uncompressed payload.
pub open spec fn spec_decode_file(
    path: Seq<char>,
    cbcl_tile: Option<u32>,
    data: Seq<u8>,
    sample: int,
) -> Result<Seq<char>, IngestError> {
    match cbcl_tile {
        Some(t) => spec_decode_cbcl(data, t as int, sample),
        None => if spec_is_gzip_name(path) {
            spec_decode_payload(gunzip_multi(data), sample)
        } else {
            spec_decode_payload(data, sample)
        },
    }
}

/// Whether decoding one located base-call file is bound to succeed: the
/// bytes are well-formed for the locator's format, and where a gzip stream
/// must be opened, decompression carries as far as the sampling needs.
pub open spec fn spec_decode_runs(
    path: Seq<char>,
    cbcl_tile: Option<u32>,
    data: Seq<u8>,
    sample: int,
) -> bool {
    match cbcl_tile {
        Some(t) => spec_cbcl_runs(data, t as int, sample),
        None => if spec_is_gzip_name(path) {
            spec_gzip_runs(data, sample)
        } else {
            spec_decode_payload(data, sample) is Ok
        },
    }
}

/// Decode one located base-call file from its bytes, dispatching on the
/// locator as `spec_decode_file` says.  The call succeeds exactly when
/// `spec_decode_runs` holds; on the uncompressed path the error is the
/// specified one, on the compressed paths a failed decompression reads as
/// an I/O failure.
pub fn decode_bcl_file(locator: &BclLocator, data: &Vec<u8>, sample_reads_per_tile: i32) -> (r:
    Result<Vec<char>, IngestError>)
    requires
        sample_reads_per_tile >= 0,
    ensures
        r is Ok <==> spec_decode_runs(
            locator.path@,
            locator.cbcl_tile,
            data@,
            sample_reads_per_tile as int,
        ),
        r matches Ok(v) ==> spec_decode_file(
            locator.path@,
            locator.cbcl_tile,
            data@,
            sample_reads_per_tile as int,
        ) == Ok::<Seq<char>, IngestError>(v@),
        r matches Err(e) ==> spec_decode_file(
            locator.path@,
            locator.cbcl_tile,
            data@,
            sample_reads_per_tile as int,
        ) == Err::<Seq<char>, IngestError>(e) || e == IngestError::IoError,
        locator.cbcl_tile is None && !spec_is_gzip_name(locator.path@) ==> (r matches Err(e)
            ==> spec_decode_file(
            locator.path@,
            locator.cbcl_tile,
            data@,
            sample_reads_per_tile as int,
        ) == Err::<Seq<char>, IngestError>(e)),
{
    match locator.cbcl_tile {
        Option::Some(t) => {
            let h = match parse_cbcl_header(data) {
                Ok(h) => h,
                Err(e) => {
                    return Err(e);
                },
            };
            let tile = t as usize;
            if tile >= h.tiles.len() {
                return Err(IngestError::IoError);
            }
            decode_cbcl_tile(data, &h, tile, sample_reads_per_tile as u32)
        },
        Option::None => {
            if str_ends_with(locator.path.as_str(), ".gz") || str_ends_with(
                locator.path.as_str(),
                ".bgzf",
            ) {
                decode_gzip_bcl(data, sample_reads_per_tile)
            } else {
                decode_bcl_payload(data, sample_reads_per_tile)
            }
        },
    }
}

} // verus!
