//! The histogram aggregator: per-cluster sequences, their frequencies, and
//! the threshold filter.

use vstd::prelude::*;
use vstd::pervasive::VecAdditionalExecFns;
use crate::bcl::{decode_bcl_file, spec_decode_file, spec_decode_runs};
use crate::errors::IngestError;
use crate::stacks::BclLocator;
use crate::strutil::push_char;

verus! {

/// One base-call file of a stack, already read from disk: where it came
/// from, and its raw bytes.
#[derive(Debug)]
pub struct BclFile {
    /// Which container the bytes are, and which tile of it is meant.
    pub locator: BclLocator,
    /// The container's bytes.
    pub data: Vec<u8>,
}

/// One lane's chosen tile stack, with every per-cycle file read from disk.
#[derive(Debug)]
pub struct LaneStack {
    /// The one-based number of the lane.
    pub lane_no: i32,
    /// The per-cycle base-call files, in cycle order.
    pub files: Vec<BclFile>,
}

/// For one index read and one lane: the sample size and the filtered
/// frequency histogram of the sampled index sequences.
#[derive(Debug)]
pub struct IndexCounts {
    /// One-based position among the index reads.
    pub index_no: i32,
    /// One-based lane number.
    pub lane_no: i32,
    /// How many clusters were sampled.
    pub sample_size: usize,
    /// The filtered histogram: each sequence with its frequency, keys
    /// distinct, in first-seen order.
    pub hist: Vec<(String, usize)>,
}

/// The views of the per-cycle decoded arrays.
pub open spec fn spec_array_views(arrays: Seq<Vec<char>>) -> Seq<Seq<char>> {
    arrays.map_values(|v: Vec<char>| v@)
}

/// The sequence of cluster `i`: its character from each cycle's array, in
/// cycle order.
pub open spec fn spec_cluster_seq(avs: Seq<Seq<char>>, i: int) -> Seq<char> {
    Seq::new(avs.len(), |j: int| avs[j][i])
}

/// All per-cluster sequences of a lane, in cluster order.
pub open spec fn spec_cluster_seqs(avs: Seq<Seq<char>>, n: int) -> Seq<Seq<char>> {
    Seq::new(n as nat, |i: int| spec_cluster_seq(avs, i))
}

/// How often `key` occurs among the sequences.
pub open spec fn spec_count_matches(seqs: Seq<Seq<char>>, key: Seq<char>) -> nat
    decreases seqs.len(),
{
    if seqs.len() == 0 {
        0
    } else {
        spec_count_matches(seqs.drop_last(), key) + if seqs.last() == key {
            1nat
        } else {
            0nat
        }
    }
}

/// Whether a frequency passes the threshold: `count / n` must exceed the
/// fraction given in parts per million.
pub open spec fn spec_keeps(count: int, n: int, ppm: int) -> bool {
    count * 1000000 > n * ppm
}

/// Whether some histogram entry's key is exactly `key`.
pub open spec fn spec_key_in_hist(hist: Seq<(String, usize)>, key: Seq<char>) -> bool {
    exists|x: int| 0 <= x < hist.len() && (#[trigger] hist[x]).0@ == key
}

/// A well-formed filtered histogram of the given cluster sequences: keys
/// distinct, every entry counted exactly and above the threshold, and every
/// sequence above the threshold present.
pub open spec fn spec_hist_exact(
    hist: Seq<(String, usize)>,
    clusters: Seq<Seq<char>>,
    n: int,
    ppm: int,
) -> bool {
    &&& forall|a: int, b: int|
        0 <= a < b < hist.len() ==> (#[trigger] hist[a]).0@ != (#[trigger] hist[b]).0@
    &&& forall|a: int|
        0 <= a < hist.len() ==> (#[trigger] hist[a]).1 == spec_count_matches(clusters, hist[a].0@)
            && spec_keeps(hist[a].1 as int, n, ppm)
    &&& forall|i: int|
        0 <= i < clusters.len() && spec_keeps(
            spec_count_matches(clusters, #[trigger] clusters[i]) as int,
            n,
            ppm,
        ) ==> exists|a: int| 0 <= a < hist.len() && (#[trigger] hist[a]).0@ == clusters[i]
}

/// Build one cluster's sequence string.
fn cluster_string(arrays: &Vec<Vec<char>>, i: usize) -> (r: String)
    requires
        forall|j: int| 0 <= j < arrays@.len() ==> i < (#[trigger] arrays@[j])@.len(),
    ensures
        r@ == spec_cluster_seq(spec_array_views(arrays@), i as int),
{
    let mut s = String::new();
    let mut j: usize = 0;
    while j < arrays.len()
        invariant
            0 <= j <= arrays@.len(),
            forall|m: int| 0 <= m < arrays@.len() ==> i < (#[trigger] arrays@[m])@.len(),
            s@.len() == j,
            forall|m: int| 0 <= m < j ==> s@[m] == (#[trigger] arrays@[m])@[i as int],
        decreases arrays.len() - j,
    {
        let c = arrays[j][i];
        push_char(&mut s, c);
        j += 1;
    }
    proof {
        assert(s@ =~= spec_cluster_seq(spec_array_views(arrays@), i as int));
    }
    s
}

/// Find the entry whose key equals `key`.
fn find_key(hist: &Vec<(String, usize)>, key: &String) -> (r: Option<usize>)
    ensures
        r matches Some(ix) ==> ix < hist@.len() && hist@[ix as int].0@ == key@,
        r is None ==> forall|a: int| 0 <= a < hist@.len() ==> (#[trigger] hist@[a]).0@ != key@,
{
    let mut a: usize = 0;
    while a < hist.len()
        invariant
            0 <= a <= hist@.len(),
            forall|m: int| 0 <= m < a ==> (#[trigger] hist@[m]).0@ != key@,
        decreases hist.len() - a,
    {
        if hist[a].0.eq(key) {
            return Option::Some(a);
        }
        a += 1;
    }
    Option::None
}

/// Aggregate one lane's decoded arrays into its filtered index histogram.
///
/// Every decoded array must have the same length — the cluster count `n`,
/// which becomes the sample size; otherwise the stack is inconsistent and
/// the lane fails.  The histogram holds, for each distinct per-cluster
/// sequence whose frequency exceeds the threshold, that exact frequency.
#[verifier::rlimit(100)]
pub fn counts_from_arrays(
    arrays: &Vec<Vec<char>>,
    index_no: i32,
    lane_no: i32,
    min_index_fraction_ppm: u64,
) -> (r: Result<IndexCounts, IngestError>)
    requires
        arrays@.len() >= 1,
    ensures
        r matches Err(e) ==> e == IngestError::StackLengthMismatch && exists|j: int|
            0 <= j < arrays@.len() && (#[trigger] arrays@[j])@.len() != arrays@[0]@.len(),
        r matches Ok(ic) ==> (forall|j: int|
            0 <= j < arrays@.len() ==> (#[trigger] arrays@[j])@.len() == arrays@[0]@.len())
            && ic.index_no == index_no && ic.lane_no == lane_no && ic.sample_size
            == arrays@[0]@.len() && spec_hist_exact(
            ic.hist@,
            spec_cluster_seqs(spec_array_views(arrays@), arrays@[0]@.len() as int),
            arrays@[0]@.len() as int,
            min_index_fraction_ppm as int,
        ),
{
    let n = arrays[0].len();
    // Every cycle's array must agree on the cluster count.
    let mut j: usize = 1;
    while j < arrays.len()
        invariant
            1 <= j <= arrays@.len(),
            n == arrays@[0]@.len(),
            forall|m: int| 0 <= m < j ==> (#[trigger] arrays@[m])@.len() == n,
        decreases arrays.len() - j,
    {
        if arrays[j].len() != n {
            return Err(IngestError::StackLengthMismatch);
        }
        j += 1;
    }
    let ghost avs = spec_array_views(arrays@);
    let ghost clusters = spec_cluster_seqs(avs, n as int);
    // Count each cluster's sequence.
    let mut hist: Vec<(String, usize)> = Vec::new();
    let mut i: usize = 0;
    while i < n
        invariant
            0 <= i <= n,
            n == arrays@[0]@.len(),
            arrays@.len() >= 1,
            forall|m: int| 0 <= m < arrays@.len() ==> (#[trigger] arrays@[m])@.len() == n,
            avs == spec_array_views(arrays@),
            clusters == spec_cluster_seqs(avs, n as int),
            forall|a: int, b: int|
                0 <= a < b < hist@.len() ==> (#[trigger] hist@[a]).0@ != (#[trigger] hist@[b]).0@,
            forall|a: int|
                0 <= a < hist@.len() ==> (#[trigger] hist@[a]).1 == spec_count_matches(
                    clusters.take(i as int),
                    hist@[a].0@,
                ) && 1 <= hist@[a].1 <= i,
            forall|m: int| 0 <= m < i ==> #[trigger] spec_key_in_hist(hist@, clusters[m]),
        decreases n - i,
    {
        let key = cluster_string(arrays, i);
        proof {
            assert(key@ == clusters[i as int]);
            assert(clusters.take(i + 1).drop_last() =~= clusters.take(i as int));
            assert(clusters.take(i + 1).last() == clusters[i as int]);
        }
        match find_key(&hist, &key) {
            Option::Some(ix) => {
                let count = hist[ix].1;
                let ghost old_hist = hist@;
                hist.set(ix, (key, count + 1));
                proof {
                    assert forall|a: int|
                        0 <= a < hist@.len() implies (#[trigger] hist@[a]).1
                            == spec_count_matches(clusters.take(i + 1), hist@[a].0@) && 1
                            <= hist@[a].1 <= i + 1 by {
                        if a == ix {
                            assert(hist@[a].0@ == clusters[i as int]);
                        } else {
                            assert(hist@[a] == old_hist[a]);
                            assert(hist@[a].0@ != clusters[i as int]);
                        }
                    };
                    assert forall|m: int|
                        0 <= m < i + 1 implies #[trigger] spec_key_in_hist(
                        hist@,
                        clusters[m],
                    ) by {
                        if m == i {
                            assert(hist@[ix as int].0@ == clusters[m]);
                        } else {
                            assert(spec_key_in_hist(old_hist, clusters[m]));
                            let a0 = choose|a0: int|
                                0 <= a0 < old_hist.len() && (#[trigger] old_hist[a0]).0@
                                    == clusters[m];
                            assert(hist@[a0].0@ == old_hist[a0].0@);
                        }
                    };
                }
            },
            Option::None => {
                let ghost old_hist = hist@;
                hist.push((key, 1));
                proof {
                    assert forall|m: int| 0 <= m < i implies #[trigger] clusters[m] != key@ by {
                        assert(spec_key_in_hist(old_hist, clusters[m]));
                        let a0 = choose|a0: int|
                            0 <= a0 < old_hist.len() && (#[trigger] old_hist[a0]).0@
                                == clusters[m];
                        assert(old_hist[a0].0@ != key@);
                    };
                    lemma_count_absent(clusters, i as int, key@);
                    assert forall|a: int|
                        0 <= a < hist@.len() implies (#[trigger] hist@[a]).1
                            == spec_count_matches(clusters.take(i + 1), hist@[a].0@) && 1
                            <= hist@[a].1 <= i + 1 by {
                        if a == old_hist.len() {
                            assert(hist@[a].0@ == clusters[i as int]);
                            assert(spec_count_matches(clusters.take(i as int), clusters[i as int])
                                == 0);
                        } else {
                            assert(hist@[a] == old_hist[a]);
                            assert(hist@[a].0@ != clusters[i as int]);
                        }
                    };
                    assert forall|m: int|
                        0 <= m < i + 1 implies #[trigger] spec_key_in_hist(
                        hist@,
                        clusters[m],
                    ) by {
                        if m == i {
                            assert(hist@[old_hist.len() as int].0@ == clusters[m]);
                        } else {
                            assert(spec_key_in_hist(old_hist, clusters[m]));
                            let a0 = choose|a0: int|
                                0 <= a0 < old_hist.len() && (#[trigger] old_hist[a0]).0@
                                    == clusters[m];
                            assert(hist@[a0].0@ == old_hist[a0].0@);
                        }
                    };
                }
            },
        }
        i += 1;
    }
    proof {
        assert(clusters.take(n as int) =~= clusters);
        assert(forall|x: int|
            0 <= x < hist@.len() ==> (#[trigger] hist@[x]).1 == spec_count_matches(
                clusters,
                hist@[x].0@,
            ));
    }
    // Keep the entries above the threshold.
    let mut filtered: Vec<(String, usize)> = Vec::new();
    let mut a: usize = 0;
    while a < hist.len()
        invariant
            0 <= a <= hist@.len(),
            arrays@.len() >= 1,
            n == arrays@[0]@.len(),
            forall|x: int, y: int|
                0 <= x < y < hist@.len() ==> (#[trigger] hist@[x]).0@ != (#[trigger] hist@[y]).0@,
            forall|x: int|
                0 <= x < hist@.len() ==> (#[trigger] hist@[x]).1 == spec_count_matches(
                    clusters,
                    hist@[x].0@,
                ),
            forall|x: int, y: int|
                0 <= x < y < filtered@.len() ==> (#[trigger] filtered@[x]).0@
                    != (#[trigger] filtered@[y]).0@,
            forall|x: int|
                0 <= x < filtered@.len() ==> (#[trigger] filtered@[x]).1 == spec_count_matches(
                    clusters,
                    filtered@[x].0@,
                ) && spec_keeps(filtered@[x].1 as int, n as int, min_index_fraction_ppm as int),
            forall|x: int|
                0 <= x < a && spec_keeps(
                    (#[trigger] hist@[x]).1 as int,
                    n as int,
                    min_index_fraction_ppm as int,
                ) ==> exists|y: int|
                    0 <= y < filtered@.len() && (#[trigger] filtered@[y]).0@ == hist@[x].0@,
            forall|y: int|
                0 <= y < filtered@.len() ==> exists|x: int|
                    0 <= x < a && (#[trigger] filtered@[y]).0@ == (#[trigger] hist@[x]).0@,
        decreases hist.len() - a,
    {
        let count = hist[a].1;
        proof {
            assert((count as int) * 1000000 <= 0xFFFF_FFFF_FFFF_FFFF * 1000000) by (nonlinear_arith)
                requires
                    0 <= count <= 0xFFFF_FFFF_FFFF_FFFFu64,
            ;
            assert((n as int) * (min_index_fraction_ppm as int) <= 0xFFFF_FFFF_FFFF_FFFF
                * 0xFFFF_FFFF_FFFF_FFFF) by (nonlinear_arith)
                requires
                    0 <= n <= 0xFFFF_FFFF_FFFF_FFFFu64,
                    0 <= min_index_fraction_ppm <= 0xFFFF_FFFF_FFFF_FFFFu64,
            ;
        }
        let ghost old_filtered = filtered@;
        let kept = (count as u128) * 1000000 > (n as u128) * (min_index_fraction_ppm as u128);
        if kept {
            let entry = (hist[a].0.clone(), count);
            filtered.push(entry);
        }
        proof {
            assert forall|x: int|
                0 <= x < a + 1 && spec_keeps(
                    (#[trigger] hist@[x]).1 as int,
                    n as int,
                    min_index_fraction_ppm as int,
                ) implies exists|y: int|
                0 <= y < filtered@.len() && (#[trigger] filtered@[y]).0@ == hist@[x].0@ by {
                if x == a {
                    assert(kept);
                    assert(filtered@[filtered@.len() - 1].0@ == hist@[x].0@);
                } else {
                    let y0 = choose|y0: int|
                        0 <= y0 < old_filtered.len() && old_filtered[y0].0@ == hist@[x].0@;
                    assert(filtered@[y0].0@ == hist@[x].0@);
                }
            };
            assert forall|y: int| 0 <= y < filtered@.len() implies exists|x: int|
                0 <= x < a + 1 && (#[trigger] filtered@[y]).0@ == (#[trigger] hist@[x]).0@ by {
                if y < old_filtered.len() {
                    let x0 = choose|x0: int|
                        0 <= x0 < a && old_filtered[y].0@ == (#[trigger] hist@[x0]).0@;
                    assert(filtered@[y].0@ == hist@[x0].0@);
                } else {
                    assert(filtered@[y].0@ == hist@[a as int].0@);
                }
            };
            assert forall|x: int, y: int|
                0 <= x < y < filtered@.len() implies (#[trigger] filtered@[x]).0@
                != (#[trigger] filtered@[y]).0@ by {
                if y == filtered@.len() - 1 && y >= old_filtered.len() {
                    let x0 = choose|x0: int|
                        0 <= x0 < a && old_filtered[x].0@ == (#[trigger] hist@[x0]).0@;
                    assert(filtered@[y].0@ == hist@[a as int].0@);
                    assert(filtered@[x].0@ == hist@[x0].0@);
                    assert(hist@[x0].0@ != hist@[a as int].0@);
                }
            };
        }
        a += 1;
    }
    proof {
        assert forall|m: int|
            0 <= m < clusters.len() && spec_keeps(
                spec_count_matches(clusters, #[trigger] clusters[m]) as int,
                n as int,
                min_index_fraction_ppm as int,
            ) implies exists|y: int|
            0 <= y < filtered@.len() && (#[trigger] filtered@[y]).0@ == clusters[m] by {
            assert(spec_key_in_hist(hist@, clusters[m]));
            let x = choose|x: int| 0 <= x < hist@.len() && (#[trigger] hist@[x]).0@ == clusters[m];
            assert(hist@[x].1 == spec_count_matches(clusters, clusters[m]));
            let y = choose|y: int|
                0 <= y < filtered@.len() && (#[trigger] filtered@[y]).0@ == hist@[x].0@;
            assert(filtered@[y].0@ == clusters[m]);
        };
    }
    Ok(IndexCounts { index_no, lane_no, sample_size: n, hist: filtered })
}

/// A key that differs from every cluster seen so far was never counted:
/// when a new key is first seen, its count among the first `i` clusters is
/// zero.
proof fn lemma_count_absent(clusters: Seq<Seq<char>>, i: int, key: Seq<char>)
    requires
        0 <= i <= clusters.len(),
        forall|m: int| 0 <= m < i ==> #[trigger] clusters[m] != key,
    ensures
        spec_count_matches(clusters.take(i), key) == 0,
    decreases i,
{
    if i > 0 {
        assert(clusters.take(i).drop_last() =~= clusters.take(i - 1));
        assert(clusters.take(i).last() == clusters[i - 1]);
        lemma_count_absent(clusters, i - 1, key);
    }
}

/// What decoding one stack file gives when it succeeds; the empty sequence
/// stands in for a failed decode (`spec_file_ok` tells the cases apart).
pub open spec fn spec_file_chars(f: BclFile, sample: int) -> Seq<char> {
    match spec_decode_file(f.locator.path@, f.locator.cbcl_tile, f.data@, sample) {
        Ok(v) => v,
        Err(_) => Seq::empty(),
    }
}

/// Whether one stack file decodes without error.
pub open spec fn spec_file_ok(f: BclFile, sample: int) -> bool {
    spec_decode_file(f.locator.path@, f.locator.cbcl_tile, f.data@, sample) is Ok
}

/// Whether some file of the lane's stack disagrees with the first file on
/// the decoded cluster count.
pub open spec fn spec_lane_mismatch(lane: LaneStack, sample: int) -> bool {
    exists|j: int|
        0 <= j < lane.files@.len() && spec_file_chars(#[trigger] lane.files@[j], sample).len()
            != spec_file_chars(lane.files@[0], sample).len()
}

/// Whether every file of the lane's stack is bound to decode: well-formed
/// bytes, and decompression carrying as far as the sampling needs.
pub open spec fn spec_lane_decodes(lane: LaneStack, sample: int) -> bool {
    forall|j: int|
        0 <= j < lane.files@.len() ==> spec_decode_runs(
            (#[trigger] lane.files@[j]).locator.path@,
            lane.files@[j].locator.cbcl_tile,
            lane.files@[j].data@,
            sample,
        )
}

/// Whether analyzing the lane is bound to succeed: every file decodes and
/// all decoded arrays agree on the cluster count.
pub open spec fn spec_lane_runs(lane: LaneStack, sample: int) -> bool {
    spec_lane_decodes(lane, sample) && !spec_lane_mismatch(lane, sample)
}

/// What one lane's emitted counts must hold: every file decoded, all to the
/// same length, which is the sample size, and the exact filtered histogram
/// of the per-cluster sequences.
pub open spec fn spec_lane_counts(
    ic: IndexCounts,
    lane: LaneStack,
    index_no: i32,
    sample: int,
    ppm: int,
) -> bool {
    let arrays = lane.files@.map_values(|f: BclFile| spec_file_chars(f, sample));
    let n = arrays[0].len() as int;
    &&& forall|j: int| 0 <= j < lane.files@.len() ==> spec_file_ok(#[trigger] lane.files@[j], sample)
    &&& forall|j: int| 0 <= j < arrays.len() ==> (#[trigger] arrays[j]).len() == n
    &&& ic.index_no == index_no
    &&& ic.lane_no == lane.lane_no
    &&& ic.sample_size == n
    &&& spec_hist_exact(ic.hist@, spec_cluster_seqs(arrays, n), n, ppm)
}

/// Analyze the chosen tile stack of every lane: decode each lane's per-cycle
/// files, join them into per-cluster sequences, and emit each lane's
/// filtered index histogram.  The first failing lane fails the whole call;
/// the call succeeds exactly when every lane's files decode and agree on
/// the cluster count, and when only a cluster-count disagreement stands in
/// the way the error is `StackLengthMismatch`.
#[verifier::loop_isolation(false)]
pub fn analyze_stacks(
    lanes: &Vec<LaneStack>,
    index_no: i32,
    sample_reads_per_tile: i32,
    min_index_fraction_ppm: u64,
) -> (r: Result<Vec<IndexCounts>, IngestError>)
    requires
        sample_reads_per_tile >= 0,
        forall|l: int| 0 <= l < lanes@.len() ==> (#[trigger] lanes@[l]).files@.len() >= 1,
    ensures
        r is Ok <==> forall|l: int|
            0 <= l < lanes@.len() ==> spec_lane_runs(
                #[trigger] lanes@[l],
                sample_reads_per_tile as int,
            ),
        (forall|l: int|
            0 <= l < lanes@.len() ==> spec_lane_decodes(
                #[trigger] lanes@[l],
                sample_reads_per_tile as int,
            )) ==> (r matches Err(e) ==> e == IngestError::StackLengthMismatch),
        r matches Ok(v) ==> v@.len() == lanes@.len() && forall|l: int|
            0 <= l < lanes@.len() ==> spec_lane_counts(
                v@[l],
                #[trigger] lanes@[l],
                index_no,
                sample_reads_per_tile as int,
                min_index_fraction_ppm as int,
            ),
        r matches Err(e) ==> e == IngestError::IoError || (exists|l: int, j: int|
            0 <= l < lanes@.len() && 0 <= j < (#[trigger] lanes@[l]).files@.len()
                && spec_decode_file(
                (#[trigger] lanes@[l].files@[j]).locator.path@,
                lanes@[l].files@[j].locator.cbcl_tile,
                lanes@[l].files@[j].data@,
                sample_reads_per_tile as int,
            ) == Err::<Seq<char>, IngestError>(e)) || (e == IngestError::StackLengthMismatch
            && exists|l: int|
            0 <= l < lanes@.len() && spec_lane_mismatch(
                #[trigger] lanes@[l],
                sample_reads_per_tile as int,
            )),
{
    let ghost sample = sample_reads_per_tile as int;
    let mut out: Vec<IndexCounts> = Vec::new();
    let mut l: usize = 0;
    while l < lanes.len()
        invariant
            0 <= l <= lanes@.len(),
            sample == sample_reads_per_tile as int,
            sample_reads_per_tile >= 0,
            forall|m: int| 0 <= m < lanes@.len() ==> (#[trigger] lanes@[m]).files@.len() >= 1,
            out@.len() == l,
            forall|m: int| 0 <= m < l ==> spec_lane_runs(#[trigger] lanes@[m], sample),
            forall|m: int|
                0 <= m < l ==> spec_lane_counts(
                    out@[m],
                    #[trigger] lanes@[m],
                    index_no,
                    sample,
                    min_index_fraction_ppm as int,
                ),
        decreases lanes.len() - l,
    {
        let lane = &lanes[l];
        let ghost spec_arrays = lane.files@.map_values(|f: BclFile| spec_file_chars(f, sample));
        let mut arrays: Vec<Vec<char>> = Vec::new();
        let mut j: usize = 0;
        while j < lane.files.len()
            invariant
                0 <= j <= lane.files@.len(),
                sample == sample_reads_per_tile as int,
                sample_reads_per_tile >= 0,
                0 <= l < lanes@.len(),
                lane == lanes@[l as int],
                spec_arrays == lane.files@.map_values(|f: BclFile| spec_file_chars(f, sample)),
                arrays@.len() == j,
                forall|m: int| 0 <= m < j ==> spec_file_ok(#[trigger] lane.files@[m], sample),
                forall|m: int|
                    0 <= m < j ==> spec_decode_runs(
                        (#[trigger] lane.files@[m]).locator.path@,
                        lane.files@[m].locator.cbcl_tile,
                        lane.files@[m].data@,
                        sample,
                    ),
                forall|m: int| 0 <= m < j ==> (#[trigger] arrays@[m])@ == spec_arrays[m],
            decreases lane.files.len() - j,
        {
            let f = &lane.files[j];
            match decode_bcl_file(&f.locator, &f.data, sample_reads_per_tile) {
                Ok(chars) => {
                    proof {
                        assert(spec_arrays[j as int] == spec_file_chars(
                            lane.files@[j as int],
                            sample,
                        ));
                        assert(spec_decode_file(
                            lane.files@[j as int].locator.path@,
                            lane.files@[j as int].locator.cbcl_tile,
                            lane.files@[j as int].data@,
                            sample,
                        ) == Ok::<Seq<char>, IngestError>(chars@));
                        assert(spec_file_ok(lane.files@[j as int], sample));
                        assert(spec_file_chars(lane.files@[j as int], sample) == chars@);
                    }
                    arrays.push(chars);
                    proof {
                        assert forall|m: int|
                            0 <= m < j + 1 implies (#[trigger] arrays@[m])@ == spec_arrays[m] by {
                            if m == j {
                                assert(arrays@[m] == chars);
                            } else {
                                assert(arrays@[m] == arrays@.drop_last()[m]);
                            }
                        };
                    }
                },
                Err(e) => {
                    proof {
                        assert(!spec_decode_runs(
                            lanes@[l as int].files@[j as int].locator.path@,
                            lanes@[l as int].files@[j as int].locator.cbcl_tile,
                            lanes@[l as int].files@[j as int].data@,
                            sample,
                        ));
                        assert(!spec_lane_decodes(lanes@[l as int], sample));
                        assert(!spec_lane_runs(lanes@[l as int], sample));
                        if e != IngestError::IoError {
                            assert(spec_decode_file(
                                lanes@[l as int].files@[j as int].locator.path@,
                                lanes@[l as int].files@[j as int].locator.cbcl_tile,
                                lanes@[l as int].files@[j as int].data@,
                                sample,
                            ) == Err::<Seq<char>, IngestError>(e));
                        }
                    }
                    return Err(e);
                },
            }
            j += 1;
        }
        let counts = counts_from_arrays(
            &arrays,
            index_no,
            lane.lane_no,
            min_index_fraction_ppm,
        );
        match counts {
            Ok(ic) => {
                proof {
                    assert(arrays@.len() == lane.files@.len());
                    assert forall|m: int|
                        0 <= m < arrays@.len() implies #[trigger] spec_array_views(arrays@)[m]
                        == spec_arrays[m] by {
                        assert(arrays@[m]@ == spec_arrays[m]);
                    };
                    assert(spec_array_views(arrays@) =~= spec_arrays);
                    assert forall|m: int|
                        0 <= m < spec_arrays.len() implies (#[trigger] spec_arrays[m]).len()
                        == spec_arrays[0].len() by {
                        assert(arrays@[m]@.len() == arrays@[0]@.len());
                        assert(spec_arrays[m] == arrays@[m]@);
                        assert(spec_arrays[0] == arrays@[0]@);
                    };
                    assert(spec_lane_counts(
                        ic,
                        lanes@[l as int],
                        index_no,
                        sample,
                        min_index_fraction_ppm as int,
                    ));
                    assert(spec_lane_decodes(lanes@[l as int], sample));
                    assert(!spec_lane_mismatch(lanes@[l as int], sample)) by {
                        if spec_lane_mismatch(lanes@[l as int], sample) {
                            let jj = choose|jj: int|
                                0 <= jj < lanes@[l as int].files@.len() && spec_file_chars(
                                    #[trigger] lanes@[l as int].files@[jj],
                                    sample,
                                ).len() != spec_file_chars(lanes@[l as int].files@[0], sample).len();
                            assert(arrays@[jj]@.len() == arrays@[0]@.len());
                            assert(arrays@[jj]@ == spec_arrays[jj]);
                            assert(arrays@[0]@ == spec_arrays[0]);
                        }
                    };
                    assert(spec_lane_runs(lanes@[l as int], sample));
                }
                out.push(ic);
            },
            Err(e) => {
                proof {
                    let jj = choose|jj: int|
                        0 <= jj < arrays@.len() && (#[trigger] arrays@[jj])@.len()
                            != arrays@[0]@.len();
                    assert(spec_file_chars(lanes@[l as int].files@[jj], sample).len()
                        != spec_file_chars(lanes@[l as int].files@[0], sample).len());
                    assert(spec_lane_mismatch(lanes@[l as int], sample));
                    assert(!spec_lane_runs(lanes@[l as int], sample));
                }
                return Err(e);
            },
        }
        l += 1;
    }
    Ok(out)
}

} // verus!
