//! The stack planner: which base-call files must be read, per layout, to
//! sample one index read, and which tile stack the seeded selection picks.

use rand::SeedableRng;
use vstd::prelude::*;
use crate::digits::{push_udec, push_udec_pad4, spec_udec, spec_udec_pad4};
use crate::errors::IngestError;
use crate::layout::FolderLayout;
use crate::reads::ReadDescription;

verus! {

/// Where one base-call container lives: its path, and, for segmented CBCL
/// containers, which tile inside the container is meant.
#[derive(Debug, Clone)]
pub struct BclLocator {
    /// The path of the base-call file.
    pub path: String,
    /// The tile index inside a CBCL container; `None` for the one-tile
    /// formats.
    pub cbcl_tile: Option<u32>,
}

/// The base-call files that together hold one tile's calls for one index
/// read, one file per cycle, in cycle-ascending order.
#[derive(Debug)]
pub struct TileBclStack {
    /// The one-based number of the lane this stack is for.
    pub lane_no: i32,
    /// The per-cycle base-call files, in cycle order.
    pub paths: Vec<BclLocator>,
}

/// What the caller found on disk for one lane: the lane directory's path and
/// the tile prototype file names found under its first-cycle directory.
#[derive(Debug)]
pub struct LaneDirectory {
    /// The path of the lane directory, without a trailing separator.
    pub path: String,
    /// The leaf names of the tile prototypes, in the order found; unused by
    /// the one-stack-per-lane layouts.
    pub prototypes: Vec<String>,
}

/// The per-cycle file of the one-stack-per-lane layout:
/// `<lane>/NNNN.bcl.bgzf`, the cycle number zero-padded to four digits.
pub open spec fn spec_miniseq_file(lane: Seq<char>, cycle: int) -> Seq<char> {
    lane + "/"@ + spec_udec_pad4(cycle as nat) + ".bcl.bgzf"@
}

/// The per-cycle file of the per-tile layouts: `<lane>/C<cycle>.1/<leaf>`.
pub open spec fn spec_cycle_file(lane: Seq<char>, cycle: int, leaf: Seq<char>) -> Seq<char> {
    lane + "/C"@ + spec_udec(cycle as nat) + ".1/"@ + leaf
}

/// Append `/` and the zero-padded cycle file name to the lane path.
fn build_miniseq_file(lane: &str, cycle: u32) -> (r: String)
    ensures
        r@ == spec_miniseq_file(lane@, cycle as int),
{
    let mut out = lane.to_owned();
    out.append("/");
    push_udec_pad4(&mut out, cycle);
    out.append(".bcl.bgzf");
    proof {
        assert(out@ =~= spec_miniseq_file(lane@, cycle as int));
    }
    out
}

/// Build `<lane>/C<cycle>.1/<leaf>`.
fn build_cycle_file(lane: &str, cycle: u32, leaf: &str) -> (r: String)
    ensures
        r@ == spec_cycle_file(lane@, cycle as int, leaf@),
{
    let mut out = lane.to_owned();
    out.append("/C");
    push_udec(&mut out, cycle);
    out.append(".1/");
    out.append(leaf);
    proof {
        assert(out@ =~= spec_cycle_file(lane@, cycle as int, leaf@));
    }
    out
}

/// Whether a stack holds, for each cycle of the read, the file the layout
/// places that cycle's calls in.
pub open spec fn spec_stack_paths_miniseq(
    stack: TileBclStack,
    lane: Seq<char>,
    start_cycle: int,
    num_cycles: int,
) -> bool {
    &&& stack.paths@.len() == num_cycles
    &&& forall|t: int|
        0 <= t < num_cycles ==> (#[trigger] stack.paths@[t]).path@ == spec_miniseq_file(
            lane,
            start_cycle + t,
        ) && stack.paths@[t].cbcl_tile is None
}

/// Whether a stack holds the per-tile files of one prototype, one per cycle.
pub open spec fn spec_stack_paths_tiled(
    stack: TileBclStack,
    lane: Seq<char>,
    leaf: Seq<char>,
    start_cycle: int,
    num_cycles: int,
    cbcl_tile: Option<u32>,
) -> bool {
    &&& stack.paths@.len() == num_cycles
    &&& forall|t: int|
        0 <= t < num_cycles ==> (#[trigger] stack.paths@[t]).path@ == spec_cycle_file(
            lane,
            start_cycle + t,
            leaf,
        ) && stack.paths@[t].cbcl_tile == cbcl_tile
}

/// Build one stack of per-cycle files for one lane of the one-stack layout.
fn miniseq_stack(lane: &LaneDirectory, lane_no: i32, start_cycle: u32, num_cycles: u32) -> (r:
    TileBclStack)
    requires
        start_cycle + num_cycles <= u32::MAX,
    ensures
        r.lane_no == lane_no,
        spec_stack_paths_miniseq(r, lane.path@, start_cycle as int, num_cycles as int),
{
    let mut paths: Vec<BclLocator> = Vec::new();
    let mut t: u32 = 0;
    while t < num_cycles
        invariant
            0 <= t <= num_cycles,
            start_cycle + num_cycles <= u32::MAX,
            paths@.len() == t,
            forall|m: int|
                0 <= m < t ==> (#[trigger] paths@[m]).path@ == spec_miniseq_file(
                    lane.path@,
                    start_cycle + m,
                ) && paths@[m].cbcl_tile is None,
        decreases num_cycles - t,
    {
        let file = build_miniseq_file(lane.path.as_str(), start_cycle + t);
        paths.push(BclLocator { path: file, cbcl_tile: Option::None });
        t += 1;
    }
    TileBclStack { lane_no, paths }
}

/// Build one stack of per-cycle files for one prototype of a tiled layout.
fn tiled_stack(
    lane: &LaneDirectory,
    leaf: &str,
    lane_no: i32,
    start_cycle: u32,
    num_cycles: u32,
    cbcl_tile: Option<u32>,
) -> (r: TileBclStack)
    requires
        start_cycle + num_cycles <= u32::MAX,
    ensures
        r.lane_no == lane_no,
        spec_stack_paths_tiled(
            r,
            lane.path@,
            leaf@,
            start_cycle as int,
            num_cycles as int,
            cbcl_tile,
        ),
{
    let mut paths: Vec<BclLocator> = Vec::new();
    let mut t: u32 = 0;
    while t < num_cycles
        invariant
            0 <= t <= num_cycles,
            start_cycle + num_cycles <= u32::MAX,
            paths@.len() == t,
            forall|m: int|
                0 <= m < t ==> (#[trigger] paths@[m]).path@ == spec_cycle_file(
                    lane.path@,
                    start_cycle + m,
                    leaf@,
                ) && paths@[m].cbcl_tile == cbcl_tile,
        decreases num_cycles - t,
    {
        let file = build_cycle_file(lane.path.as_str(), start_cycle + t, leaf);
        paths.push(BclLocator { path: file, cbcl_tile });
        t += 1;
    }
    TileBclStack { lane_no, paths }
}

/// Enumerate the tile base-call stacks to read for one index read.
///
/// The caller lists the lane directories (sorted) and, for the tiled
/// layouts, the prototype leaf names of each lane; the planner builds the
/// per-cycle file names.  Lanes are numbered from one in the given order.
/// The one supported layout without a plan fails with `LayoutUnsupported`.
pub fn find_file_stacks(
    folder_layout: FolderLayout,
    desc: &ReadDescription,
    lanes: &Vec<LaneDirectory>,
    start_cycle: i32,
) -> (r: Result<Vec<Vec<TileBclStack>>, IngestError>)
    requires
        1 <= start_cycle,
        0 <= desc.num_cycles,
        start_cycle + desc.num_cycles <= u32::MAX,
        lanes@.len() < i32::MAX,
    ensures
        folder_layout == FolderLayout::HiSeqX ==> r == Err::<
            Vec<Vec<TileBclStack>>,
            IngestError,
        >(IngestError::LayoutUnsupported),
        folder_layout != FolderLayout::HiSeqX ==> (r matches Ok(stacks) && stacks@.len()
            == lanes@.len()),
        r matches Ok(stacks) ==> forall|i: int|
            0 <= i < lanes@.len() ==> match folder_layout {
                FolderLayout::MiniSeq => (#[trigger] stacks@[i])@.len() == 1 && stacks@[i]@[0].lane_no
                    == i + 1 && spec_stack_paths_miniseq(
                    stacks@[i]@[0],
                    lanes@[i].path@,
                    start_cycle as int,
                    desc.num_cycles as int,
                ),
                FolderLayout::MiSeq => (#[trigger] stacks@[i])@.len()
                    == lanes@[i].prototypes@.len() && forall|j: int|
                    0 <= j < lanes@[i].prototypes@.len() ==> (#[trigger] stacks@[i]@[j]).lane_no == i
                        + 1 && spec_stack_paths_tiled(
                        stacks@[i]@[j],
                        lanes@[i].path@,
                        lanes@[i].prototypes@[j]@,
                        start_cycle as int,
                        desc.num_cycles as int,
                        Option::None,
                    ),
                FolderLayout::NovaSeq => (#[trigger] stacks@[i])@.len()
                    == lanes@[i].prototypes@.len() && forall|j: int|
                    0 <= j < lanes@[i].prototypes@.len() ==> (#[trigger] stacks@[i]@[j]).lane_no == i
                        + 1 && spec_stack_paths_tiled(
                        stacks@[i]@[j],
                        lanes@[i].path@,
                        lanes@[i].prototypes@[j]@,
                        start_cycle as int,
                        desc.num_cycles as int,
                        Option::Some(0u32),
                    ),
                FolderLayout::HiSeqX => false,
            },
{
    if matches!(folder_layout, FolderLayout::HiSeqX) {
        return Err(IngestError::LayoutUnsupported);
    }
    let start: u32 = start_cycle as u32;
    let num: u32 = desc.num_cycles as u32;
    let mut stacks: Vec<Vec<TileBclStack>> = Vec::new();
    let mut i: usize = 0;
    while i < lanes.len()
        invariant
            0 <= i <= lanes.len(),
            lanes@.len() < i32::MAX,
            start == start_cycle,
            num == desc.num_cycles,
            start + num <= u32::MAX,
            !(folder_layout is HiSeqX),
            stacks@.len() == i,
            forall|m: int|
                0 <= m < i ==> match folder_layout {
                    FolderLayout::MiniSeq => (#[trigger] stacks@[m])@.len() == 1
                        && stacks@[m]@[0].lane_no == m + 1 && spec_stack_paths_miniseq(
                        stacks@[m]@[0],
                        lanes@[m].path@,
                        start_cycle as int,
                        desc.num_cycles as int,
                    ),
                    FolderLayout::MiSeq => (#[trigger] stacks@[m])@.len()
                        == lanes@[m].prototypes@.len() && forall|j: int|
                        0 <= j < lanes@[m].prototypes@.len() ==> (#[trigger] stacks@[m]@[j]).lane_no
                            == m + 1 && spec_stack_paths_tiled(
                            stacks@[m]@[j],
                            lanes@[m].path@,
                            lanes@[m].prototypes@[j]@,
                            start_cycle as int,
                            desc.num_cycles as int,
                            Option::None,
                        ),
                    FolderLayout::NovaSeq => (#[trigger] stacks@[m])@.len()
                        == lanes@[m].prototypes@.len() && forall|j: int|
                        0 <= j < lanes@[m].prototypes@.len() ==> (#[trigger] stacks@[m]@[j]).lane_no
                            == m + 1 && spec_stack_paths_tiled(
                            stacks@[m]@[j],
                            lanes@[m].path@,
                            lanes@[m].prototypes@[j]@,
                            start_cycle as int,
                            desc.num_cycles as int,
                            Option::Some(0u32),
                        ),
                    FolderLayout::HiSeqX => false,
                },
        decreases lanes.len() - i,
    {
        let lane = &lanes[i];
        let lane_no: i32 = (i as i32) + 1;
        let mut lane_stacks: Vec<TileBclStack> = Vec::new();
        match folder_layout {
            FolderLayout::MiniSeq => {
                lane_stacks.push(miniseq_stack(lane, lane_no, start, num));
            },
            FolderLayout::MiSeq => {
                let mut j: usize = 0;
                while j < lane.prototypes.len()
                    invariant
                        0 <= j <= lane.prototypes.len(),
                        start + num <= u32::MAX,
                        start == start_cycle,
                        num == desc.num_cycles,
                        lane_no == i + 1,
                        lane_stacks@.len() == j,
                        forall|m: int|
                            0 <= m < j ==> (#[trigger] lane_stacks@[m]).lane_no == lane_no
                                && spec_stack_paths_tiled(
                                lane_stacks@[m],
                                lane.path@,
                                lane.prototypes@[m]@,
                                start_cycle as int,
                                desc.num_cycles as int,
                                Option::None,
                            ),
                    decreases lane.prototypes.len() - j,
                {
                    lane_stacks.push(
                        tiled_stack(
                            lane,
                            lane.prototypes[j].as_str(),
                            lane_no,
                            start,
                            num,
                            Option::None,
                        ),
                    );
                    j += 1;
                }
            },
            FolderLayout::NovaSeq => {
                let mut j: usize = 0;
                while j < lane.prototypes.len()
                    invariant
                        0 <= j <= lane.prototypes.len(),
                        start + num <= u32::MAX,
                        start == start_cycle,
                        num == desc.num_cycles,
                        lane_no == i + 1,
                        lane_stacks@.len() == j,
                        forall|m: int|
                            0 <= m < j ==> (#[trigger] lane_stacks@[m]).lane_no == lane_no
                                && spec_stack_paths_tiled(
                                lane_stacks@[m],
                                lane.path@,
                                lane.prototypes@[m]@,
                                start_cycle as int,
                                desc.num_cycles as int,
                                Option::Some(0u32),
                            ),
                    decreases lane.prototypes.len() - j,
                {
                    lane_stacks.push(
                        tiled_stack(
                            lane,
                            lane.prototypes[j].as_str(),
                            lane_no,
                            start,
                            num,
                            Option::Some(0u32),
                        ),
                    );
                    j += 1;
                }
            },
            FolderLayout::HiSeqX => {
                proof {
                    assert(false);
                }
            },
        }
        stacks.push(lane_stacks);
        i += 1;
    }
    Ok(stacks)
}

/// The tile-stack index the seeded pseudo-random selection draws for a given
/// seed and stack count.
pub uninterp spec fn stack_choice(seed: u64, num_stacks: usize) -> usize;

/// Relies on `rand_xorshift::XorShiftRng::seed_from_u64` and
/// `rand::RngExt::random_range`: a fixed seed yields a reproducible stream
/// on every machine, so the drawn index below the bound is a function of the
/// seed and the bound alone.
#[verifier::external_body]
fn draw_stack_no(seed: u64, num_stacks: usize) -> (r: usize)
    requires
        num_stacks > 0,
    ensures
        r == stack_choice(seed, num_stacks),
        r < num_stacks,
{
    let mut rng = rand_xorshift::XorShiftRng::seed_from_u64(seed);
    rand::RngExt::random_range(&mut rng, 0..num_stacks)
}

/// Choose which tile stack to sample: the seeded selection over the number
/// of stacks of the first lane.  `None` when there is no stack to choose
/// from.  For a fixed seed and stack count the choice is reproducible.
pub fn choose_stack_no(seed: u64, num_stacks: usize) -> (r: Option<usize>)
    ensures
        num_stacks == 0 ==> r is None,
        num_stacks > 0 ==> (r matches Some(v) && v == stack_choice(seed, num_stacks) && v
            < num_stacks),
{
    if num_stacks == 0 {
        Option::None
    } else {
        Option::Some(draw_stack_no(seed, num_stacks))
    }
}

/// Copy one base-call locator, value for value.
fn clone_locator(l: &BclLocator) -> (r: BclLocator)
    ensures
        r == *l,
{
    BclLocator { path: l.path.clone(), cbcl_tile: l.cbcl_tile }
}

/// What one lane's chosen stack must be: the stack the planner builds for
/// this lane at the picked position — the lane's single stack for the
/// one-stack layout, the `pick`-th prototype's stack for the tiled layouts.
pub open spec fn spec_sampled_stack(
    stack: TileBclStack,
    lane: LaneDirectory,
    lane_no: int,
    folder_layout: FolderLayout,
    start_cycle: int,
    num_cycles: int,
    pick: int,
) -> bool {
    &&& stack.lane_no == lane_no
    &&& match folder_layout {
        FolderLayout::MiniSeq => spec_stack_paths_miniseq(
            stack,
            lane.path@,
            start_cycle,
            num_cycles,
        ),
        FolderLayout::MiSeq => pick < lane.prototypes@.len() && spec_stack_paths_tiled(
            stack,
            lane.path@,
            lane.prototypes@[pick]@,
            start_cycle,
            num_cycles,
            Option::None,
        ),
        FolderLayout::NovaSeq => pick < lane.prototypes@.len() && spec_stack_paths_tiled(
            stack,
            lane.path@,
            lane.prototypes@[pick]@,
            start_cycle,
            num_cycles,
            Option::Some(0u32),
        ),
        FolderLayout::HiSeqX => false,
    }
}

/// Whether sampling can be planned: there is a lane, the first lane offers
/// a stack to choose from, and every lane has a stack at the drawn
/// position.  The one-stack layout always has exactly that one position;
/// the tiled layouts draw over the first lane's prototypes.
pub open spec fn spec_sampling_possible(
    folder_layout: FolderLayout,
    lanes: Seq<LaneDirectory>,
    seed: u64,
) -> bool {
    &&& lanes.len() > 0
    &&& match folder_layout {
        FolderLayout::MiniSeq => true,
        FolderLayout::MiSeq => lanes[0].prototypes@.len() > 0 && forall|i: int|
            0 <= i < lanes.len() ==> stack_choice(seed, lanes[0].prototypes@.len() as usize) < (
            #[trigger] lanes[i]).prototypes@.len(),
        FolderLayout::NovaSeq => lanes[0].prototypes@.len() > 0 && forall|i: int|
            0 <= i < lanes.len() ==> stack_choice(seed, lanes[0].prototypes@.len() as usize) < (
            #[trigger] lanes[i]).prototypes@.len(),
        FolderLayout::HiSeqX => false,
    }
}

/// Plan the sampling of one index read: enumerate every lane's tile stacks
/// and pick, with the seeded selection over the first lane's stack count,
/// the same stack position in every lane.
///
/// Fails like the planner for an unsupported layout; otherwise the call
/// succeeds exactly when `spec_sampling_possible` holds: there is a lane,
/// the first lane offers a stack, and no lane has fewer stacks than the
/// drawn position.
#[verifier::loop_isolation(false)]
pub fn sample_adapters_plan(
    folder_layout: FolderLayout,
    desc: &ReadDescription,
    lanes: &Vec<LaneDirectory>,
    start_cycle: i32,
    seed: u64,
) -> (r: Result<Vec<TileBclStack>, IngestError>)
    requires
        1 <= start_cycle,
        0 <= desc.num_cycles,
        start_cycle + desc.num_cycles <= u32::MAX,
        lanes@.len() < i32::MAX,
    ensures
        folder_layout == FolderLayout::HiSeqX ==> r == Err::<Vec<TileBclStack>, IngestError>(
            IngestError::LayoutUnsupported,
        ),
        folder_layout != FolderLayout::HiSeqX ==> (r is Ok <==> spec_sampling_possible(
            folder_layout,
            lanes@,
            seed,
        )),
        r matches Err(e) ==> e == IngestError::LayoutUnsupported || e == IngestError::IoError,
        r matches Ok(chosen) ==> lanes@.len() > 0 && chosen@.len() == lanes@.len() && forall|i: int|
            0 <= i < lanes@.len() ==> #[trigger] spec_sampled_stack(
                chosen@[i],
                lanes@[i],
                i + 1,
                folder_layout,
                start_cycle as int,
                desc.num_cycles as int,
                stack_choice(seed, lanes@[0].prototypes@.len() as usize) as int,
            ),
{
    let stacks = find_file_stacks(folder_layout, desc, lanes, start_cycle)?;
    if stacks.len() == 0 {
        return Err(IngestError::IoError);
    }
    let stack_no = match choose_stack_no(seed, stacks[0].len()) {
        Option::Some(v) => v,
        Option::None => {
            return Err(IngestError::IoError);
        },
    };
    let mut chosen: Vec<TileBclStack> = Vec::new();
    let mut i: usize = 0;
    while i < stacks.len()
        invariant
            0 <= i <= stacks@.len(),
            stacks@.len() == lanes@.len(),
            !(folder_layout is HiSeqX),
            chosen@.len() == i,
            forall|m: int|
                0 <= m < i ==> stack_no < (#[trigger] stacks@[m])@.len()
                    && chosen@[m].lane_no == stacks@[m]@[stack_no as int].lane_no
                    && chosen@[m].paths@ == stacks@[m]@[stack_no as int].paths@,
        decreases stacks.len() - i,
    {
        let lane_stacks = &stacks[i];
        if stack_no >= lane_stacks.len() {
            // This lane has fewer tile stacks than the chosen position.
            proof {
                assert(!spec_sampling_possible(folder_layout, lanes@, seed));
            }
            return Err(IngestError::IoError);
        }
        let src = &lane_stacks[stack_no];
        let mut paths: Vec<BclLocator> = Vec::new();
        let mut t: usize = 0;
        while t < src.paths.len()
            invariant
                0 <= t <= src.paths@.len(),
                paths@.len() == t,
                forall|m: int| 0 <= m < t ==> #[trigger] paths@[m] == src.paths@[m],
            decreases src.paths.len() - t,
        {
            paths.push(clone_locator(&src.paths[t]));
            t += 1;
        }
        proof {
            assert(paths@ =~= src.paths@);
        }
        chosen.push(TileBclStack { lane_no: src.lane_no, paths });
        i += 1;
    }
    proof {
        let n0 = stacks@[0]@.len() as usize;
        assert forall|i2: int| 0 <= i2 < lanes@.len() implies #[trigger] spec_sampled_stack(
            chosen@[i2],
            lanes@[i2],
            i2 + 1,
            folder_layout,
            start_cycle as int,
            desc.num_cycles as int,
            stack_choice(seed, lanes@[0].prototypes@.len() as usize) as int,
        ) by {
            let picked = stacks@[i2]@[stack_no as int];
            assert(chosen@[i2].lane_no == picked.lane_no);
            assert(chosen@[i2].paths@ == picked.paths@);
            match folder_layout {
                FolderLayout::MiniSeq => {
                    assert(stack_no == 0);
                    assert(spec_stack_paths_miniseq(
                        picked,
                        lanes@[i2].path@,
                        start_cycle as int,
                        desc.num_cycles as int,
                    ));
                    assert(spec_stack_paths_miniseq(
                        chosen@[i2],
                        lanes@[i2].path@,
                        start_cycle as int,
                        desc.num_cycles as int,
                    ));
                },
                FolderLayout::MiSeq => {
                    assert(n0 == lanes@[0].prototypes@.len());
                    assert(stack_no == stack_choice(seed, n0));
                    assert(spec_stack_paths_tiled(
                        picked,
                        lanes@[i2].path@,
                        lanes@[i2].prototypes@[stack_no as int]@,
                        start_cycle as int,
                        desc.num_cycles as int,
                        Option::None,
                    ));
                    assert(spec_stack_paths_tiled(
                        chosen@[i2],
                        lanes@[i2].path@,
                        lanes@[i2].prototypes@[stack_no as int]@,
                        start_cycle as int,
                        desc.num_cycles as int,
                        Option::None,
                    ));
                },
                FolderLayout::NovaSeq => {
                    assert(n0 == lanes@[0].prototypes@.len());
                    assert(stack_no == stack_choice(seed, n0));
                    assert(spec_stack_paths_tiled(
                        picked,
                        lanes@[i2].path@,
                        lanes@[i2].prototypes@[stack_no as int]@,
                        start_cycle as int,
                        desc.num_cycles as int,
                        Option::Some(0u32),
                    ));
                    assert(spec_stack_paths_tiled(
                        chosen@[i2],
                        lanes@[i2].path@,
                        lanes@[i2].prototypes@[stack_no as int]@,
                        start_cycle as int,
                        desc.num_cycles as int,
                        Option::Some(0u32),
                    ));
                },
                FolderLayout::HiSeqX => {
                    assert(false);
                },
            }
        };
        assert(spec_sampling_possible(folder_layout, lanes@, seed)) by {
            match folder_layout {
                FolderLayout::MiniSeq => {
                },
                FolderLayout::MiSeq => {
                    assert(n0 == lanes@[0].prototypes@.len());
                    assert forall|i3: int|
                        0 <= i3 < lanes@.len() implies stack_choice(
                        seed,
                        lanes@[0].prototypes@.len() as usize,
                    ) < (#[trigger] lanes@[i3]).prototypes@.len() by {
                        assert(stack_no < stacks@[i3]@.len());
                    };
                },
                FolderLayout::NovaSeq => {
                    assert(n0 == lanes@[0].prototypes@.len());
                    assert forall|i3: int|
                        0 <= i3 < lanes@.len() implies stack_choice(
                        seed,
                        lanes@[0].prototypes@.len() as usize,
                    ) < (#[trigger] lanes@[i3]).prototypes@.len() by {
                        assert(stack_no < stacks@[i3]@.len());
                    };
                },
                FolderLayout::HiSeqX => {
                    assert(false);
                },
            }
        };
    }
    Ok(chosen)
}

/// One index read to sample: its one-based index number among the index
/// reads, the one-based cycle at which it starts, and its cycle count.
#[derive(Clone, Copy, PartialEq, Eq, Structural, Debug)]
pub struct IndexRead {
    /// One-based position among the index reads alone.
    pub index_no: i32,
    /// One-based cycle at which the read begins.
    pub start_cycle: i32,
    /// How many cycles the read spans.
    pub num_cycles: i32,
}

/// The sum of the cycle counts of the reads from index `i` on.
pub open spec fn spec_cycles_from(reads: Seq<ReadDescription>, i: int) -> int
    decreases reads.len() - i when 0 <= i <= reads.len()
{
    if i == reads.len() {
        0
    } else {
        reads[i].num_cycles + spec_cycles_from(reads, i + 1)
    }
}

/// The plan entries for the reads from index `i` on, when the walk arrives
/// there with the given running cycle and index count.
pub open spec fn spec_plan_from(
    reads: Seq<ReadDescription>,
    i: int,
    cycle: int,
    index_no: int,
) -> Seq<IndexRead>
    decreases reads.len() - i when 0 <= i <= reads.len()
{
    if i == reads.len() {
        Seq::empty()
    } else {
        let head: Seq<IndexRead> = if reads[i].is_index {
            seq![
                IndexRead {
                    index_no: (index_no + 1) as i32,
                    start_cycle: cycle as i32,
                    num_cycles: reads[i].num_cycles,
                },
            ]
        } else {
            Seq::empty()
        };
        let next_index: int = if reads[i].is_index {
            index_no + 1
        } else {
            index_no
        };
        head + spec_plan_from(reads, i + 1, cycle + reads[i].num_cycles, next_index)
    }
}

/// The sampling plan of a run: one entry per index read, with its index
/// number and start cycle.  The walk starts at cycle one — the first cycle
/// is always discarded — and advances by each read's cycle count whether or
/// not the read is an index.
pub open spec fn spec_index_plan(reads: Seq<ReadDescription>) -> Seq<IndexRead> {
    spec_plan_from(reads, 0, 1, 0)
}

/// The suffix cycle sums are non-negative for well-formed reads.
proof fn lemma_cycles_from_nonneg(reads: Seq<ReadDescription>, i: int)
    requires
        0 <= i <= reads.len(),
        crate::reads::spec_reads_wf(reads),
    ensures
        spec_cycles_from(reads, i) >= 0,
    decreases reads.len() - i,
{
    if i < reads.len() {
        lemma_cycles_from_nonneg(reads, i + 1);
    }
}

/// Walk the reads and plan the index samplings, as `spec_index_plan` says.
pub fn index_read_plan(reads: &Vec<ReadDescription>) -> (r: Vec<IndexRead>)
    requires
        crate::reads::spec_reads_wf(reads@),
        reads@.len() < i32::MAX,
        1 + spec_cycles_from(reads@, 0) <= i32::MAX,
    ensures
        r@ == spec_index_plan(reads@),
{
    let mut out: Vec<IndexRead> = Vec::new();
    let mut cycle: i32 = 1;
    let mut index_no: i32 = 0;
    let mut i: usize = 0;
    while i < reads.len()
        invariant
            0 <= i <= reads.len(),
            reads@.len() < i32::MAX,
            crate::reads::spec_reads_wf(reads@),
            0 <= index_no <= i,
            1 <= cycle,
            cycle + spec_cycles_from(reads@, i as int) <= i32::MAX,
            spec_index_plan(reads@) == out@ + spec_plan_from(
                reads@,
                i as int,
                cycle as int,
                index_no as int,
            ),
        decreases reads.len() - i,
    {
        let rd = reads[i];
        proof {
            lemma_cycles_from_nonneg(reads@, i + 1);
        }
        if rd.is_index {
            index_no += 1;
            let entry = IndexRead { index_no, start_cycle: cycle, num_cycles: rd.num_cycles };
            proof {
                let tail = spec_plan_from(
                    reads@,
                    i + 1,
                    cycle as int + rd.num_cycles,
                    index_no as int,
                );
                assert(out@ + (seq![entry] + tail) =~= (out@ + seq![entry]) + tail);
                assert(out@.push(entry) =~= out@ + seq![entry]);
            }
            out.push(entry);
        }
        cycle += rd.num_cycles;
        i += 1;
    }
    proof {
        assert(spec_plan_from(reads@, reads@.len() as int, cycle as int, index_no as int)
            =~= Seq::<IndexRead>::empty());
        assert(out@ + Seq::<IndexRead>::empty() =~= out@);
    }
    out
}

} // verus!
