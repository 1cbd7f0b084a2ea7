//! How water and lava spread: one update of a fluid block reads the blocks
//! around it, changes blocks, queues the positions whose neighbours
//! changed, and reports each change and each fizz to the server.

use vstd::prelude::*;
use crate::world::blocks::{Block, BlockPos};
use crate::world::fluid::{fluid_id, fluid_of, is_replaceable, replaceable_id, Fluid, FluidKind};
use crate::world::generator::FlatWorldGenerator;
use crate::world::world_blocks::{after_set, chunk_of, world_block, ChunkPos, WorldBlocks};

verus! {

/// A queued position: x, y, z.
pub type QueuePos = (i32, i32, i32);

/// What an update reports to the server.
#[derive(Debug, Clone, Copy, PartialEq, Eq, Structural)]
pub enum FluidEffect {
    /// A block changed; players are told.
    SetBlock { x: i32, y: i32, z: i32, id: i32, metadata: u8 },
    /// Lava met water: the fizz sound at the centre of the block.
    Fizz { x: i32, y: i32, z: i32 },
}

/// What an update works on: the changed blocks and changed chunks of the
/// world, the queue of positions to update, and the effects so far.
pub struct SimView {
    pub modified: Map<BlockPos, Block>,
    pub dirty: Seq<ChunkPos>,
    pub queue: Seq<QueuePos>,
    pub effects: Seq<FluidEffect>,
}

/// The view of a world, a queue and the effects.
pub open spec fn view_of(w: WorldBlocks, q: Seq<QueuePos>, e: Seq<FluidEffect>) -> SimView {
    SimView { modified: w.modified(), dirty: w.dirty(), queue: q, effects: e }
}

/// Coordinates an update may start from: at least 16 blocks inside the
/// range of `i32` horizontally, so that no neighbour it reads overflows.
pub open spec fn coords_ok(x: int, z: int) -> bool {
    coords_near(x, z, 0)
}

/// Coordinates within `d` blocks of those an update may start from.
pub open spec fn coords_near(x: int, z: int, d: int) -> bool {
    -0x7fff_fff0 - d <= x <= 0x7fff_fff0 + d && -0x7fff_fff0 - d <= z <= 0x7fff_fff0 + d
}

/// The horizontal directions in order: -x, +x, -z, +z.
pub open spec fn dir_dx(i: int) -> int {
    if i == 0 {
        -1
    } else if i == 1 {
        1
    } else {
        0
    }
}

pub open spec fn dir_dz(i: int) -> int {
    if i == 2 {
        -1
    } else if i == 3 {
        1
    } else {
        0
    }
}

/// The direction back where one came from.
pub open spec fn opposite(d: int) -> int {
    if d == 0 {
        1
    } else if d == 1 {
        0
    } else if d == 2 {
        3
    } else {
        2
    }
}

/// The block at (`x`, `y`, `z`), for `y` within 0 to 255.
pub open spec fn block_in(m: Map<BlockPos, Block>, cached: Map<ChunkPos, Seq<u8>>, g: FlatWorldGenerator, x: int, y: int, z: int) -> Block {
    world_block(m, cached, g, (x as i32, y as u8, z as i32))
}

/// Whether two block ids are fluids of one kind.
pub open spec fn same_kind_ids(a: u8, b: u8) -> bool {
    match (fluid_of(a), fluid_of(b)) {
        (Some(fa), Some(fb)) => fa.kind == fb.kind,
        _ => false,
    }
}

pub open spec fn is_fluid_id(id: u8) -> bool {
    8 <= id <= 11
}

pub open spec fn is_water_id(id: u8) -> bool {
    id == 8 || id == 9
}

/// A source block: a fluid whose metadata is zero in its low four bits.
pub open spec fn is_source_block(b: Block) -> bool {
    is_fluid_id(b.id) && b.metadata % 16 == 0
}

/// The decay of the fluid at a position: its metadata when it holds fluid
/// of the kind of `f`, else -1 (also outside the world's height).
pub open spec fn decay_of(m: Map<BlockPos, Block>, cached: Map<ChunkPos, Seq<u8>>, g: FlatWorldGenerator, f: Fluid, x: int, y: int, z: int) -> int {
    if y < 0 || y > 255 {
        -1
    } else {
        let b = block_in(m, cached, g, x, y, z);
        if same_kind_ids(b.id, fluid_id(f)) {
            b.metadata as int
        } else {
            -1
        }
    }
}

/// One step of finding the smallest neighbouring decay: a neighbour
/// without fluid is skipped, a source is counted, a falling decay counts
/// as 0. Gives the new smallest decay and the new count of sources.
pub open spec fn fold_decay(nd: int, current: int, sources: int) -> (int, int) {
    if nd < 0 {
        (current, sources)
    } else {
        let s = if nd == 0 {
            sources + 1
        } else {
            sources
        };
        let d = if nd >= 8 {
            0
        } else {
            nd
        };
        (if current >= 0 && d >= current {
            current
        } else {
            d
        }, s)
    }
}

/// Whether a position stops fluid: outside the world's height, or a block
/// that is neither air, replaceable nor fluid.
pub open spec fn blocked(m: Map<BlockPos, Block>, cached: Map<ChunkPos, Seq<u8>>, g: FlatWorldGenerator, x: int, y: int, z: int) -> bool {
    if y < 0 || y > 255 {
        true
    } else {
        let b = block_in(m, cached, g, x, y, z);
        !(b.id == 0 || replaceable_id(b.id) || is_fluid_id(b.id))
    }
}

/// Whether fluid `f` may flow into a position: within the height, not its
/// own kind, not lava, and not blocked.
pub open spec fn flows_into(m: Map<BlockPos, Block>, cached: Map<ChunkPos, Seq<u8>>, g: FlatWorldGenerator, f: Fluid, x: int, y: int, z: int) -> bool {
    if y < 0 || y > 255 {
        false
    } else {
        let b = block_in(m, cached, g, x, y, z);
        if same_kind_ids(b.id, fluid_id(f)) {
            false
        } else if b.id == 10 || b.id == 11 {
            false
        } else {
            !blocked(m, cached, g, x, y, z)
        }
    }
}

/// The queue once the position and its six neighbours within the world's
/// height are queued, each unless already there.
pub open spec fn queue_push(q: Seq<QueuePos>, p: (int, int, int)) -> Seq<QueuePos> {
    let e = (p.0 as i32, p.1 as i32, p.2 as i32);
    if 0 <= p.1 <= 255 && !q.contains(e) {
        q.push(e)
    } else {
        q
    }
}

pub open spec fn queue_after(q: Seq<QueuePos>, x: int, y: int, z: int) -> Seq<QueuePos> {
    let q1 = queue_push(q, (x, y, z));
    let q2 = queue_push(q1, (x, y + 1, z));
    let q3 = queue_push(q2, (x, y - 1, z));
    let q4 = queue_push(q3, (x + 1, y, z));
    let q5 = queue_push(q4, (x - 1, y, z));
    let q6 = queue_push(q5, (x, y, z + 1));
    queue_push(q6, (x, y, z - 1))
}

/// Sets a block: the world changes, players are told, and the position
/// and its neighbours are queued.
pub open spec fn with_block(v: SimView, g: FlatWorldGenerator, x: int, y: int, z: int, id: u8, meta: u8) -> SimView {
    let p = (x as i32, y as u8, z as i32);
    SimView {
        modified: after_set(v.modified, g, p, Block { id, metadata: meta }),
        dirty: if v.dirty.contains(chunk_of(p)) {
            v.dirty
        } else {
            v.dirty.push(chunk_of(p))
        },
        queue: queue_after(v.queue, x, y, z),
        effects: v.effects.push(FluidEffect::SetBlock { x: x as i32, y: y as i32, z: z as i32, id: id as i32, metadata: meta }),
    }
}

/// Reports the fizz of lava meeting water.
pub open spec fn with_fizz(v: SimView, x: int, y: int, z: int) -> SimView {
    SimView { effects: v.effects.push(FluidEffect::Fizz { x: x as i32, y: y as i32, z: z as i32 }), ..v }
}

/// Fluid `f` flows into a position with the given decay, where it may;
/// lava fizzes as it does.
pub open spec fn after_flow(v: SimView, cached: Map<ChunkPos, Seq<u8>>, g: FlatWorldGenerator, x: int, y: int, z: int, f: Fluid, decay: u8) -> SimView {
    if !flows_into(v.modified, cached, g, f, x, y, z) {
        v
    } else {
        let v1 = if f.kind == FluidKind::Lava {
            with_fizz(v, x, y, z)
        } else {
            v
        };
        with_block(v1, g, x, y, z, fluid_id(Fluid { kind: f.kind, flowing: true }), decay)
    }
}

/// How much decay a fluid gains a block: 1 for water, 2 for lava.
pub open spec fn decay_step_of(f: Fluid) -> int {
    if f.kind == FluidKind::Water {
        1
    } else {
        2
    }
}

/// Whether what lies under a position holds water up: the bottom of the
/// world, a solid block, or a source of the same fluid.
pub open spec fn solid_or_source_below(m: Map<BlockPos, Block>, cached: Map<ChunkPos, Seq<u8>>, g: FlatWorldGenerator, x: int, y: int, z: int, f: Fluid) -> bool {
    if y == 0 {
        true
    } else {
        let below = block_in(m, cached, g, x, y - 1, z);
        let solid = below.id != 0 && !replaceable_id(below.id) && !is_fluid_id(below.id);
        let same_source = same_kind_ids(below.id, fluid_id(f)) && is_source_block(below);
        solid || same_source
    }
}

/// What lava becomes beside water (at its sides or above it): obsidian (49)
/// from a source, cobblestone (4) otherwise. `None` for water, or lava with
/// no water beside it.
pub open spec fn reaction(m: Map<BlockPos, Block>, cached: Map<ChunkPos, Seq<u8>>, g: FlatWorldGenerator, x: int, y: int, z: int, f: Fluid, meta: u8) -> Option<u8> {
    if f.kind != FluidKind::Lava {
        None
    } else {
        let water_adjacent = is_water_id(block_in(m, cached, g, x - 1, y, z).id) || is_water_id(
            block_in(m, cached, g, x + 1, y, z).id,
        ) || is_water_id(block_in(m, cached, g, x, y, z - 1).id) || is_water_id(block_in(m, cached, g, x, y, z + 1).id)
            || (y < 255 && is_water_id(block_in(m, cached, g, x, y + 1, z).id));
        if !water_adjacent {
            None
        } else if is_source_block(Block { id: fluid_id(f), metadata: meta }) {
            Some(49u8)
        } else {
            Some(4u8)
        }
    }
}

/// Whether fluid could pass a position when looking for a way down: not
/// blocked, and not a source of its own kind.
pub open spec fn passable_at(m: Map<BlockPos, Block>, cached: Map<ChunkPos, Seq<u8>>, g: FlatWorldGenerator, x: int, y: int, z: int, f: Fluid) -> bool {
    if blocked(m, cached, g, x, y, z) {
        false
    } else {
        let b = block_in(m, cached, g, x, y, z);
        if same_kind_ids(b.id, fluid_id(f)) {
            !is_source_block(b)
        } else {
            true
        }
    }
}

/// The distance to the nearest way down from (`x`, `y`, `z`), `depth`
/// steps from where the search began and entered from direction `from`:
/// the directions from `i` on are tried, each passable one that is open
/// below gives `depth`, the others are searched further while `depth` is
/// under 4; 1000 when none is found. `best` is the least found so far.
pub open spec fn flow_cost_from(
    m: Map<BlockPos, Block>,
    cached: Map<ChunkPos, Seq<u8>>,
    g: FlatWorldGenerator,
    x: int,
    y: int,
    z: int,
    depth: int,
    from: int,
    f: Fluid,
    i: int,
    best: int,
) -> int
    decreases 4 - depth, 4 - i,
{
    if i >= 4 || i < 0 {
        best
    } else if i == opposite(from) {
        flow_cost_from(m, cached, g, x, y, z, depth, from, f, i + 1, best)
    } else {
        let nx = x + dir_dx(i);
        let nz = z + dir_dz(i);
        if !passable_at(m, cached, g, nx, y, nz, f) {
            flow_cost_from(m, cached, g, x, y, z, depth, from, f, i + 1, best)
        } else if !blocked(m, cached, g, nx, y - 1, nz) {
            depth
        } else if depth < 4 {
            let c = flow_cost_from(m, cached, g, nx, y, nz, depth + 1, i, f, 0, 1000);
            flow_cost_from(m, cached, g, x, y, z, depth, from, f, i + 1, if c < best { c } else { best })
        } else {
            flow_cost_from(m, cached, g, x, y, z, depth, from, f, i + 1, best)
        }
    }
}

/// The cost of spreading in direction `i`: 1000 when the neighbour cannot
/// be passed, 0 when it is open below, else the distance to a way down.
pub open spec fn dir_cost(m: Map<BlockPos, Block>, cached: Map<ChunkPos, Seq<u8>>, g: FlatWorldGenerator, x: int, y: int, z: int, f: Fluid, i: int) -> int {
    let nx = x + dir_dx(i);
    let nz = z + dir_dz(i);
    if !passable_at(m, cached, g, nx, y, nz, f) {
        1000
    } else if blocked(m, cached, g, nx, y - 1, nz) {
        flow_cost_from(m, cached, g, nx, y, nz, 1, i, f, 0, 1000)
    } else {
        0
    }
}

pub open spec fn min2(a: int, b: int) -> int {
    if a <= b {
        a
    } else {
        b
    }
}

/// The directions fluid spreads in: those of least cost.
pub open spec fn flow_dirs(m: Map<BlockPos, Block>, cached: Map<ChunkPos, Seq<u8>>, g: FlatWorldGenerator, x: int, y: int, z: int, f: Fluid) -> Seq<bool> {
    let c0 = dir_cost(m, cached, g, x, y, z, f, 0);
    let c1 = dir_cost(m, cached, g, x, y, z, f, 1);
    let c2 = dir_cost(m, cached, g, x, y, z, f, 2);
    let c3 = dir_cost(m, cached, g, x, y, z, f, 3);
    let m = min2(min2(c0, c1), min2(c2, c3));
    seq![c0 == m, c1 == m, c2 == m, c3 == m]
}

/// Fluid falls into the block below where it can (lava above water turns
/// that water to stone, with a fizz); else, from a source or over a
/// blocked floor, it spreads sideways in its best directions with one more
/// step of decay, up to a decay of 7.
pub open spec fn spread_phase(v: SimView, cached: Map<ChunkPos, Seq<u8>>, g: FlatWorldGenerator, x: int, y: int, z: int, f: Fluid, l: int) -> SimView {
    if y > 0 && flows_into(v.modified, cached, g, f, x, y - 1, z) {
        if f.kind == FluidKind::Lava && is_water_id(block_in(v.modified, cached, g, x, y - 1, z).id) {
            with_fizz(with_block(v, g, x, y - 1, z, 1, 0), x, y - 1, z)
        } else {
            let nd = if l >= 8 {
                l
            } else {
                l + 8
            };
            after_flow(v, cached, g, x, y - 1, z, f, nd as u8)
        }
    } else if l >= 0 && (l == 0 || blocked(v.modified, cached, g, x, y - 1, z)) {
        let dirs = flow_dirs(v.modified, cached, g, x, y, z, f);
        let j = if l >= 8 {
            1
        } else {
            l + decay_step_of(f)
        };
        if j >= 8 {
            v
        } else {
            let v1 = if dirs[0] {
                after_flow(v, cached, g, x - 1, y, z, f, j as u8)
            } else {
                v
            };
            let v2 = if dirs[1] {
                after_flow(v1, cached, g, x + 1, y, z, f, j as u8)
            } else {
                v1
            };
            let v3 = if dirs[2] {
                after_flow(v2, cached, g, x, y, z - 1, f, j as u8)
            } else {
                v2
            };
            if dirs[3] {
                after_flow(v3, cached, g, x, y, z + 1, f, j as u8)
            } else {
                v3
            }
        }
    } else {
        v
    }
}

/// The decay a flowing block takes from its neighbours: one step more than
/// the least decay beside it (none past 7), falling (8 and over) under
/// fluid of its kind, and a new source between two sources of water over a
/// floor that holds it; -1 when it dries up.
pub open spec fn new_decay(m: Map<BlockPos, Block>, cached: Map<ChunkPos, Seq<u8>>, g: FlatWorldGenerator, x: int, y: int, z: int, f: Fluid) -> int {
    let a0 = fold_decay(decay_of(m, cached, g, f, x - 1, y, z), -100, 0);
    let a1 = fold_decay(decay_of(m, cached, g, f, x + 1, y, z), a0.0, a0.1);
    let a2 = fold_decay(decay_of(m, cached, g, f, x, y, z - 1), a1.0, a1.1);
    let a3 = fold_decay(decay_of(m, cached, g, f, x, y, z + 1), a2.0, a2.1);
    let k1 = a3.0;
    let sources = a3.1;
    let j1 = if k1 + decay_step_of(f) >= 8 || k1 < 0 {
        -1
    } else {
        k1 + decay_step_of(f)
    };
    let above = decay_of(m, cached, g, f, x, y + 1, z);
    let j2 = if above >= 0 {
        if above >= 8 {
            above
        } else {
            above + 8
        }
    } else {
        j1
    };
    if sources >= 2 && f.kind == FluidKind::Water && solid_or_source_below(m, cached, g, x, y, z, f) {
        0
    } else {
        j2
    }
}

/// One update of the fluid block `f` with metadata `meta` at (`x`, `y`,
/// `z`): lava beside water hardens; a flowing block takes its new decay
/// (drying up at -1); then the fluid falls or spreads.
pub open spec fn tick_result(v: SimView, cached: Map<ChunkPos, Seq<u8>>, g: FlatWorldGenerator, x: int, y: int, z: int, f: Fluid, meta: u8) -> SimView {
    match reaction(v.modified, cached, g, x, y, z, f, meta) {
        Some(conv) => with_fizz(with_block(v, g, x, y, z, conv, 0), x, y, z),
        None => {
            let l = meta as int;
            if l > 0 {
                let j = new_decay(v.modified, cached, g, x, y, z, f);
                if j != l {
                    if j < 0 {
                        with_block(v, g, x, y, z, 0, 0)
                    } else {
                        spread_phase(
                            with_block(v, g, x, y, z, fluid_id(Fluid { kind: f.kind, flowing: true }), j as u8),
                            cached,
                            g,
                            x,
                            y,
                            z,
                            f,
                            j,
                        )
                    }
                } else {
                    spread_phase(v, cached, g, x, y, z, f, l)
                }
            } else {
                spread_phase(v, cached, g, x, y, z, f, l)
            }
        },
    }
}

/// Whether a queued position is updated: within the world's height and
/// where its neighbours' coordinates fit (positions within 16 blocks of the
/// limits of `i32` are dropped).
pub open spec fn updatable(p: QueuePos) -> bool {
    0 <= p.1 <= 255 && coords_ok(p.0 as int, p.2 as int)
}

/// How often a fluid moves: water every 5 ticks, lava every 30.
pub open spec fn fluid_rate(f: Fluid) -> int {
    if f.kind == FluidKind::Water {
        5
    } else {
        30
    }
}

/// Processes the queued positions of `batch` from the `i`-th on: a
/// position that is not fluid is dropped, fluid whose rate does not divide
/// `tick` is queued again at the back, other fluid is updated.
pub open spec fn batch_from(
    v: SimView,
    cached: Map<ChunkPos, Seq<u8>>,
    g: FlatWorldGenerator,
    batch: Seq<QueuePos>,
    i: int,
    tick: u64,
) -> SimView
    decreases batch.len() - i,
{
    if i >= batch.len() || i < 0 {
        v
    } else {
        let p = batch[i];
        let next = if !updatable(p) {
            v
        } else {
            let b = world_block(v.modified, cached, g, (p.0, p.1 as u8, p.2));
            match fluid_of(b.id) {
                None => v,
                Some(f) => if tick as int % fluid_rate(f) != 0 {
                    SimView { queue: v.queue.push(p), ..v }
                } else {
                    tick_result(v, cached, g, p.0 as int, p.1 as int, p.2 as int, f, b.metadata)
                },
            }
        };
        batch_from(next, cached, g, batch, i + 1, tick)
    }
}

/// How many positions one round takes from the front of the queue: at
/// most 200.
pub open spec fn batch_len(q: Seq<QueuePos>) -> int {
    if q.len() < 200 {
        q.len() as int
    } else {
        200
    }
}

/// One round of the fluid task at `tick`: the first positions of the queue
/// (at most 200) are taken off and processed in order.
pub open spec fn round_result(v: SimView, cached: Map<ChunkPos, Seq<u8>>, g: FlatWorldGenerator, tick: u64) -> SimView {
    let n = batch_len(v.queue);
    batch_from(SimView { queue: v.queue.skip(n), ..v }, cached, g, v.queue.take(n), 0, tick)
}

proof fn lemma_queue_push(q: Seq<QueuePos>, p: (int, int, int))
    requires
        q.no_duplicates(),
        forall|i: int| 0 <= i < q.len() ==> 0 <= (#[trigger] q[i]).1 <= 255,
    ensures
        queue_push(q, p).no_duplicates(),
        forall|i: int| 0 <= i < queue_push(q, p).len() ==> 0 <= (#[trigger] queue_push(q, p)[i]).1 <= 255,
        q.len() <= queue_push(q, p).len() <= q.len() + 1,
{
}

/// Queueing a position and its neighbours keeps every queued position
/// within the world's height and queues none twice.
pub proof fn law_queue_stays_in_height_and_distinct(q: Seq<QueuePos>, x: int, y: int, z: int)
    requires
        q.no_duplicates(),
        forall|i: int| 0 <= i < q.len() ==> 0 <= (#[trigger] q[i]).1 <= 255,
    ensures
        queue_after(q, x, y, z).no_duplicates(),
        forall|i: int| 0 <= i < queue_after(q, x, y, z).len() ==> 0 <= (#[trigger] queue_after(q, x, y, z)[i]).1 <= 255,
        queue_after(q, x, y, z).len() <= q.len() + 7,
{
    let q1 = queue_push(q, (x, y, z));
    lemma_queue_push(q, (x, y, z));
    let q2 = queue_push(q1, (x, y + 1, z));
    lemma_queue_push(q1, (x, y + 1, z));
    let q3 = queue_push(q2, (x, y - 1, z));
    lemma_queue_push(q2, (x, y - 1, z));
    let q4 = queue_push(q3, (x + 1, y, z));
    lemma_queue_push(q3, (x + 1, y, z));
    let q5 = queue_push(q4, (x - 1, y, z));
    lemma_queue_push(q4, (x - 1, y, z));
    let q6 = queue_push(q5, (x, y, z + 1));
    lemma_queue_push(q5, (x, y, z + 1));
    lemma_queue_push(q6, (x, y, z - 1));
}

/// The x step of direction `i`.
fn dx_of(i: usize) -> (d: i32)
    requires
        i < 4,
    ensures
        d == dir_dx(i as int),
{
    if i == 0 {
        -1
    } else if i == 1 {
        1
    } else {
        0
    }
}

/// The z step of direction `i`.
fn dz_of(i: usize) -> (d: i32)
    requires
        i < 4,
    ensures
        d == dir_dz(i as int),
{
    if i == 2 {
        -1
    } else if i == 3 {
        1
    } else {
        0
    }
}

/// Queues a position unless it lies outside the world's height or is
/// queued already.
fn queue_one(queue: &mut Vec<QueuePos>, x: i32, y: i32, z: i32)
    ensures
        final(queue)@ == queue_push(old(queue)@, (x as int, y as int, z as int)),
{
    if y < 0 || y > 255 {
        return;
    }
    let mut i: usize = 0;
    while i < queue.len()
        invariant
            i <= queue@.len(),
            queue@ == old(queue)@,
            forall|j: int| 0 <= j < i ==> queue@[j] != (x, y, z),
        decreases queue.len() - i,
    {
        let q = queue[i];
        if q.0 == x && q.1 == y && q.2 == z {
            assert(queue@[i as int] == (x, y, z));
            return;
        }
        i = i + 1;
    }
    queue.push((x, y, z));
}

/// Queues a position and its six neighbours for an update.
pub fn queue_fluid_update(x: i32, y: i32, z: i32, fluid_queue: &mut Vec<QueuePos>)
    requires
        coords_near(x as int, z as int, 8),
        -0x7fff_fff0 <= y <= 0x7fff_fff0,
    ensures
        final(fluid_queue)@ == queue_after(old(fluid_queue)@, x as int, y as int, z as int),
{
    queue_one(fluid_queue, x, y, z);
    queue_one(fluid_queue, x, y + 1, z);
    queue_one(fluid_queue, x, y - 1, z);
    queue_one(fluid_queue, x + 1, y, z);
    queue_one(fluid_queue, x - 1, y, z);
    queue_one(fluid_queue, x, y, z + 1);
    queue_one(fluid_queue, x, y, z - 1);
}

/// The decay of the fluid of kind `fluid` at a position, -1 where there is
/// none.
fn decay_at(fluid: Fluid, x: i32, y: i32, z: i32, wb: &WorldBlocks, generator: &FlatWorldGenerator) -> (r: i32)
    requires
        wb.wf(),
    ensures
        r == decay_of(wb.modified(), wb.cached(), *generator, fluid, x as int, y as int, z as int),
{
    if y < 0 || y > 255 {
        return -1;
    }
    let b = wb.get(x, y as u8, z, generator);
    if Fluid::same_kind(b.id, fluid.block_id()) {
        b.metadata as i32
    } else {
        -1
    }
}

/// One step of finding the smallest neighbouring decay; counts sources.
fn fold_min_decay(neighbor_decay: i32, current: i32, sources: &mut u8) -> (r: i32)
    requires
        *old(sources) < 255,
    ensures
        (r as int, *final(sources) as int) == fold_decay(neighbor_decay as int, current as int, *old(sources) as int),
{
    let mut d = neighbor_decay;
    if d < 0 {
        return current;
    }
    if d == 0 {
        *sources = *sources + 1;
    }
    if d >= 8 {
        d = 0;
    }
    if current >= 0 && d >= current {
        current
    } else {
        d
    }
}

/// Whether a position stops fluid.
fn is_blocked(x: i32, y: i32, z: i32, wb: &WorldBlocks, generator: &FlatWorldGenerator) -> (r: bool)
    requires
        wb.wf(),
    ensures
        r == blocked(wb.modified(), wb.cached(), *generator, x as int, y as int, z as int),
{
    if y < 0 || y > 255 {
        return true;
    }
    let b = wb.get(x, y as u8, z, generator);
    !(b.is_air() || is_replaceable(b.id) || Fluid::is_fluid(b.id))
}

/// Whether fluid may flow into a position.
fn can_flow_into(fluid: Fluid, x: i32, y: i32, z: i32, wb: &WorldBlocks, generator: &FlatWorldGenerator) -> (r: bool)
    requires
        wb.wf(),
    ensures
        r == flows_into(wb.modified(), wb.cached(), *generator, fluid, x as int, y as int, z as int),
{
    if y < 0 || y > 255 {
        return false;
    }
    let b = wb.get(x, y as u8, z, generator);
    if Fluid::same_kind(b.id, fluid.block_id()) {
        return false;
    }
    if Fluid::is_lava(b.id) {
        return false;
    }
    !is_blocked(x, y, z, wb, generator)
}

/// The world, queue and effects after one step, with the world still
/// well formed and its cached chunks kept.
pub open spec fn stepped(
    w0: WorldBlocks,
    w1: WorldBlocks,
    q1: Seq<QueuePos>,
    e1: Seq<FluidEffect>,
    next: SimView,
) -> bool {
    &&& w1.wf()
    &&& w1.cached() == w0.cached()
    &&& view_of(w1, q1, e1) == next
}

/// Sets a block, tells players, and queues the position and its
/// neighbours.
fn set_block(
    x: i32,
    y: i32,
    z: i32,
    id: u8,
    metadata: u8,
    wb: &mut WorldBlocks,
    queue: &mut Vec<QueuePos>,
    effects: &mut Vec<FluidEffect>,
    generator: &FlatWorldGenerator,
)
    requires
        old(wb).wf(),
        coords_near(x as int, z as int, 6),
        0 <= y <= 255,
    ensures
        stepped(
            *old(wb),
            *final(wb),
            final(queue)@,
            final(effects)@,
            with_block(view_of(*old(wb), old(queue)@, old(effects)@), *generator, x as int, y as int, z as int, id, metadata),
        ),
{
    wb.set(x, y as u8, z, Block::new(id, metadata), generator);
    effects.push(FluidEffect::SetBlock { x, y, z, id: id as i32, metadata });
    queue_fluid_update(x, y, z, queue);
}

/// Reports the fizz of lava meeting water.
fn fizz(x: i32, y: i32, z: i32, effects: &mut Vec<FluidEffect>)
    ensures
        final(effects)@ == old(effects)@.push(FluidEffect::Fizz { x, y, z }),
{
    effects.push(FluidEffect::Fizz { x, y, z });
}

/// Fluid flows into a position with the given decay, where it may.
fn flow_into(
    x: i32,
    y: i32,
    z: i32,
    fluid: Fluid,
    decay: u8,
    wb: &mut WorldBlocks,
    queue: &mut Vec<QueuePos>,
    effects: &mut Vec<FluidEffect>,
    generator: &FlatWorldGenerator,
)
    requires
        old(wb).wf(),
        coords_near(x as int, z as int, 6),
    ensures
        stepped(
            *old(wb),
            *final(wb),
            final(queue)@,
            final(effects)@,
            after_flow(view_of(*old(wb), old(queue)@, old(effects)@), old(wb).cached(), *generator, x as int, y as int, z as int, fluid, decay),
        ),
{
    if !can_flow_into(fluid, x, y, z, wb, generator) {
        assert(view_of(*wb, queue@, effects@) == view_of(*old(wb), old(queue)@, old(effects)@));
        return;
    }
    if fluid.kind == FluidKind::Lava {
        fizz(x, y, z, effects);
    }
    let flowing = fluid.flowing_variant();
    set_block(x, y, z, flowing.block_id(), decay, wb, queue, effects, generator);
}

/// How much decay a fluid gains a block.
fn decay_step(fluid: Fluid) -> (r: i32)
    ensures
        r == decay_step_of(fluid),
{
    match fluid.kind {
        FluidKind::Water => 1,
        FluidKind::Lava => 2,
    }
}

/// Whether what lies below holds water up.
fn buildable_or_source_below(
    x: i32,
    y: i32,
    z: i32,
    fluid: Fluid,
    wb: &WorldBlocks,
    generator: &FlatWorldGenerator,
) -> (r: bool)
    requires
        wb.wf(),
        0 <= y <= 255,
    ensures
        r == solid_or_source_below(wb.modified(), wb.cached(), *generator, x as int, y as int, z as int, fluid),
{
    if y == 0 {
        return true;
    }
    let below = wb.get(x, (y - 1) as u8, z, generator);
    let solid = !below.is_air() && !is_replaceable(below.id) && !Fluid::is_fluid(below.id);
    let same_source = Fluid::same_kind(below.id, fluid.block_id()) && Fluid::is_source(below.id, below.metadata);
    solid || same_source
}

/// What lava beside water becomes.
fn check_lava_water_reaction(
    x: i32,
    y: i32,
    z: i32,
    fluid: Fluid,
    metadata: u8,
    wb: &WorldBlocks,
    generator: &FlatWorldGenerator,
) -> (r: Option<u8>)
    requires
        wb.wf(),
        coords_near(x as int, z as int, 5),
        0 <= y <= 255,
    ensures
        r == reaction(wb.modified(), wb.cached(), *generator, x as int, y as int, z as int, fluid, metadata),
{
    if fluid.kind != FluidKind::Lava {
        return None;
    }
    let mut water_adjacent = Fluid::is_water(wb.get(x - 1, y as u8, z, generator).id);
    if !water_adjacent {
        water_adjacent = Fluid::is_water(wb.get(x + 1, y as u8, z, generator).id);
    }
    if !water_adjacent {
        water_adjacent = Fluid::is_water(wb.get(x, y as u8, z - 1, generator).id);
    }
    if !water_adjacent {
        water_adjacent = Fluid::is_water(wb.get(x, y as u8, z + 1, generator).id);
    }
    if !water_adjacent && y < 255 {
        let above = wb.get(x, (y + 1) as u8, z, generator);
        if Fluid::is_water(above.id) {
            water_adjacent = true;
        }
    }
    if !water_adjacent {
        return None;
    }
    let is_source = Fluid::is_source(fluid.block_id(), metadata);
    Some(
        if is_source {
            49
        } else {
            4
        },
    )
}

/// Whether fluid could pass a position on its way to a drop.
fn passable(x: i32, y: i32, z: i32, fluid: Fluid, wb: &WorldBlocks, generator: &FlatWorldGenerator) -> (r: bool)
    requires
        wb.wf(),
    ensures
        r == passable_at(wb.modified(), wb.cached(), *generator, x as int, y as int, z as int, fluid),
{
    if is_blocked(x, y, z, wb, generator) {
        return false;
    }
    let b = wb.get(x, y as u8, z, generator);
    if Fluid::same_kind(b.id, fluid.block_id()) {
        !Fluid::is_source(b.id, b.metadata)
    } else {
        true
    }
}

/// The distance to the nearest drop, searched up to four blocks away.
fn flow_cost(
    x: i32,
    y: i32,
    z: i32,
    depth: i32,
    from_dir: usize,
    fluid: Fluid,
    wb: &WorldBlocks,
    generator: &FlatWorldGenerator,
) -> (r: i32)
    requires
        wb.wf(),
        1 <= depth <= 4,
        from_dir < 4,
        coords_near(x as int, z as int, depth as int),
        0 <= y <= 255,
    ensures
        r == flow_cost_from(wb.modified(), wb.cached(), *generator, x as int, y as int, z as int, depth as int, from_dir as int, fluid, 0, 1000),
    decreases 4 - depth,
{
    let ghost m = wb.modified();
    let ghost ca = wb.cached();
    let mut best: i32 = 1000;
    let back: usize = match from_dir {
        0 => 1,
        1 => 0,
        2 => 3,
        _ => 2,
    };
    assert(back == opposite(from_dir as int));
    let mut i: usize = 0;
    while i < 4
        invariant
            i <= 4,
            wb.wf(),
            m == wb.modified(),
            ca == wb.cached(),
            1 <= depth <= 4,
            from_dir < 4,
            back == opposite(from_dir as int),
            coords_near(x as int, z as int, depth as int),
            0 <= y <= 255,
            flow_cost_from(m, ca, *generator, x as int, y as int, z as int, depth as int, from_dir as int, fluid, 0, 1000)
                == flow_cost_from(m, ca, *generator, x as int, y as int, z as int, depth as int, from_dir as int, fluid, i as int, best as int),
        decreases 4 - i,
    {
        if i == back {
            i = i + 1;
            continue;
        }
        let nx = x + dx_of(i);
        let nz = z + dz_of(i);
        if !passable(nx, y, nz, fluid, wb, generator) {
            i = i + 1;
            continue;
        }
        if !is_blocked(nx, y - 1, nz, wb, generator) {
            return depth;
        }
        if depth < 4 {
            let c = flow_cost(nx, y, nz, depth + 1, i, fluid, wb, generator);
            best = if c < best {
                c
            } else {
                best
            };
        }
        i = i + 1;
    }
    best
}

/// The cost of spreading in direction `i`.
fn direction_cost(x: i32, y: i32, z: i32, fluid: Fluid, i: usize, wb: &WorldBlocks, generator: &FlatWorldGenerator) -> (r: i32)
    requires
        wb.wf(),
        i < 4,
        coords_ok(x as int, z as int),
        0 <= y <= 255,
    ensures
        r == dir_cost(wb.modified(), wb.cached(), *generator, x as int, y as int, z as int, fluid, i as int),
{
    let nx = x + dx_of(i);
    let nz = z + dz_of(i);
    if !passable(nx, y, nz, fluid, wb, generator) {
        return 1000;
    }
    if is_blocked(nx, y - 1, nz, wb, generator) {
        flow_cost(nx, y, nz, 1, i, fluid, wb, generator)
    } else {
        0
    }
}

/// The directions of least cost, in the order -x, +x, -z, +z.
fn optimal_flow_directions(x: i32, y: i32, z: i32, fluid: Fluid, wb: &WorldBlocks, generator: &FlatWorldGenerator) -> (r: [bool; 4])
    requires
        wb.wf(),
        coords_ok(x as int, z as int),
        0 <= y <= 255,
    ensures
        r@ == flow_dirs(wb.modified(), wb.cached(), *generator, x as int, y as int, z as int, fluid),
{
    let c0 = direction_cost(x, y, z, fluid, 0, wb, generator);
    let c1 = direction_cost(x, y, z, fluid, 1, wb, generator);
    let c2 = direction_cost(x, y, z, fluid, 2, wb, generator);
    let c3 = direction_cost(x, y, z, fluid, 3, wb, generator);
    let m01 = if c0 <= c1 {
        c0
    } else {
        c1
    };
    let m23 = if c2 <= c3 {
        c2
    } else {
        c3
    };
    let m = if m01 <= m23 {
        m01
    } else {
        m23
    };
    let r = [c0 == m, c1 == m, c2 == m, c3 == m];
    assert(r@ =~= flow_dirs(wb.modified(), wb.cached(), *generator, x as int, y as int, z as int, fluid));
    r
}

/// Fluid falls into the block below, or spreads sideways.
fn spread(
    x: i32,
    y: i32,
    z: i32,
    fluid: Fluid,
    l: i32,
    wb: &mut WorldBlocks,
    queue: &mut Vec<QueuePos>,
    effects: &mut Vec<FluidEffect>,
    generator: &FlatWorldGenerator,
)
    requires
        old(wb).wf(),
        coords_ok(x as int, z as int),
        0 <= y <= 255,
        0 <= l <= 255,
    ensures
        stepped(
            *old(wb),
            *final(wb),
            final(queue)@,
            final(effects)@,
            spread_phase(view_of(*old(wb), old(queue)@, old(effects)@), old(wb).cached(), *generator, x as int, y as int, z as int, fluid, l as int),
        ),
{
    let ghost v0 = view_of(*wb, queue@, effects@);
    let ghost ca = wb.cached();
    if y > 0 && can_flow_into(fluid, x, y - 1, z, wb, generator) {
        if fluid.kind == FluidKind::Lava {
            let below = wb.get(x, (y - 1) as u8, z, generator);
            if Fluid::is_water(below.id) {
                set_block(x, y - 1, z, 1, 0, wb, queue, effects, generator);
                fizz(x, y - 1, z, effects);
                return;
            }
        }
        let new_decay = if l >= 8 {
            l as u8
        } else {
            (l + 8) as u8
        };
        flow_into(x, y - 1, z, fluid, new_decay, wb, queue, effects, generator);
    } else if l >= 0 && (l == 0 || is_blocked(x, y - 1, z, wb, generator)) {
        let dirs = optimal_flow_directions(x, y, z, fluid, wb, generator);
        let mut j1 = l + decay_step(fluid);
        if l >= 8 {
            j1 = 1;
        }
        if j1 >= 8 {
            return;
        }
        if dirs[0] {
            flow_into(x - 1, y, z, fluid, j1 as u8, wb, queue, effects, generator);
        }
        if dirs[1] {
            flow_into(x + 1, y, z, fluid, j1 as u8, wb, queue, effects, generator);
        }
        if dirs[2] {
            flow_into(x, y, z - 1, fluid, j1 as u8, wb, queue, effects, generator);
        }
        if dirs[3] {
            flow_into(x, y, z + 1, fluid, j1 as u8, wb, queue, effects, generator);
        }
    }
}

/// One update of the fluid block `fluid` with `metadata` at (`x`, `y`,
/// `z`): lava beside water hardens; a flowing block takes its new decay,
/// drying up at -1; then the fluid falls or spreads. The changes are made
/// to the world, the changed positions and their neighbours are queued,
/// and each change and fizz is reported in `effects`.
pub fn update_tick(
    x: i32,
    y: i32,
    z: i32,
    fluid: Fluid,
    metadata: u8,
    wb: &mut WorldBlocks,
    generator: &FlatWorldGenerator,
    effects: &mut Vec<FluidEffect>,
    queue: &mut Vec<QueuePos>,
)
    requires
        old(wb).wf(),
        coords_ok(x as int, z as int),
        0 <= y <= 255,
    ensures
        stepped(
            *old(wb),
            *final(wb),
            final(queue)@,
            final(effects)@,
            tick_result(view_of(*old(wb), old(queue)@, old(effects)@), old(wb).cached(), *generator, x as int, y as int, z as int, fluid, metadata),
        ),
{
    if let Some(converted) = check_lava_water_reaction(x, y, z, fluid, metadata, wb, generator) {
        set_block(x, y, z, converted, 0, wb, queue, effects, generator);
        fizz(x, y, z, effects);
        return;
    }
    let step = decay_step(fluid);
    let mut l: i32 = metadata as i32;
    if l > 0 {
        let mut sources: u8 = 0;
        let mut k1: i32 = -100;
        let nd = decay_at(fluid, x - 1, y, z, wb, generator);
        k1 = fold_min_decay(nd, k1, &mut sources);
        let nd = decay_at(fluid, x + 1, y, z, wb, generator);
        k1 = fold_min_decay(nd, k1, &mut sources);
        let nd = decay_at(fluid, x, y, z - 1, wb, generator);
        k1 = fold_min_decay(nd, k1, &mut sources);
        let nd = decay_at(fluid, x, y, z + 1, wb, generator);
        k1 = fold_min_decay(nd, k1, &mut sources);
        let mut j1 = k1 + step;
        if j1 >= 8 || k1 < 0 {
            j1 = -1;
        }
        let above = decay_at(fluid, x, y + 1, z, wb, generator);
        if above >= 0 {
            j1 = if above >= 8 {
                above
            } else {
                above + 8
            };
        }
        if sources >= 2 && fluid.kind == FluidKind::Water && buildable_or_source_below(x, y, z, fluid, wb, generator) {
            j1 = 0;
        }
        assert(j1 == new_decay(wb.modified(), wb.cached(), *generator, x as int, y as int, z as int, fluid));
        if j1 != l {
            l = j1;
            if j1 < 0 {
                set_block(x, y, z, 0, 0, wb, queue, effects, generator);
                return;
            } else {
                set_block(x, y, z, fluid.flowing_variant().block_id(), j1 as u8, wb, queue, effects, generator);
            }
        }
    }
    spread(x, y, z, fluid, l, wb, queue, effects, generator);
}

/// One round of the fluid task at `tick`: takes up to 200 positions off
/// the front of the queue and processes them in order; fluid whose rate
/// (5 ticks for water, 30 for lava) does not divide `tick` goes back to
/// the end of the queue, other fluid is updated.
pub fn fluid_round(
    tick: u64,
    wb: &mut WorldBlocks,
    generator: &FlatWorldGenerator,
    effects: &mut Vec<FluidEffect>,
    queue: &mut Vec<QueuePos>,
)
    requires
        old(wb).wf(),
    ensures
        stepped(
            *old(wb),
            *final(wb),
            final(queue)@,
            final(effects)@,
            round_result(view_of(*old(wb), old(queue)@, old(effects)@), old(wb).cached(), *generator, tick),
        ),
{
    let ghost q0 = queue@;
    let n: usize = if queue.len() < 200 {
        queue.len()
    } else {
        200
    };
    let mut batch: Vec<QueuePos> = Vec::new();
    let mut rest: Vec<QueuePos> = Vec::new();
    let mut k: usize = 0;
    while k < queue.len()
        invariant
            k <= queue@.len(),
            queue@ == q0,
            n == batch_len(q0),
            batch@ == q0.take(if k < n { k as int } else { n as int }),
            rest@ == (if k < n { Seq::<QueuePos>::empty() } else { q0.subrange(n as int, k as int) }),
        decreases queue.len() - k,
    {
        if k < n {
            batch.push(queue[k]);
            assert(batch@ =~= q0.take(k + 1));
        } else {
            rest.push(queue[k]);
            assert(rest@ =~= q0.subrange(n as int, k + 1));
        }
        k = k + 1;
    }
    assert(rest@ =~= q0.skip(n as int));
    assert(batch@ =~= q0.take(n as int));
    *queue = rest;
    let ghost ca = wb.cached();
    let ghost start = view_of(*wb, queue@, effects@);
    let mut i: usize = 0;
    while i < batch.len()
        invariant
            i <= batch@.len(),
            wb.wf(),
            wb.cached() == ca,
            batch_from(start, ca, *generator, batch@, 0, tick) == batch_from(
                view_of(*wb, queue@, effects@),
                ca,
                *generator,
                batch@,
                i as int,
                tick,
            ),
        decreases batch.len() - i,
    {
        let p = batch[i];
        let (x, y, z) = p;
        if 0 <= y && y <= 255 && -0x7fff_fff0 <= x && x <= 0x7fff_fff0 && -0x7fff_fff0 <= z && z <= 0x7fff_fff0 {
            let block = wb.get(x, y as u8, z, generator);
            if let Some(fluid) = Fluid::from_block_id(block.id) {
                let rate: u64 = match fluid.kind {
                    FluidKind::Water => 5,
                    FluidKind::Lava => 30,
                };
                if tick % rate != 0 {
                    queue.push(p);
                } else {
                    update_tick(x, y, z, fluid, block.metadata, wb, generator, effects, queue);
                }
            }
        }
        i = i + 1;
    }
}

/// How many of the four blocks beside (`x`, `y`, `z`) hold a source of
/// the fluid's kind (decay 0).
pub open spec fn adjacent_sources(m: Map<BlockPos, Block>, cached: Map<ChunkPos, Seq<u8>>, g: FlatWorldGenerator, x: int, y: int, z: int, f: Fluid) -> int {
    (if decay_of(m, cached, g, f, x - 1, y, z) == 0 { 1int } else { 0int })
        + (if decay_of(m, cached, g, f, x + 1, y, z) == 0 { 1int } else { 0int })
        + (if decay_of(m, cached, g, f, x, y, z - 1) == 0 { 1int } else { 0int })
        + (if decay_of(m, cached, g, f, x, y, z + 1) == 0 { 1int } else { 0int })
}

/// A flowing block becomes a source (decay 0) exactly when it is water
/// with at least two water sources beside it over a floor that holds
/// water; otherwise its new decay is -1 (it dries up), the falling value of
/// the fluid above it (8 or more), or one step more than the least decay
/// beside it (a falling neighbour counting as 0), below 8.
pub proof fn law_new_source_needs_two_sources(
    m: Map<BlockPos, Block>,
    cached: Map<ChunkPos, Seq<u8>>,
    g: FlatWorldGenerator,
    x: int,
    y: int,
    z: int,
    f: Fluid,
)
    ensures
        new_decay(m, cached, g, x, y, z, f) == 0 <==> f.kind == FluidKind::Water && adjacent_sources(
            m,
            cached,
            g,
            x,
            y,
            z,
            f,
        ) >= 2 && solid_or_source_below(m, cached, g, x, y, z, f),
        new_decay(m, cached, g, x, y, z, f) != 0 ==> new_decay(m, cached, g, x, y, z, f) == -1 || new_decay(
            m,
            cached,
            g,
            x,
            y,
            z,
            f,
        ) >= decay_step_of(f),
{
}


/// `b` is `a` followed by effects that each meet `ok`.
pub open spec fn extends_with(a: Seq<FluidEffect>, b: Seq<FluidEffect>, ok: spec_fn(FluidEffect) -> bool) -> bool {
    &&& a.len() <= b.len()
    &&& b.subrange(0, a.len() as int) == a
    &&& forall|k: int| a.len() <= k < b.len() ==> ok(#[trigger] b[k])
}

/// The decay of fluid falling from a block of decay `l`: 8 more, unless it
/// is falling already.
pub open spec fn falling_decay(l: int) -> int {
    if l >= 8 {
        l
    } else {
        l + 8
    }
}

/// The decay of fluid spreading sideways from a block of decay `l`: one
/// step of its kind more, starting again at 1 from falling fluid.
pub open spec fn sideways_decay(f: Fluid, l: int) -> int {
    if l >= 8 {
        1
    } else if f.kind == FluidKind::Water {
        l + 1
    } else {
        l + 2
    }
}

/// An effect of fluid `f` of decay `l` moving on from (`x`, `y`, `z`):
/// flowing fluid of its kind set in the block below with the falling decay,
/// or beside it at the same height with the sideways decay (below 8); for
/// lava, stone (1) set in the block below, and fizzes.
pub open spec fn spread_effect_ok(f: Fluid, x: int, y: int, z: int, l: int) -> spec_fn(FluidEffect) -> bool {
    |e: FluidEffect|
        match e {
            FluidEffect::SetBlock { x: ex, y: ey, z: ez, id, metadata } => {
                ||| (id == fluid_id(Fluid { kind: f.kind, flowing: true }) && ex == x as i32 && ey == (y - 1) as i32 && ez
                    == z as i32 && metadata == falling_decay(l))
                ||| (id == fluid_id(Fluid { kind: f.kind, flowing: true }) && ey == y as i32 && metadata == sideways_decay(
                    f,
                    l,
                ) && metadata < 8 && ((ex == (x - 1) as i32 && ez == z as i32) || (ex == (x + 1) as i32 && ez == z as i32)
                    || (ex == x as i32 && ez == (z - 1) as i32) || (ex == x as i32 && ez == (z + 1) as i32)))
                ||| (f.kind == FluidKind::Lava && id == 1 && metadata == 0 && ex == x as i32 && ey == (y - 1) as i32 && ez
                    == z as i32)
            },
            FluidEffect::Fizz { .. } => f.kind == FluidKind::Lava,
        }
}

proof fn lemma_extends_chain(
    a: Seq<FluidEffect>,
    b: Seq<FluidEffect>,
    c: Seq<FluidEffect>,
    ok: spec_fn(FluidEffect) -> bool,
)
    requires
        extends_with(a, b, ok),
        extends_with(b, c, ok),
    ensures
        extends_with(a, c, ok),
{
    assert(c.subrange(0, a.len() as int) =~= b.subrange(0, a.len() as int));
    assert forall|k: int| a.len() <= k < c.len() implies ok(#[trigger] c[k]) by {
        if k < b.len() {
            assert(c[k] == c.subrange(0, b.len() as int)[k]);
        }
    }
}

proof fn lemma_after_flow_effects(
    v: SimView,
    cached: Map<ChunkPos, Seq<u8>>,
    g: FlatWorldGenerator,
    px: int,
    py: int,
    pz: int,
    f: Fluid,
    d: u8,
    ok: spec_fn(FluidEffect) -> bool,
)
    requires
        ok(FluidEffect::SetBlock {
            x: px as i32,
            y: py as i32,
            z: pz as i32,
            id: fluid_id(Fluid { kind: f.kind, flowing: true }) as i32,
            metadata: d,
        }),
        f.kind == FluidKind::Lava ==> ok(FluidEffect::Fizz { x: px as i32, y: py as i32, z: pz as i32 }),
    ensures
        extends_with(v.effects, after_flow(v, cached, g, px, py, pz, f, d).effects, ok),
{
    let w = after_flow(v, cached, g, px, py, pz, f, d);
    if flows_into(v.modified, cached, g, f, px, py, pz) {
        assert(w.effects.subrange(0, v.effects.len() as int) =~= v.effects);
    } else {
        assert(w.effects.subrange(0, v.effects.len() as int) =~= v.effects);
    }
}

/// Fluid moving on from a block of decay `l` only sets flowing fluid of its
/// kind, in the block below with the falling decay (8 more, unless already
/// falling) or beside it with the sideways decay (one step of its kind more,
/// 1 from falling fluid, never 8 or more), or, for lava falling on water,
/// stone; only lava fizzes. The effects before stay as they were.
pub proof fn law_spread_decays(
    v: SimView,
    cached: Map<ChunkPos, Seq<u8>>,
    g: FlatWorldGenerator,
    x: int,
    y: int,
    z: int,
    f: Fluid,
    l: int,
)
    requires
        0 <= l <= 255,
    ensures
        extends_with(v.effects, spread_phase(v, cached, g, x, y, z, f, l).effects, spread_effect_ok(f, x, y, z, l)),
{
    let ok = spread_effect_ok(f, x, y, z, l);
    let w = spread_phase(v, cached, g, x, y, z, f, l);
    if y > 0 && flows_into(v.modified, cached, g, f, x, y - 1, z) {
        if f.kind == FluidKind::Lava && is_water_id(block_in(v.modified, cached, g, x, y - 1, z).id) {
            assert(w.effects.subrange(0, v.effects.len() as int) =~= v.effects);
        } else {
            let nd = falling_decay(l);
            lemma_after_flow_effects(v, cached, g, x, y - 1, z, f, nd as u8, ok);
        }
    } else if l >= 0 && (l == 0 || blocked(v.modified, cached, g, x, y - 1, z)) {
        let dirs = flow_dirs(v.modified, cached, g, x, y, z, f);
        let j = sideways_decay(f, l);
        if j >= 8 {
            assert(w.effects.subrange(0, v.effects.len() as int) =~= v.effects);
        } else {
            let v1 = if dirs[0] {
                after_flow(v, cached, g, x - 1, y, z, f, j as u8)
            } else {
                v
            };
            let v2 = if dirs[1] {
                after_flow(v1, cached, g, x + 1, y, z, f, j as u8)
            } else {
                v1
            };
            let v3 = if dirs[2] {
                after_flow(v2, cached, g, x, y, z - 1, f, j as u8)
            } else {
                v2
            };
            assert(extends_with(v.effects, v.effects, ok)) by {
                assert(v.effects.subrange(0, v.effects.len() as int) =~= v.effects);
            }
            if dirs[0] {
                lemma_after_flow_effects(v, cached, g, x - 1, y, z, f, j as u8, ok);
            }
            if dirs[1] {
                lemma_after_flow_effects(v1, cached, g, x + 1, y, z, f, j as u8, ok);
                lemma_extends_chain(v.effects, v1.effects, v2.effects, ok);
            }
            if dirs[2] {
                lemma_after_flow_effects(v2, cached, g, x, y, z - 1, f, j as u8, ok);
                lemma_extends_chain(v.effects, v2.effects, v3.effects, ok);
            }
            if dirs[3] {
                lemma_after_flow_effects(v3, cached, g, x, y, z + 1, f, j as u8, ok);
                lemma_extends_chain(v.effects, v3.effects, w.effects, ok);
            }
        }
    } else {
        assert(w.effects.subrange(0, v.effects.len() as int) =~= v.effects);
    }
}


/// Lava with water beside it or above it hardens, and only then: a lava
/// source into obsidian (49), other lava into cobblestone (4), with a fizz
/// there and nothing else; water never hardens.
pub proof fn law_lava_meets_water(
    v: SimView,
    cached: Map<ChunkPos, Seq<u8>>,
    g: FlatWorldGenerator,
    x: int,
    y: int,
    z: int,
    f: Fluid,
    meta: u8,
)
    ensures
        ({
            let m = v.modified;
            let wet = (8 <= block_in(m, cached, g, x - 1, y, z).id <= 9) || (8 <= block_in(m, cached, g, x + 1, y, z).id
                <= 9) || (8 <= block_in(m, cached, g, x, y, z - 1).id <= 9) || (8 <= block_in(m, cached, g, x, y, z + 1).id
                <= 9) || (y < 255 && 8 <= block_in(m, cached, g, x, y + 1, z).id <= 9);
            &&& reaction(m, cached, g, x, y, z, f, meta) is Some <==> f.kind == FluidKind::Lava && wet
            &&& reaction(m, cached, g, x, y, z, f, meta) matches Some(c) ==> (c == 49 && meta % 16 == 0) || (c == 4
                && meta % 16 != 0)
            &&& reaction(m, cached, g, x, y, z, f, meta) matches Some(c) ==> tick_result(
                v,
                cached,
                g,
                x,
                y,
                z,
                f,
                meta,
            ).effects == v.effects.push(
                FluidEffect::SetBlock { x: x as i32, y: y as i32, z: z as i32, id: c as i32, metadata: 0 },
            ).push(FluidEffect::Fizz { x: x as i32, y: y as i32, z: z as i32 }) && tick_result(
                v,
                cached,
                g,
                x,
                y,
                z,
                f,
                meta,
            ).modified == after_set(m, g, (x as i32, y as u8, z as i32), Block { id: c, metadata: 0 })
        }),
{
    let f_id = fluid_id(f);
    assert(8 <= f_id <= 11);
}

/// A flowing block (decay above 0) with no lava reaction dries up into air
/// when nothing of its kind feeds it, and otherwise keeps or takes its new
/// decay as flowing fluid of its kind before moving on.
#[verifier::rlimit(100)]
#[verifier::spinoff_prover]
pub proof fn law_flowing_block_takes_new_decay(
    v: SimView,
    cached: Map<ChunkPos, Seq<u8>>,
    g: FlatWorldGenerator,
    x: int,
    y: int,
    z: int,
    f: Fluid,
    meta: u8,
)
    requires
        meta > 0,
        reaction(v.modified, cached, g, x, y, z, f, meta) is None,
    ensures
        ({
            let j = new_decay(v.modified, cached, g, x, y, z, f);
            let w = tick_result(v, cached, g, x, y, z, f, meta);
            &&& j < 0 ==> w.modified == after_set(v.modified, g, (x as i32, y as u8, z as i32), Block { id: 0, metadata: 0 })
                && w.effects == v.effects.push(
                FluidEffect::SetBlock { x: x as i32, y: y as i32, z: z as i32, id: 0, metadata: 0 },
            )
            &&& j >= 0 && j != meta ==> w.effects.len() > v.effects.len() && w.effects[v.effects.len() as int]
                == FluidEffect::SetBlock {
                x: x as i32,
                y: y as i32,
                z: z as i32,
                id: fluid_id(Fluid { kind: f.kind, flowing: true }) as i32,
                metadata: j as u8,
            }
            &&& j == meta ==> w == spread_phase(v, cached, g, x, y, z, f, meta as int)
        }),
{
    let j = new_decay(v.modified, cached, g, x, y, z, f);
    if j >= 0 && j != meta {
        let p = with_block(v, g, x, y, z, fluid_id(Fluid { kind: f.kind, flowing: true }), j as u8);
        assert(tick_result(v, cached, g, x, y, z, f, meta) == spread_phase(p, cached, g, x, y, z, f, j));
        law_new_source_needs_two_sources(v.modified, cached, g, x, y, z, f);
        assert(j <= 255) by {
            assert(decay_of(v.modified, cached, g, f, x, y + 1, z) <= 255);
        }
        law_spread_decays(p, cached, g, x, y, z, f, j);
        let w = spread_phase(p, cached, g, x, y, z, f, j);
        assert(w.effects.subrange(0, p.effects.len() as int)[v.effects.len() as int] == w.effects[v.effects.len() as int]);
    }
}

} // verus!
