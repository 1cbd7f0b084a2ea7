//! Blocks, the map of placed blocks, and the behaviour of each block kind.

use std::collections::HashMap;
use vstd::prelude::*;

verus! {

broadcast use vstd::std_specs::hash::group_hash_axioms;

/// The kind of tool a block wants.
#[derive(Debug, Clone, Copy, PartialEq, Eq, Structural)]
pub enum ToolKind {
    Hand,
    Pickaxe,
    Axe,
    Shovel,
    Sword,
    Hoe,
    Shears,
}

/// The material a tool is made of, from the weakest.
#[derive(Debug, Clone, Copy, PartialEq, Eq, Structural)]
pub enum ToolMaterial {
    Wood,
    Stone,
    Iron,
    Diamond,
    Gold,
    Any,
}

/// What a block kind is like. Breaking times and blast resistance, which
/// are floating-point numbers, are kept by the server around this library.
pub trait BlockBehavior {
    /// The block id.
    fn id(&self) -> u8;

    /// Which tool kind is required or preferred.
    fn required_tool(&self) -> (r: ToolKind)
        default_ensures
            r == ToolKind::Hand,
    {
        ToolKind::Hand
    }

    /// The weakest tool material that makes the block drop anything.
    fn required_material(&self) -> (r: Option<ToolMaterial>)
        default_ensures
            r is None,
    {
        None
    }

    /// Whether the block drops itself when broken.
    fn drops_self(&self) -> bool {
        true
    }

    /// Whether the block is solid, for collision and placement.
    fn is_solid(&self) -> (r: bool)
        default_ensures
            r,
    {
        true
    }

    /// Whether light passes through the block.
    fn is_transparent(&self) -> bool {
        false
    }

    /// Whether the block burns.
    fn is_flammable(&self) -> bool {
        false
    }

    /// The light level the block gives, 0 to 15.
    fn light_emission(&self) -> (r: u8)
        ensures
            r <= 15,
    {
        0
    }

    /// Whether placing a block may replace this one.
    fn is_replaceable(&self) -> bool {
        false
    }
}

/// A block: its id and its four-bit metadata.
#[derive(Debug, Clone, Copy)]
pub struct Block {
    pub id: u8,
    pub metadata: u8,
}

impl Block {
    pub fn new(id: u8, metadata: u8) -> (b: Self)
        ensures
            b == (Block { id, metadata }),
    {
        Self { id, metadata }
    }

    /// The air block, id 0.
    pub fn air() -> (b: Self)
        ensures
            b == air_block(),
    {
        Self { id: 0, metadata: 0 }
    }

    pub fn is_air(&self) -> (r: bool)
        ensures
            r == (self.id == 0),
    {
        self.id == 0
    }
}

/// The air block.
pub open spec fn air_block() -> Block {
    Block { id: 0, metadata: 0 }
}

/// A block position: x, y within a column of 256, z.
pub type BlockPos = (i32, u8, i32);

/// The number a position is stored under; distinct positions get distinct
/// numbers.
pub open spec fn pos_key(p: BlockPos) -> u128 {
    ((p.0 as int + 0x8000_0000) * 0x100_0000_0000 + p.1 as int * 0x1_0000_0000 + (p.2 as int + 0x8000_0000)) as u128
}

proof fn lemma_pos_key_injective(p: BlockPos, q: BlockPos)
    ensures
        pos_key(p) == pos_key(q) ==> p == q,
{
    let a1 = p.0 as int + 0x8000_0000;
    let c1 = p.2 as int + 0x8000_0000;
    let a2 = q.0 as int + 0x8000_0000;
    let c2 = q.2 as int + 0x8000_0000;
    let b1 = p.1 as int;
    let b2 = q.1 as int;
    let k1 = a1 * 0x100_0000_0000 + b1 * 0x1_0000_0000 + c1;
    let k2 = a2 * 0x100_0000_0000 + b2 * 0x1_0000_0000 + c2;
    assert(0 <= k1 < 0x1_0000_0000_0000_0000_0000) by (nonlinear_arith)
        requires
            0 <= a1 < 0x1_0000_0000,
            0 <= b1 < 0x100,
            0 <= c1 < 0x1_0000_0000,
            k1 == a1 * 0x100_0000_0000 + b1 * 0x1_0000_0000 + c1,
    ;
    assert(0 <= k2 < 0x1_0000_0000_0000_0000_0000) by (nonlinear_arith)
        requires
            0 <= a2 < 0x1_0000_0000,
            0 <= b2 < 0x100,
            0 <= c2 < 0x1_0000_0000,
            k2 == a2 * 0x100_0000_0000 + b2 * 0x1_0000_0000 + c2,
    ;
    if k1 == k2 {
        assert(a1 == a2 && b1 == b2 && c1 == c2) by (nonlinear_arith)
            requires
                k1 == k2,
                0 <= a1 < 0x1_0000_0000,
                0 <= b1 < 0x100,
                0 <= c1 < 0x1_0000_0000,
                0 <= a2 < 0x1_0000_0000,
                0 <= b2 < 0x100,
                0 <= c2 < 0x1_0000_0000,
                k1 == a1 * 0x100_0000_0000 + b1 * 0x1_0000_0000 + c1,
                k2 == a2 * 0x100_0000_0000 + b2 * 0x1_0000_0000 + c2,
        ;
    }
}

/// Computes `pos_key`.
fn key_of(x: i32, y: u8, z: i32) -> (k: u128)
    ensures
        k == pos_key((x, y, z)),
{
    let a = (x as i64 + 0x8000_0000) as u128;
    let c = (z as i64 + 0x8000_0000) as u128;
    assert(a * 0x100_0000_0000 + y as u128 * 0x1_0000_0000 + c < 0x1_0000_0000_0000_0000_0000) by (nonlinear_arith)
        requires
            a < 0x1_0000_0000,
            y < 0x100,
            c < 0x1_0000_0000,
    ;
    a * 0x100_0000_0000 + y as u128 * 0x1_0000_0000 + c
}

/// Blocks by position.
pub struct BlockMap {
    map: HashMap<u128, Block>,
}

impl View for BlockMap {
    type V = Map<BlockPos, Block>;

    closed spec fn view(&self) -> Map<BlockPos, Block> {
        Map::new(
            |p: BlockPos| self.map@.contains_key(pos_key(p)),
            |p: BlockPos| self.map@[pos_key(p)],
        )
    }
}

impl BlockMap {
    /// An empty map.
    pub fn new() -> (m: Self)
        ensures
            m@ == Map::<BlockPos, Block>::empty(),
    {
        let m = BlockMap { map: HashMap::new() };
        assert(m@ =~= Map::<BlockPos, Block>::empty());
        m
    }

    /// The block at a position, if one is stored.
    pub fn get(&self, x: i32, y: u8, z: i32) -> (r: Option<Block>)
        ensures
            r == (if self@.contains_key((x, y, z)) { Some(self@[(x, y, z)]) } else { None }),
    {
        let k = key_of(x, y, z);
        match self.map.get(&k) {
            Some(b) => Some(*b),
            None => None,
        }
    }

    /// Stores a block at a position, replacing what was there.
    pub fn insert(&mut self, x: i32, y: u8, z: i32, block: Block)
        ensures
            final(self)@ == old(self)@.insert((x, y, z), block),
    {
        let k = key_of(x, y, z);
        self.map.insert(k, block);
        proof {
            assert forall|p: BlockPos| #![auto] pos_key(p) == k implies p == (x, y, z) by {
                lemma_pos_key_injective(p, (x, y, z));
            }
        }
        assert(self@ =~= old(self)@.insert((x, y, z), block));
    }

    /// Forgets the block at a position.
    pub fn remove(&mut self, x: i32, y: u8, z: i32)
        ensures
            final(self)@ == old(self)@.remove((x, y, z)),
    {
        let k = key_of(x, y, z);
        self.map.remove(&k);
        proof {
            assert forall|p: BlockPos| #![auto] pos_key(p) == k implies p == (x, y, z) by {
                lemma_pos_key_injective(p, (x, y, z));
            }
        }
        assert(self@ =~= old(self)@.remove((x, y, z)));
    }
}

} // verus!
