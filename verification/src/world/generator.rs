//! The flat world generator: a fixed stack of layers above y = 0.

use vstd::prelude::*;
use crate::world::blocks::{air_block, Block};

verus! {

/// Generates a flat world: bedrock, two layers of dirt, then grass.
#[derive(Debug)]
pub struct FlatWorldGenerator {
    layers: Vec<Block>,
}

impl Clone for FlatWorldGenerator {
    fn clone(&self) -> (r: Self)
        ensures
            r.layers() == self.layers(),
    {
        let mut layers: Vec<Block> = Vec::new();
        let mut i: usize = 0;
        while i < self.layers.len()
            invariant
                i <= self.layers@.len(),
                layers@ == self.layers@.subrange(0, i as int),
            decreases self.layers.len() - i,
        {
            layers.push(self.layers[i]);
            i = i + 1;
            assert(layers@ =~= self.layers@.subrange(0, i as int));
        }
        assert(layers@ =~= self.layers@);
        FlatWorldGenerator { layers }
    }
}

impl FlatWorldGenerator {
    /// The layers from y = 0 upwards.
    pub closed spec fn layers(&self) -> Seq<Block> {
        self.layers@
    }

    /// The generated block at height `y`: its layer, or air above them.
    pub open spec fn block_at(&self, y: u8) -> Block {
        if (y as int) < self.layers().len() {
            self.layers()[y as int]
        } else {
            air_block()
        }
    }

    /// The generator of bedrock, dirt, dirt and grass.
    pub fn new() -> (g: Self)
        ensures
            g.layers() == seq![
                Block { id: 7, metadata: 0 },
                Block { id: 3, metadata: 0 },
                Block { id: 3, metadata: 0 },
                Block { id: 2, metadata: 0 },
            ],
    {
        let mut layers = Vec::new();
        layers.push(Block::new(7, 0));
        layers.push(Block::new(3, 0));
        layers.push(Block::new(3, 0));
        layers.push(Block::new(2, 0));
        let g = Self { layers };
        assert(g.layers() =~= seq![
            Block { id: 7, metadata: 0 },
            Block { id: 3, metadata: 0 },
            Block { id: 3, metadata: 0 },
            Block { id: 2, metadata: 0 },
        ]);
        g
    }

    /// How many layers there are.
    pub fn height(&self) -> (n: usize)
        ensures
            n == self.layers().len(),
    {
        self.layers.len()
    }

    /// The generated block at height `y`.
    pub fn get(&self, y: u8) -> (b: Block)
        ensures
            b == self.block_at(y),
    {
        if (y as usize) < self.layers.len() {
            self.layers[y as usize]
        } else {
            Block::air()
        }
    }
}

} // verus!
