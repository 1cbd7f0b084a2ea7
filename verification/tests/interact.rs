use coral::interact::{use_item_on_block, ItemOnBlock};
use coral::world::blocks::Block;
use coral::world::generator::FlatWorldGenerator;
use coral::world::world_blocks::WorldBlocks;

#[test]
fn pouring_and_filling_buckets() {
    let g = FlatWorldGenerator::new();
    let mut w = WorldBlocks::new();
    // Water poured on top of the block at height 10 goes to height 11.
    let r = use_item_on_block(&mut w, &g, 326, 3, 10, 4, 1, 0, None, 0);
    assert_eq!(r, ItemOnBlock::FluidPoured { x: 3, y: 11, z: 4, id: 9, lava: false, emptied: true });
    assert_eq!(w.get(3, 11, 4, &g).id, 9);
    // Into a solid block it is not poured.
    w.set(3, 20, 4, Block::new(1, 0), &g);
    assert_eq!(use_item_on_block(&mut w, &g, 327, 3, 19, 4, 1, 1, None, 0), ItemOnBlock::Nothing);
    // Above the world's height nothing happens.
    assert_eq!(use_item_on_block(&mut w, &g, 327, 0, 255, 0, 1, 1, None, 0), ItemOnBlock::Nothing);
    // Creative lava keeps the bucket full.
    assert_eq!(
        use_item_on_block(&mut w, &g, 327, 0, 30, 0, 5, 1, None, 0),
        ItemOnBlock::FluidPoured { x: 1, y: 30, z: 0, id: 11, lava: true, emptied: false }
    );
    // The empty bucket takes the source above the aimed block.
    let r = use_item_on_block(&mut w, &g, 325, 3, 10, 4, 1, 0, Some((3, 10, 4)), 0);
    assert_eq!(r, ItemOnBlock::BucketFilled { x: 3, y: 11, z: 4, lava: false, filled: Some(326) });
    assert_eq!(w.get(3, 11, 4, &g).id, 0);
    // Without an aim, or above a non-source, nothing.
    assert_eq!(use_item_on_block(&mut w, &g, 325, 3, 10, 4, 1, 0, None, 0), ItemOnBlock::Nothing);
    w.set(5, 11, 5, Block::new(8, 3), &g);
    assert_eq!(use_item_on_block(&mut w, &g, 325, 5, 10, 5, 1, 0, Some((5, 10, 5)), 0), ItemOnBlock::Nothing);
}

#[test]
fn signs_stand_on_tops_and_hang_on_sides() {
    let g = FlatWorldGenerator::new();
    let mut w = WorldBlocks::new();
    assert_eq!(
        use_item_on_block(&mut w, &g, 323, 1, 5, 1, 1, 0, None, 12),
        ItemOnBlock::SignPlaced { x: 1, y: 6, z: 1, id: 63, metadata: 12, consume: true }
    );
    assert_eq!(w.get(1, 6, 1, &g).metadata, 12);
    assert_eq!(
        use_item_on_block(&mut w, &g, 323, 1, 5, 1, 2, 1, None, 0),
        ItemOnBlock::SignPlaced { x: 1, y: 5, z: 0, id: 68, metadata: 2, consume: false }
    );
    assert_eq!(use_item_on_block(&mut w, &g, 323, 1, 5, 1, 0, 0, None, 0), ItemOnBlock::Nothing);
    assert_eq!(use_item_on_block(&mut w, &g, 323, 1, 5, 1, 255, 0, None, 0), ItemOnBlock::Nothing);
    assert_eq!(use_item_on_block(&mut w, &g, 1, 1, 5, 1, 1, 0, None, 0), ItemOnBlock::Nothing);
}
