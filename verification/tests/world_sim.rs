use coral::fluid_sim::{fluid_round, queue_fluid_update, update_tick, FluidEffect};
use coral::world::anvil::nbt_to_blocks_raw;
use coral::world::blocks::{Block, BlockMap};
use coral::world::fluid::Fluid;
use coral::world::generator::FlatWorldGenerator;
use coral::world::region::RegionFile;
use coral::world::world_blocks::{chunk_coord_of, region_coord_of, WorldBlocks};
use std::path::Path;

fn ids(b: Block) -> (u8, u8) {
    (b.id, b.metadata)
}

#[test]
fn world_blocks_get_and_set() {
    let g = FlatWorldGenerator::new();
    let mut w = WorldBlocks::new();
    assert_eq!(ids(w.get(0, 3, 0, &g)), (2, 0));
    assert_eq!(ids(w.get(0, 10, 0, &g)), (0, 0));
    w.set(0, 10, 0, Block::new(1, 0), &g);
    assert_eq!(ids(w.get(0, 10, 0, &g)), (1, 0));
    assert_eq!(w.dirty_chunks(), vec![(0, 0)]);
    w.set(3, 11, 5, Block::new(4, 0), &g);
    assert_eq!(w.dirty_chunks(), vec![(0, 0)]);
    w.set(0, 10, 0, Block::air(), &g);
    assert_eq!(ids(w.get(0, 10, 0, &g)), (0, 0));
    w.set(-1, 5, -17, Block::new(5, 2), &g);
    assert_eq!(w.dirty_chunks(), vec![(0, 0), (-1, -2)]);
    w.clear_dirty();
    assert!(w.dirty_chunks().is_empty());
}

#[test]
fn chunk_and_region_coordinates() {
    assert_eq!(chunk_coord_of(0), 0);
    assert_eq!(chunk_coord_of(15), 0);
    assert_eq!(chunk_coord_of(16), 1);
    assert_eq!(chunk_coord_of(-1), -1);
    assert_eq!(chunk_coord_of(-16), -1);
    assert_eq!(chunk_coord_of(-17), -2);
    assert_eq!(region_coord_of(31), 0);
    assert_eq!(region_coord_of(-1), -1);
    assert_eq!(region_coord_of(-33), -2);
}

#[test]
fn dirty_chunks_grouped_by_region() {
    let g = FlatWorldGenerator::new();
    let mut w = WorldBlocks::new();
    w.set(0, 10, 0, Block::new(1, 0), &g);
    w.set(-1, 10, 0, Block::new(1, 0), &g);
    w.set(40, 10, 0, Block::new(1, 0), &g);
    let groups = w.dirty_by_region();
    assert_eq!(groups.len(), 2);
    assert_eq!((groups[0].0, groups[0].1), (0, 0));
    assert_eq!(groups[0].2, vec![(0, 0), (2, 0)]);
    assert_eq!((groups[1].0, groups[1].1), (-1, 0));
    assert_eq!(groups[1].2, vec![(-1, 0)]);
}

#[test]
fn saved_region_reads_back_and_caches() {
    let g = FlatWorldGenerator::new();
    let mut w = WorldBlocks::new();
    w.set(1, 10, 2, Block::new(1, 0), &g);
    let region = RegionFile::new(Path::new("w"), 0, 0);
    let file = w.save_region(&region, Vec::new(), &vec![(0, 0)], &g, 99).unwrap();
    let nbt = RegionFile::chunk_from_bytes(&file, 0, 0).unwrap();
    let mut m = BlockMap::new();
    nbt_to_blocks_raw(&nbt, &mut m);
    assert_eq!(ids(m.get(1, 10, 2).unwrap()), (1, 0));
    assert_eq!(ids(m.get(0, 2, 0).unwrap()), (3, 0));
    assert!(m.get(0, 20, 0).is_none());

    let mut fresh = WorldBlocks::new();
    assert!(fresh.get_chunk_nbt(0, 0).is_none());
    fresh.cache_chunk(0, 0, nbt.clone());
    assert_eq!(fresh.get_chunk_nbt(0, 0), Some(nbt));
    assert_eq!(ids(fresh.get(1, 10, 2, &g)), (1, 0));
    assert_eq!(ids(fresh.get(1, 11, 2, &g)), (0, 0));
    assert_eq!(ids(fresh.get(5, 0, 5, &g)), (7, 0));
    // A chunk that is not cached is generated.
    assert_eq!(ids(fresh.get(100, 3, 100, &g)), (2, 0));
    // Setting air over a cached stone forgets the change: the stone shows.
    fresh.set(1, 10, 2, Block::air(), &g);
    assert_eq!(ids(fresh.get(1, 10, 2, &g)), (1, 0));
}

#[test]
fn queue_update_skips_duplicates_and_height() {
    let mut q = Vec::new();
    queue_fluid_update(0, 0, 0, &mut q);
    assert_eq!(q, vec![(0, 0, 0), (0, 1, 0), (1, 0, 0), (-1, 0, 0), (0, 0, 1), (0, 0, -1)]);
    queue_fluid_update(1, 0, 0, &mut q);
    assert_eq!(q.len(), 10);
    assert!(q.contains(&(2, 0, 0)) && q.contains(&(1, 1, 0)) && q.contains(&(1, 0, 1)));
}

#[test]
fn water_source_spreads_on_flat_ground() {
    let g = FlatWorldGenerator::new();
    let mut w = WorldBlocks::new();
    w.set(0, 4, 0, Block::new(9, 0), &g);
    let mut effects = Vec::new();
    let mut q = Vec::new();
    update_tick(0, 4, 0, Fluid::stationary_water(), 0, &mut w, &g, &mut effects, &mut q);
    assert_eq!(
        effects,
        vec![
            FluidEffect::SetBlock { x: -1, y: 4, z: 0, id: 8, metadata: 1 },
            FluidEffect::SetBlock { x: 1, y: 4, z: 0, id: 8, metadata: 1 },
            FluidEffect::SetBlock { x: 0, y: 4, z: -1, id: 8, metadata: 1 },
            FluidEffect::SetBlock { x: 0, y: 4, z: 1, id: 8, metadata: 1 },
        ]
    );
    assert_eq!(ids(w.get(1, 4, 0, &g)), (8, 1));
    assert_eq!(ids(w.get(0, 4, 0, &g)), (9, 0));
    assert!(q.contains(&(-1, 4, 0)) && q.contains(&(0, 4, 1)) && q.contains(&(0, 4, 0)));
}

#[test]
fn water_falls_into_a_hole() {
    let g = FlatWorldGenerator::new();
    let mut w = WorldBlocks::new();
    w.set(0, 3, 0, Block::air(), &g);
    let mut effects = Vec::new();
    let mut q = Vec::new();
    update_tick(0, 4, 0, Fluid::stationary_water(), 0, &mut w, &g, &mut effects, &mut q);
    assert_eq!(effects, vec![FluidEffect::SetBlock { x: 0, y: 3, z: 0, id: 8, metadata: 8 }]);
}

#[test]
fn lava_source_beside_water_turns_to_obsidian() {
    let g = FlatWorldGenerator::new();
    let mut w = WorldBlocks::new();
    w.set(0, 4, 0, Block::new(11, 0), &g);
    w.set(1, 4, 0, Block::new(9, 0), &g);
    let mut effects = Vec::new();
    let mut q = Vec::new();
    update_tick(0, 4, 0, Fluid::stationary_lava(), 0, &mut w, &g, &mut effects, &mut q);
    assert_eq!(
        effects,
        vec![FluidEffect::SetBlock { x: 0, y: 4, z: 0, id: 49, metadata: 0 }, FluidEffect::Fizz { x: 0, y: 4, z: 0 }]
    );
    assert_eq!(ids(w.get(0, 4, 0, &g)), (49, 0));
}

#[test]
fn flowing_lava_beside_water_turns_to_cobblestone() {
    let g = FlatWorldGenerator::new();
    let mut w = WorldBlocks::new();
    w.set(0, 4, 0, Block::new(10, 2), &g);
    w.set(0, 5, 0, Block::new(8, 0), &g);
    let mut effects = Vec::new();
    let mut q = Vec::new();
    update_tick(0, 4, 0, Fluid::flowing_lava(), 2, &mut w, &g, &mut effects, &mut q);
    assert_eq!(effects[0], FluidEffect::SetBlock { x: 0, y: 4, z: 0, id: 4, metadata: 0 });
}

#[test]
fn flowing_water_without_source_dries_up() {
    let g = FlatWorldGenerator::new();
    let mut w = WorldBlocks::new();
    w.set(0, 4, 0, Block::new(8, 3), &g);
    let mut effects = Vec::new();
    let mut q = Vec::new();
    update_tick(0, 4, 0, Fluid::flowing_water(), 3, &mut w, &g, &mut effects, &mut q);
    assert_eq!(effects, vec![FluidEffect::SetBlock { x: 0, y: 4, z: 0, id: 0, metadata: 0 }]);
    assert_eq!(ids(w.get(0, 4, 0, &g)), (0, 0));
}

#[test]
fn fluid_round_waits_for_the_rate() {
    let g = FlatWorldGenerator::new();
    let mut w = WorldBlocks::new();
    w.set(0, 4, 0, Block::new(11, 0), &g);
    w.set(1, 4, 0, Block::new(9, 0), &g);
    let mut effects = Vec::new();
    let mut q = vec![(0, 4, 0), (5, 4, 5)];
    fluid_round(5, &mut w, &g, &mut effects, &mut q);
    assert!(effects.is_empty());
    assert_eq!(q, vec![(0, 4, 0)]);
    fluid_round(30, &mut w, &g, &mut effects, &mut q);
    assert_eq!(effects[0], FluidEffect::SetBlock { x: 0, y: 4, z: 0, id: 49, metadata: 0 });
}

#[test]
fn fluid_round_takes_at_most_two_hundred() {
    let g = FlatWorldGenerator::new();
    let mut w = WorldBlocks::new();
    let mut effects = Vec::new();
    let mut q: Vec<(i32, i32, i32)> = (0..250).map(|i| (i, 10, 0)).collect();
    fluid_round(5, &mut w, &g, &mut effects, &mut q);
    assert_eq!(q.len(), 50);
    assert_eq!(q[0], (200, 10, 0));
}

#[test]
fn saved_chunks_of_a_region_all_read_back() {
    let g = FlatWorldGenerator::new();
    let mut w = WorldBlocks::new();
    w.set(1, 10, 2, Block::new(1, 0), &g);
    w.set(17, 11, 3, Block::new(4, 0), &g);
    w.set(500, 12, 500, Block::new(5, 2), &g);
    let region = RegionFile::new(Path::new("w"), 0, 0);
    let chunks = vec![(0, 0), (1, 0), (31, 31)];
    let file = w.save_region(&region, Vec::new(), &chunks, &g, 7).unwrap();
    let expect = [((1, 10, 2), (1, 0)), ((17, 11, 3), (4, 0)), ((500, 12, 500), (5, 2))];
    for (i, c) in chunks.iter().enumerate() {
        let nbt = RegionFile::chunk_from_bytes(&file, c.0, c.1).unwrap();
        let mut m = BlockMap::new();
        nbt_to_blocks_raw(&nbt, &mut m);
        let ((x, y, z), b) = expect[i];
        assert_eq!(ids(m.get(x, y, z).unwrap()), b);
    }
    // saving again over the same file keeps every chunk readable
    let again = w.save_region(&region, file, &vec![(1, 0)], &g, 8).unwrap();
    let nbt = RegionFile::chunk_from_bytes(&again, 31, 31).unwrap();
    let mut m = BlockMap::new();
    nbt_to_blocks_raw(&nbt, &mut m);
    assert_eq!(ids(m.get(500, 12, 500).unwrap()), (5, 2));
}
