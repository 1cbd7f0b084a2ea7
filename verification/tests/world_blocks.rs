use coral::world::registry::BlockRegistry;
use coral::world::blocks::{Block, BlockBehavior, BlockMap, ToolKind, ToolMaterial};
use coral::world::definitions::{Air, DiamondOre, Stone, Glowstone};
use coral::world::fluid::{is_replaceable, Fluid, FluidKind};
use coral::world::generator::FlatWorldGenerator;

#[test]
fn block_basics() {
    let b = Block::new(1, 2);
    assert_eq!((b.id, b.metadata), (1, 2));
    assert!(Block::air().is_air());
    assert!(!b.is_air());
    let mut m = BlockMap::new();
    m.insert(-5, 3, 7, b);
    assert_eq!(m.get(-5, 3, 7).unwrap().id, 1);
    assert!(m.get(-5, 3, 8).is_none());
    m.remove(-5, 3, 7);
    assert!(m.get(-5, 3, 7).is_none());
}

#[test]
fn block_behaviors() {
    assert_eq!(Air.id(), 0);
    assert!(!Air.is_solid());
    assert_eq!(Stone.id(), 1);
    assert_eq!(Stone.required_tool(), ToolKind::Pickaxe);
    assert_eq!(DiamondOre.required_material(), Some(ToolMaterial::Iron));
    assert_eq!(Glowstone.light_emission(), 15);
}

#[test]
fn generator_layers() {
    let g = FlatWorldGenerator::new();
    assert_eq!(g.height(), 4);
    assert_eq!(g.get(0).id, 7);
    assert_eq!(g.get(3).id, 2);
    assert_eq!(g.get(4).id, 0);
    let c = g.clone();
    assert_eq!(c.get(1).id, 3);
}

#[test]
fn fluids() {
    let w = Fluid::from_block_id(8).unwrap();
    assert_eq!(w.kind, FluidKind::Water);
    assert!(w.flowing);
    assert_eq!(Fluid::stationary_lava().block_id(), 11);
    assert_eq!(Fluid::stationary_water().flowing_variant().block_id(), 8);
    assert_eq!(Fluid::from_bucket_item(327).unwrap().kind, FluidKind::Lava);
    assert_eq!(Fluid::flowing_water().bucket_item(), 326);
    assert!(Fluid::is_water(9) && !Fluid::is_water(10));
    assert!(Fluid::is_lava(10));
    assert!(Fluid::is_source(9, 0) && !Fluid::is_source(9, 3));
    assert_eq!(Fluid::flow_level(8, 10), 2);
    assert!(Fluid::is_falling(8) && !Fluid::is_falling(7));
    assert!(Fluid::same_kind(8, 9) && !Fluid::same_kind(8, 10));
    assert!(is_replaceable(31) && !is_replaceable(1));
    assert!(Fluid::from_block_id(1).is_none());
}

#[test]
fn the_registry_finds_block_kinds_by_id() {
    let r = BlockRegistry::new();
    assert_eq!(r.required_tool(1), ToolKind::Pickaxe);
    assert_eq!(r.required_material(1), Some(ToolMaterial::Wood));
    assert_eq!(r.required_material(49), Some(ToolMaterial::Diamond));
    assert_eq!(r.required_tool(3), ToolKind::Shovel);
    assert_eq!(r.required_material(3), None);
    assert!(!r.is_solid(0));
    assert!(!r.is_solid(9));
    assert!(r.is_solid(1));
    assert_eq!(r.required_tool(200), ToolKind::Hand);
    assert_eq!(r.required_material(200), None);
    assert!(r.is_solid(200));
}
