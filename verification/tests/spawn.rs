use coral::world::playerdata::PlayerData;
use coral::world::spawn::{join_position, SpawnPos};

fn pos(x: f64, y: f64, z: f64, yaw: f32, pitch: f32) -> SpawnPos {
    (x.to_bits(), y.to_bits(), z.to_bits(), yaw.to_bits(), pitch.to_bits())
}

fn world_spawn() -> SpawnPos {
    pos(0.5, 5.0, 0.5, 0.0, 0.0)
}

fn moved_spawn() -> SpawnPos {
    pos(100.5, 64.0, -199.5, 90.0, -15.0)
}

fn saved_at(x: f64, y: f64, z: f64) -> PlayerData {
    let mut d = PlayerData::default();
    d.x = x.to_bits();
    d.y = y.to_bits();
    d.z = z.to_bits();
    d.yaw = 42.0f32.to_bits();
    d.pitch = (-7.0f32).to_bits();
    d
}

#[test]
fn first_join_uses_world_spawn() {
    assert_eq!(join_position(None, world_spawn()), world_spawn());
    assert_eq!(join_position(None, moved_spawn()), moved_spawn());
}

#[test]
fn rejoin_restores_saved_position_and_facing() {
    let d = saved_at(12.5, 70.0, -3.5);
    assert_eq!(join_position(Some(&d), world_spawn()), pos(12.5, 70.0, -3.5, 42.0, -7.0));
}

#[test]
fn rejoin_does_not_depend_on_the_world_spawn() {
    let d = saved_at(12.5, 70.0, -3.5);
    assert_eq!(join_position(Some(&d), world_spawn()), join_position(Some(&d), moved_spawn()));
}
