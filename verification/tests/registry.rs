use cef_screens::entity_manager::EntityManager;
use cef_screens::error::Error;
use cef_screens::vec3::Vec3Fx;

const F: i64 = 65536;

#[test]
fn create_then_lookup_gives_default_pose() {
    let mut m = EntityManager::new();
    let id = m.create_entity();
    let e = m.with_by_entity_id(id).unwrap();
    assert_eq!(e.id, id);
    assert_eq!(e.pos, Vec3Fx::new(0, 0, 0));
    assert_eq!(e.rot_x, 180 * F);
    assert_eq!(e.rot_y, 0);
    assert_eq!(e.scale, F);
    assert!(e.surface.is_none());
    assert_eq!(e.media_time, 0);
    // the owned texture starts at its fixed maximum size, filled white
    assert_eq!(e.texture.width, 2048);
    assert_eq!(e.texture.height, 1024);
    assert!(e.texture.pixels.iter().all(|&p| p == 0xFFFF_FFFF));
}

#[test]
fn identifiers_increase_and_are_never_reused() {
    let mut m = EntityManager::new();
    let a = m.create_entity();
    let b = m.create_entity();
    assert!(a < b);
    m.remove_entity(a).unwrap();
    let c = m.create_entity();
    assert!(c > b);
}

#[test]
fn removed_id_yields_not_found_everywhere() {
    let mut m = EntityManager::new();
    let id = m.create_entity();
    m.remove_entity(id).unwrap();
    assert_eq!(m.with_by_entity_id(id).err(), Some(Error::NotFound));
    assert_eq!(m.set_scale_by_id(id, F), Err(Error::NotFound));
    assert_eq!(m.set_position_by_id(id, Vec3Fx::new(0, 0, 0)), Err(Error::NotFound));
    assert_eq!(m.set_angles_by_id(id, 0, 0), Err(Error::NotFound));
    assert_eq!(m.set_media_time_by_id(id, 5), Err(Error::NotFound));
    assert_eq!(m.get_browser_by_entity_id(id), Err(Error::NotFound));
    assert_eq!(m.remove_entity(id), Err(Error::NotFound));
}

#[test]
fn with_closest_on_empty_registry_is_not_found() {
    let m = EntityManager::new();
    assert_eq!(m.with_closest(Vec3Fx::new(7 * F, 0, -3 * F)), Err(Error::NotFound));
}

#[test]
fn with_closest_single_entity_wins_from_anywhere() {
    let mut m = EntityManager::new();
    let id = m.create_entity();
    assert_eq!(m.with_closest(Vec3Fx::new(0, 0, 0)), Ok(id));
    assert_eq!(m.with_closest(Vec3Fx::new(200 * F, -50 * F, 9 * F)), Ok(id));
}

#[test]
fn with_closest_picks_minimum_distance_then_lowest_id() {
    let mut m = EntityManager::new();
    let a = m.create_entity();
    let b = m.create_entity();
    let c = m.create_entity();
    m.set_position_by_id(a, Vec3Fx::new(10 * F, 0, 0)).unwrap();
    m.set_position_by_id(b, Vec3Fx::new(2 * F, 0, 0)).unwrap();
    m.set_position_by_id(c, Vec3Fx::new(-2 * F, 0, 0)).unwrap();
    assert_eq!(m.with_closest(Vec3Fx::new(9 * F, 0, 0)), Ok(a));
    // b and c sit equally far from the origin: the lower id wins the tie
    assert_eq!(m.with_closest(Vec3Fx::new(0, 0, 0)), Ok(b));
}

#[test]
fn remove_all_empties_but_keeps_allocator() {
    let mut m = EntityManager::new();
    m.create_entity();
    let b = m.create_entity();
    m.remove_all_entities();
    let c = m.create_entity();
    assert!(c > b);
    assert_eq!(m.with_by_entity_id(b).err(), Some(Error::NotFound));
}

#[test]
fn surface_ready_attaches_handle() {
    let mut m = EntityManager::new();
    let id = m.create_entity();
    assert_eq!(m.get_browser_by_entity_id(id), Err(Error::NotFound));
    m.surface_ready(id, Some(77)).unwrap();
    assert_eq!(m.get_browser_by_entity_id(id), Ok(77));
}

#[test]
fn surface_failure_is_all_or_nothing() {
    let mut m = EntityManager::new();
    let id = m.create_entity();
    assert_eq!(m.surface_ready(id, None), Err(Error::CreationError));
    assert_eq!(m.with_by_entity_id(id).err(), Some(Error::NotFound));
}

#[test]
fn surface_status_wraps_native_code() {
    assert_eq!(Error::from_surface_status(-3), Error::SurfaceError(-3));
}
