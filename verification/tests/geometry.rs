use cef_screens::entity::CefEntity;
use cef_screens::error::Error;
use cef_screens::geometry::{hit_to_pixels, intersect_screen, resolve_aim_click, ScreenHit};
use cef_screens::vec3::Vec3Fx;

const F: i64 = 65536;

#[test]
fn center_shot_hits_half_half() {
    // Screen at the origin facing -z; the viewer stands on the -z side
    // and aims straight along the plane normal at the screen's center.
    let eye = Vec3Fx::new(0, 0, -5 * F);
    let dir = Vec3Fx::new(0, 0, F);
    let pos = Vec3Fx::new(0, 0, 0);
    let normal = Vec3Fx::new(0, 0, -F);
    let hit = intersect_screen(eye, dir, pos, normal, 2 * F, F).unwrap();
    assert_eq!(hit, ScreenHit { nx: F / 2, ny: F / 2 });
}

#[test]
fn parallel_ray_is_not_looking_at_a_screen() {
    let eye = Vec3Fx::new(0, 0, -5 * F);
    let dir = Vec3Fx::new(F, 0, 0);
    let pos = Vec3Fx::new(0, 0, 0);
    let normal = Vec3Fx::new(0, 0, -F);
    assert_eq!(intersect_screen(eye, dir, pos, normal, 2 * F, F), Err(Error::GeometryError));
}

#[test]
fn ray_from_behind_is_not_looking_at_a_screen() {
    let eye = Vec3Fx::new(0, 0, 5 * F);
    let dir = Vec3Fx::new(0, 0, -F);
    let pos = Vec3Fx::new(0, 0, 0);
    let normal = Vec3Fx::new(0, 0, -F);
    assert_eq!(intersect_screen(eye, dir, pos, normal, 2 * F, F), Err(Error::GeometryError));
}

#[test]
fn hit_beyond_reach_is_rejected() {
    let eye = Vec3Fx::new(0, 0, -11 * F);
    let dir = Vec3Fx::new(0, 0, F);
    let pos = Vec3Fx::new(0, 0, 0);
    let normal = Vec3Fx::new(0, 0, -F);
    assert_eq!(intersect_screen(eye, dir, pos, normal, 2 * F, F), Err(Error::GeometryError));
}

#[test]
fn hit_outside_quad_is_rejected() {
    // Aiming 1.5 units right of center misses a screen 2 units wide.
    let eye = Vec3Fx::new(0, 0, -5 * F);
    let dir = Vec3Fx::new(3 * F / 2, 0, 5 * F);
    let pos = Vec3Fx::new(0, 0, 0);
    let normal = Vec3Fx::new(0, 0, -F);
    assert_eq!(intersect_screen(eye, dir, pos, normal, 2 * F, F), Err(Error::GeometryError));
}

#[test]
fn doubling_scale_turns_a_miss_into_a_hit() {
    // The same aim ray misses at scale one and hits at scale two,
    // because the intersection reads the live scale.
    let mut e = CefEntity::register(0);
    let eye = Vec3Fx::new(0, 0, -5 * F);
    let dir = Vec3Fx::new(3 * F / 2, 0, 5 * F);
    let normal = Vec3Fx::new(0, 0, -F);
    let miss = resolve_aim_click(eye, dir, e.pos, normal, e.scale, 1280, 720);
    assert_eq!(miss, Err(Error::GeometryError));
    e.set_scale(2 * F);
    let hit = resolve_aim_click(eye, dir, e.pos, normal, e.scale, 1280, 720);
    // 0.125 of 1280 pixels, 0.5 of 720 pixels
    assert_eq!(hit, Ok((160, 360)));
}

#[test]
fn pixel_mapping_uses_reported_surface_size() {
    let hit = ScreenHit { nx: F / 2, ny: F / 4 };
    assert_eq!(hit_to_pixels(hit, 1280, 720), (640, 180));
    assert_eq!(hit_to_pixels(hit, 1920, 1080), (960, 270));
}
