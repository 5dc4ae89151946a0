use cef_screens::command::{command_callback, parse_command, Command, PlayerSnapshot, SurfaceOp};
use cef_screens::entity_manager::EntityManager;
use cef_screens::error::Error;
use cef_screens::texture::{BitmapUpdate, ScreenTexture};
use cef_screens::vec3::Vec3Fx;

const F: i64 = 65536;

fn toks(words: &[&str]) -> Vec<Vec<u8>> {
    words.iter().map(|w| w.as_bytes().to_vec()).collect()
}

fn player() -> PlayerSnapshot {
    PlayerSnapshot {
        position: Vec3Fx::new(0, 0, -6 * F),
        eye_position: Vec3Fx::new(0, 0, -5 * F),
        pitch: 0,
        yaw: 0,
        dir: Vec3Fx::new(0, 0, F),
    }
}

#[test]
fn parse_create_uses_default_url() {
    match parse_command(&toks(&["create"])) {
        Ok(Command::Create { url }) => {
            assert_eq!(url, b"https://www.classicube.net/".to_vec());
        }
        other => panic!("unexpected: {:?}", other),
    }
}

#[test]
fn parse_create_concatenates_url_tokens() {
    match parse_command(&toks(&["create", "https://a/", "b"])) {
        Ok(Command::Create { url }) => assert_eq!(url, b"https://a/b".to_vec()),
        other => panic!("unexpected: {:?}", other),
    }
}

#[test]
fn parse_scale_reads_fixed_point() {
    match parse_command(&toks(&["scale", "2"])) {
        Ok(Command::Scale { scale }) => assert_eq!(scale, 2 * F),
        other => panic!("unexpected: {:?}", other),
    }
    assert!(matches!(parse_command(&toks(&["scale", "x"])), Err(Error::FormatError)));
    assert!(matches!(parse_command(&toks(&["scale", "0"])), Err(Error::FormatError)));
}

#[test]
fn parse_seek_accepts_the_three_time_shapes() {
    assert!(matches!(
        parse_command(&toks(&["time", "90"])),
        Ok(Command::Seek { seconds: 90 })
    ));
    assert!(matches!(
        parse_command(&toks(&["seek", "1:30"])),
        Ok(Command::Seek { seconds: 90 })
    ));
    assert!(matches!(
        parse_command(&toks(&["seek", "1:01:30"])),
        Ok(Command::Seek { seconds: 3690 })
    ));
    assert!(matches!(parse_command(&toks(&["seek", "1:2:3:4"])), Err(Error::FormatError)));
}

#[test]
fn parse_type_joins_with_spaces() {
    match parse_command(&toks(&["type", "hello", "world"])) {
        Ok(Command::Type { text }) => assert_eq!(text, b"hello world".to_vec()),
        other => panic!("unexpected: {:?}", other),
    }
}

#[test]
fn parse_unknown_tokens_are_ignored() {
    assert!(matches!(parse_command(&toks(&["dance"])), Ok(Command::Ignore)));
    assert!(matches!(parse_command(&toks(&[])), Ok(Command::Ignore)));
    assert!(matches!(parse_command(&toks(&["here", "1", "2"])), Ok(Command::Ignore)));
}

#[test]
fn create_command_spawns_facing_the_player() {
    let mut m = EntityManager::new();
    let p = player();
    let ops = command_callback(&mut m, &p, &toks(&["create"]), true).unwrap();
    assert_eq!(ops.len(), 1);
    match &ops[0] {
        SurfaceOp::CreateSurface { id, url } => {
            assert_eq!(*id, 0);
            assert_eq!(url, &b"https://www.classicube.net/".to_vec());
        }
        other => panic!("unexpected: {:?}", op_name(other)),
    }
    let e = m.with_by_entity_id(0).unwrap();
    // one look-vector ahead of the eye, turned to face the player
    assert_eq!(e.pos, Vec3Fx::new(0, 0, -4 * F));
    assert_eq!(e.rot_x, 360 * F);
    assert_eq!(e.rot_y, 180 * F);
}

fn op_name(op: &SurfaceOp) -> &'static str {
    match op {
        SurfaceOp::CreateSurface { .. } => "CreateSurface",
        SurfaceOp::Navigate { .. } => "Navigate",
        SurfaceOp::Reload { .. } => "Reload",
        SurfaceOp::SendClick { .. } => "SendClick",
        SurfaceOp::SendText { .. } => "SendText",
        SurfaceOp::SetTime { .. } => "SetTime",
        SurfaceOp::Resize { .. } => "Resize",
        SurfaceOp::RemoveSurface { .. } => "RemoveSurface",
        SurfaceOp::Search { .. } => "Search",
        SurfaceOp::QueryAim { .. } => "QueryAim",
    }
}

#[test]
fn closest_commands_fail_on_an_empty_registry() {
    let mut m = EntityManager::new();
    let p = player();
    assert!(matches!(
        command_callback(&mut m, &p, &toks(&["refresh"]), true),
        Err(Error::NotFound)
    ));
    assert!(matches!(
        command_callback(&mut m, &p, &toks(&["scale", "2"]), true),
        Err(Error::NotFound)
    ));
}

#[test]
fn close_removes_the_closest_screen() {
    let mut m = EntityManager::new();
    let p = player();
    command_callback(&mut m, &p, &toks(&["create"]), true).unwrap();
    let ops = command_callback(&mut m, &p, &toks(&["close"]), true).unwrap();
    assert!(matches!(ops[0], SurfaceOp::RemoveSurface { id: 0 }));
    assert!(matches!(m.with_by_entity_id(0), Err(Error::NotFound)));
}

#[test]
fn closeall_removes_everything_and_reports_each() {
    let mut m = EntityManager::new();
    let p = player();
    command_callback(&mut m, &p, &toks(&["create"]), true).unwrap();
    command_callback(&mut m, &p, &toks(&["create"]), true).unwrap();
    let ops = command_callback(&mut m, &p, &toks(&["clearall"]), true).unwrap();
    assert_eq!(ops.len(), 2);
    assert!(matches!(ops[0], SurfaceOp::RemoveSurface { id: 0 }));
    assert!(matches!(ops[1], SurfaceOp::RemoveSurface { id: 1 }));
    assert!(matches!(m.with_closest(Vec3Fx::new(0, 0, 0)), Err(Error::NotFound)));
}

#[test]
fn seek_records_playback_time_and_emits_the_op() {
    let mut m = EntityManager::new();
    let p = player();
    command_callback(&mut m, &p, &toks(&["create"]), true).unwrap();
    let ops = command_callback(&mut m, &p, &toks(&["seek", "1:30"]), true).unwrap();
    assert!(matches!(ops[0], SurfaceOp::SetTime { id: 0, seconds: 90 }));
    assert_eq!(m.with_by_entity_id(0).unwrap().media_time, 90);
}

#[test]
fn search_is_forwarded_only_for_the_local_player() {
    let mut m = EntityManager::new();
    let p = player();
    let ops = command_callback(&mut m, &p, &toks(&["search", "cat", "videos"]), true).unwrap();
    assert_eq!(ops.len(), 1);
    match &ops[0] {
        SurfaceOp::Search { query } => assert_eq!(query, &b"cat videos".to_vec()),
        other => panic!("unexpected: {:?}", op_name(other)),
    }
    let none = command_callback(&mut m, &p, &toks(&["search", "cat"]), false).unwrap();
    assert!(none.is_empty());
}

#[test]
fn texture_update_is_idempotent() {
    let part = BitmapUpdate {
        x: 3,
        y: 2,
        width: 2,
        height: 2,
        pixels: vec![1, 2, 3, 4],
    };
    let mut once = ScreenTexture::new();
    once.apply_update(&part);
    let mut twice = ScreenTexture::new();
    twice.apply_update(&part);
    twice.apply_update(&part);
    assert_eq!(once.pixels, twice.pixels);
    // the rectangle took the update's pixels, its surroundings did not
    assert_eq!(once.pixels[2 * 2048 + 3], 1);
    assert_eq!(once.pixels[3 * 2048 + 4], 4);
    assert_eq!(once.pixels[0], 0xFFFF_FFFF);
}

#[test]
fn overlapping_updates_apply_in_order() {
    let a = BitmapUpdate { x: 0, y: 0, width: 2, height: 1, pixels: vec![10, 11] };
    let b = BitmapUpdate { x: 1, y: 0, width: 2, height: 1, pixels: vec![20, 21] };
    let mut t = ScreenTexture::new();
    t.apply_update(&a);
    t.apply_update(&b);
    assert_eq!(t.pixels[0], 10);
    assert_eq!(t.pixels[1], 20);
    assert_eq!(t.pixels[2], 21);
}

#[test]
fn at_command_teleports_the_closest_screen() {
    let mut m = EntityManager::new();
    let p = player();
    command_callback(&mut m, &p, &toks(&["create"]), true).unwrap();
    let ops = command_callback(&mut m, &p, &toks(&["at", "1.5", "2", "-3"]), true).unwrap();
    assert!(ops.is_empty());
    let e = m.with_by_entity_id(0).unwrap();
    assert_eq!(e.pos, Vec3Fx::new(F + F / 2, 2 * F, -3 * F));
}

#[test]
fn at_command_rejects_bad_numbers() {
    let mut m = EntityManager::new();
    let p = player();
    command_callback(&mut m, &p, &toks(&["create"]), true).unwrap();
    assert!(matches!(
        command_callback(&mut m, &p, &toks(&["at", "1", "q", "3"]), true),
        Err(Error::FormatError)
    ));
}

#[test]
fn click_with_coordinates_targets_the_closest_screen() {
    let mut m = EntityManager::new();
    let p = player();
    command_callback(&mut m, &p, &toks(&["create"]), true).unwrap();
    let ops = command_callback(&mut m, &p, &toks(&["click", "12", "34"]), true).unwrap();
    assert!(matches!(ops[0], SurfaceOp::SendClick { id: 0, x: 12, y: 34 }));
}

#[test]
fn resize_emits_the_surface_op() {
    let mut m = EntityManager::new();
    let p = player();
    command_callback(&mut m, &p, &toks(&["create"]), true).unwrap();
    let ops = command_callback(&mut m, &p, &toks(&["resize", "1920", "1080"]), true).unwrap();
    assert!(matches!(ops[0], SurfaceOp::Resize { id: 0, width: 1920, height: 1080 }));
}

#[test]
fn stop_steers_to_the_blank_page() {
    let mut m = EntityManager::new();
    let p = player();
    command_callback(&mut m, &p, &toks(&["create"]), true).unwrap();
    let ops = command_callback(&mut m, &p, &toks(&["stop"]), true).unwrap();
    match &ops[0] {
        SurfaceOp::Navigate { id, url } => {
            assert_eq!(*id, 0);
            assert_eq!(url, &b"data:text/html,".to_vec());
        }
        other => panic!("unexpected: {:?}", op_name(other)),
    }
}
