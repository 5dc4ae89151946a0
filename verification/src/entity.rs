//! One world proxy entity: a screen placed in the 3D world.

use vstd::prelude::*;
use crate::geometry::POS_LIM;
use crate::texture::{apply_update_s, update_fits, BitmapUpdate, ScreenTexture};
use crate::vec3::{v3_bounded, Vec3Fx};

verus! {

/// Largest magnitude a stored rotation angle may have, in fixed
/// degrees: a fixed-point modelling limit that keeps the angle sums the
/// move command forms inside `i64`, far beyond any angle a player uses.
pub const ANGLE_LIM: i64 = 0x100_0000_0000;

/// Largest scale factor an entity may carry: sixteen units, which keeps
/// the scaled quad within the intersection engine's `SIZE_LIM`.
pub const SCALE_LIM: i64 = 0x10_0000;

/// The fixed pitch a fresh entity spawns with: 180 degrees.
pub const DEFAULT_ROT_X: i64 = 11796480;

/// A rectangular browser-backed object in world space.
///
/// It owns its GPU texture for its whole lifetime; the browser surface
/// handle is attached once the out-of-process surface reports ready and
/// is owned exclusively until removal.
pub struct CefEntity {
    pub id: u64,
    pub pos: Vec3Fx,
    pub rot_x: i64,
    pub rot_y: i64,
    pub scale: i64,
    pub surface: Option<u64>,
    pub media_time: u64,
    pub texture: ScreenTexture,
}

impl CefEntity {
    /// Every pixel of the owned texture still shows the all-white fill
    /// it was allocated with.
    pub open spec fn texture_all_white(&self) -> bool {
        forall|i: int|
            0 <= i < self.texture.pixels@.len() ==> self.texture.pixels@[i] == 0xFFFF_FFFFu32
    }

    /// Positions stay in engine range, the scale stays displayable, and
    /// the texture keeps its fixed allocation.
    pub open spec fn wf(&self) -> bool {
        &&& v3_bounded(self.pos@, POS_LIM as int)
        &&& 0 < self.scale <= SCALE_LIM
        &&& -ANGLE_LIM <= self.rot_x <= ANGLE_LIM
        &&& -ANGLE_LIM <= self.rot_y <= ANGLE_LIM
        &&& self.texture.wf()
    }

    /// The default pose: world origin, flipped to face forward, unit
    /// scale, no surface yet, playback at zero, the texture still all
    /// white at its fixed maximum size.
    pub open spec fn at_default_pose(&self, id: u64) -> bool {
        &&& self.id == id
        &&& self.pos@ == (crate::vec3::V3 { x: 0, y: 0, z: 0 })
        &&& self.rot_x == DEFAULT_ROT_X
        &&& self.rot_y == 0
        &&& self.scale == 65536
        &&& self.surface is None
        &&& self.media_time == 0
        &&& self.texture_all_white()
    }

    /// Spawns an entity with the default pose and a fresh all-white
    /// texture at the fixed maximum size.
    pub fn register(id: u64) -> (r: CefEntity)
        ensures
            r.wf(),
            r.at_default_pose(id),
    {
        CefEntity {
            id,
            pos: Vec3Fx::new(0, 0, 0),
            rot_x: DEFAULT_ROT_X,
            rot_y: 0,
            scale: 65536,
            surface: None,
            media_time: 0,
            texture: ScreenTexture::new(),
        }
    }

    /// Sets the displayed width/height multiplier. Intersection geometry
    /// reads the scale live, so no other state changes.
    pub fn set_scale(&mut self, scale: i64)
        requires
            0 < scale <= SCALE_LIM,
        ensures
            *final(self) == (CefEntity { scale, ..*old(self) }),
    {
        self.scale = scale;
    }

    /// Moves the entity to a new world position.
    pub fn set_position(&mut self, pos: Vec3Fx)
        requires
            v3_bounded(pos@, POS_LIM as int),
        ensures
            *final(self) == (CefEntity { pos, ..*old(self) }),
    {
        self.pos = pos;
    }

    /// Sets both stored rotation angles.
    pub fn set_angles(&mut self, rot_x: i64, rot_y: i64)
        requires
            -ANGLE_LIM <= rot_x <= ANGLE_LIM,
            -ANGLE_LIM <= rot_y <= ANGLE_LIM,
        ensures
            *final(self) == (CefEntity { rot_x, rot_y, ..*old(self) }),
    {
        self.rot_x = rot_x;
        self.rot_y = rot_y;
    }

    /// Records the current playback position.
    pub fn set_media_time(&mut self, seconds: u64)
        ensures
            *final(self) == (CefEntity { media_time: seconds, ..*old(self) }),
    {
        self.media_time = seconds;
    }

    /// Attaches the browser surface handle once the surface is up.
    pub fn attach_surface(&mut self, handle: u64)
        ensures
            *final(self) == (CefEntity { surface: Some(handle), ..*old(self) }),
    {
        self.surface = Some(handle);
    }

    /// Streams one partial bitmap update into the owned texture.
    pub fn update_texture(&mut self, part: &BitmapUpdate)
        requires
            old(self).wf(),
            part.wf(),
            update_fits(*part, old(self).texture.width as int, old(self).texture.height as int),
        ensures
            final(self).wf(),
            final(self).texture.pixels@ == apply_update_s(
                old(self).texture.pixels@,
                old(self).texture.width as int,
                *part,
            ),
            *final(self) == (CefEntity { texture: final(self).texture, ..*old(self) }),
            final(self).texture.width == old(self).texture.width,
            final(self).texture.height == old(self).texture.height,
    {
        self.texture.apply_update(part);
    }
}

} // verus!
