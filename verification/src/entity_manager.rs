//! The entity registry: owns every screen, keyed by identifier.
//!
//! Identifiers come from a monotonically increasing allocator and are
//! never reused, so a task that kept an identifier across a suspend point
//! observes `NotFound` after removal instead of touching a stale entity.

use vstd::prelude::*;
use crate::entity::{CefEntity, ANGLE_LIM, SCALE_LIM};
use crate::error::Error;
use crate::geometry::POS_LIM;
use crate::texture::{apply_update_s, update_fits, BitmapUpdate};
use crate::vec3::{v3_bounded, v3_dot_s, v3_sub, v3_sub_s, v3_dot, Vec3Fx, V3};

verus! {

/// The index of the first entity with identifier `id`, searching from
/// position `i`; `-1` when none is left.
pub open spec fn find_index_from(s: Seq<CefEntity>, id: u64, i: int) -> int
    recommends
        0 <= i <= s.len(),
    decreases s.len() - i when 0 <= i <= s.len()
{
    if i >= s.len() {
        -1
    } else if s[i].id == id {
        i
    } else {
        find_index_from(s, id, i + 1)
    }
}

/// The index of the entity with identifier `id`, or `-1` when absent.
pub open spec fn find_index_s(s: Seq<CefEntity>, id: u64) -> int {
    find_index_from(s, id, 0)
}

/// The registry's view of one lookup: the entity under `id`, if any.
pub open spec fn lookup_s(s: Seq<CefEntity>, id: u64) -> Option<CefEntity> {
    let i = find_index_s(s, id);
    if i >= 0 {
        Some(s[i])
    } else {
        None
    }
}

/// Identifiers appear in strictly increasing order, so each occurs once.
pub open spec fn entities_sorted(s: Seq<CefEntity>) -> bool {
    forall|i: int, j: int|
        #![trigger s[i].id, s[j].id]
        0 <= i < j < s.len() ==> s[i].id < s[j].id
}

/// The squared distance between two positions, in fixed point.
pub open spec fn dist2_s(a: V3, b: V3) -> int {
    v3_dot_s(v3_sub_s(a, b), v3_sub_s(a, b))
}

/// `id` names the entity nearest to `point`: no entity is strictly
/// nearer, and among equally near ones it has the lowest identifier.
pub open spec fn is_closest(s: Seq<CefEntity>, point: V3, id: u64) -> bool {
    exists|i: int|
        0 <= i < s.len() && (#[trigger] s[i]).id == id && forall|j: int|
            0 <= j < s.len() ==> dist2_s((#[trigger] s[j]).pos@, point) > dist2_s(s[i].pos@, point)
                || (dist2_s(s[j].pos@, point) == dist2_s(s[i].pos@, point) && s[j].id >= id)
}

/// Skipping a prefix that does not hold `id` does not change the search.
proof fn lemma_find_prefix(s: Seq<CefEntity>, id: u64, k: int)
    requires
        0 <= k <= s.len(),
        forall|j: int| 0 <= j < k ==> s[j].id != id,
    ensures
        find_index_s(s, id) == find_index_from(s, id, k),
    decreases k,
{
    if k > 0 {
        lemma_find_prefix(s, id, k - 1);
    }
}

/// What a successful or failed search says about the sequence.
proof fn lemma_find_found(s: Seq<CefEntity>, id: u64, i: int)
    requires
        0 <= i < s.len(),
        s[i].id == id,
        forall|j: int| 0 <= j < i ==> s[j].id != id,
    ensures
        find_index_s(s, id) == i,
{
    lemma_find_prefix(s, id, i);
}

/// A sequence none of whose entities holds `id` searches to `-1`.
proof fn lemma_find_absent(s: Seq<CefEntity>, id: u64)
    requires
        forall|j: int| 0 <= j < s.len() ==> s[j].id != id,
    ensures
        find_index_s(s, id) == -1,
{
    lemma_find_prefix(s, id, s.len() as int);
}


/// Updating an entity in place, keeping its identifier, changes no
/// search result.
proof fn lemma_update_keeps_find_from(s: Seq<CefEntity>, i: int, e: CefEntity, q: u64, k: int)
    requires
        0 <= i < s.len(),
        e.id == s[i].id,
        0 <= k <= s.len(),
    ensures
        find_index_from(s.update(i, e), q, k) == find_index_from(s, q, k),
    decreases s.len() - k,
{
    if k < s.len() {
        lemma_update_keeps_find_from(s, i, e, q, k + 1);
    }
}

/// Updating an entity in place, keeping its identifier, changes no
/// search result.
pub proof fn lemma_update_keeps_find(s: Seq<CefEntity>, i: int, e: CefEntity)
    requires
        0 <= i < s.len(),
        e.id == s[i].id,
    ensures
        forall|q: u64| #[trigger] find_index_s(s.update(i, e), q) == find_index_s(s, q),
{
    assert forall|q: u64| #[trigger] find_index_s(s.update(i, e), q) == find_index_s(s, q) by {
        lemma_update_keeps_find_from(s, i, e, q, 0);
    }
}


/// What the search's answer means for the sequence, from position `k`.
proof fn lemma_find_from_props(s: Seq<CefEntity>, q: u64, k: int)
    requires
        0 <= k <= s.len(),
    ensures
        find_index_from(s, q, k) == -1 ==> forall|j: int|
            k <= j < s.len() ==> (#[trigger] s[j]).id != q,
        find_index_from(s, q, k) != -1 ==> k <= find_index_from(s, q, k) < s.len() && s[
            find_index_from(s, q, k)
        ].id == q,
    decreases s.len() - k,
{
    if k < s.len() {
        lemma_find_from_props(s, q, k + 1);
    }
}

/// What the search's answer means: `-1` exactly when no entity holds the
/// identifier, otherwise a valid position holding it.
pub proof fn lemma_find_index_properties(s: Seq<CefEntity>, q: u64)
    ensures
        find_index_s(s, q) == -1 ==> forall|j: int|
            0 <= j < s.len() ==> (#[trigger] s[j]).id != q,
        find_index_s(s, q) != -1 ==> 0 <= find_index_s(s, q) < s.len() && s[find_index_s(
            s,
            q,
        )].id == q,
{
    lemma_find_from_props(s, q, 0);
}

/// Owns all world proxy entities and allocates their identifiers.
pub struct EntityManager {
    pub entities: Vec<CefEntity>,
    pub next_id: u64,
}

impl EntityManager {
    /// Entities stay sorted by identifier, every identifier is below the
    /// allocator's next value, and each entity is well formed.
    pub open spec fn wf(&self) -> bool {
        &&& entities_sorted(self.entities@)
        &&& forall|i: int|
            0 <= i < self.entities@.len() ==> (#[trigger] self.entities@[i]).id < self.next_id
        &&& forall|i: int| 0 <= i < self.entities@.len() ==> (#[trigger] self.entities@[i]).wf()
    }

    /// An empty registry; the allocator starts at zero.
    pub fn new() -> (r: EntityManager)
        ensures
            r.wf(),
            r.entities@.len() == 0,
            r.next_id == 0,
    {
        EntityManager { entities: Vec::new(), next_id: 0 }
    }

    /// Finds the position of `id` among the entities.
    fn find(&self, id: u64) -> (r: Option<usize>)
        requires
            self.wf(),
        ensures
            match r {
                Some(i) => i < self.entities@.len() && find_index_s(self.entities@, id)
                    == i as int && self.entities@[i as int].id == id,
                None => find_index_s(self.entities@, id) == -1,
            },
    {
        let n = self.entities.len();
        let mut i: usize = 0;
        while i < n
            invariant
                self.wf(),
                n == self.entities@.len(),
                i <= n,
                forall|j: int| 0 <= j < i ==> self.entities@[j].id != id,
            decreases n - i,
        {
            if self.entities[i].id == id {
                proof {
                    lemma_find_found(self.entities@, id, i as int);
                }
                return Some(i);
            }
            i = i + 1;
        }
        proof {
            lemma_find_absent(self.entities@, id);
        }
        None
    }

    /// Allocates a fresh identifier and spawns an entity with the default
    /// pose; the identifier is never handed out again.
    pub fn create_entity(&mut self) -> (id: u64)
        requires
            old(self).wf(),
            old(self).next_id < u64::MAX,
        ensures
            final(self).wf(),
            id == old(self).next_id,
            final(self).next_id == id + 1,
            final(self).entities@.len() == old(self).entities@.len() + 1,
            final(self).entities@.drop_last() == old(self).entities@,
            final(self).entities@.last().wf(),
            final(self).entities@.last().at_default_pose(id),
            find_index_s(final(self).entities@, id) == old(self).entities@.len(),
    {
        let id = self.next_id;
        self.next_id = id + 1;
        let e = CefEntity::register(id);
        self.entities.push(e);
        proof {
            let s = self.entities@;
            assert(s.drop_last() =~= old(self).entities@);
            assert(forall|j: int| 0 <= j < s.len() - 1 ==> s[j].id != id);
            lemma_find_prefix(s, id, s.len() - 1);
        }
        id
    }

    /// Looks an entity up by identifier for inspection; a removed or
    /// never-issued identifier answers `NotFound`.
    pub fn with_by_entity_id(&self, id: u64) -> (r: Result<&CefEntity, Error>)
        requires
            self.wf(),
        ensures
            match r {
                Ok(e) => lookup_s(self.entities@, id) == Some(*e) && e.id == id && e.wf(),
                Err(err) => err == Error::NotFound && lookup_s(self.entities@, id) is None,
            },
    {
        match self.find(id) {
            Some(i) => Ok(&self.entities[i]),
            None => Err(Error::NotFound),
        }
    }

    /// The identifier of the entity nearest to `point`, ties broken by
    /// the lowest identifier; `NotFound` on an empty registry.
    pub fn with_closest(&self, point: Vec3Fx) -> (r: Result<u64, Error>)
        requires
            self.wf(),
            v3_bounded(point@, POS_LIM as int),
        ensures
            match r {
                Ok(id) => lookup_s(self.entities@, id) is Some && is_closest(
                    self.entities@,
                    point@,
                    id,
                ),
                Err(err) => err == Error::NotFound && self.entities@.len() == 0,
            },
            self.entities@.len() == 1 ==> r == Ok::<u64, Error>(self.entities@[0].id),
    {
        let n = self.entities.len();
        if n == 0 {
            return Err(Error::NotFound);
        }
        let e0 = &self.entities[0];
        let mut best: usize = 0;
        let mut best_d: i64 = v3_dot(v3_sub(e0.pos, point), v3_sub(e0.pos, point));
        let mut i: usize = 1;
        while i < n
            invariant
                self.wf(),
                v3_bounded(point@, POS_LIM as int),
                n == self.entities@.len(),
                0 < n,
                best < i <= n,
                best_d == dist2_s(self.entities@[best as int].pos@, point@),
                forall|j: int|
                    0 <= j < i ==> dist2_s((#[trigger] self.entities@[j]).pos@, point@) > best_d
                        || (dist2_s(self.entities@[j].pos@, point@) == best_d && j >= best),
            decreases n - i,
        {
            let e = &self.entities[i];
            let d = v3_dot(v3_sub(e.pos, point), v3_sub(e.pos, point));
            if d < best_d {
                best = i;
                best_d = d;
            }
            i = i + 1;
        }
        let bid = self.entities[best].id;
        proof {
            lemma_find_found(self.entities@, bid, best as int);
            assert forall|j: int|
                0 <= j < self.entities@.len() implies dist2_s(
                (#[trigger] self.entities@[j]).pos@,
                point@,
            ) > dist2_s(self.entities@[best as int].pos@, point@) || (dist2_s(
                self.entities@[j].pos@,
                point@,
            ) == dist2_s(self.entities@[best as int].pos@, point@) && self.entities@[j].id
                >= bid) by {
                if j != best as int && dist2_s(self.entities@[j].pos@, point@) == dist2_s(
                    self.entities@[best as int].pos@,
                    point@,
                ) {
                    assert(j > best as int);
                }
            }
        }
        Ok(bid)
    }

    /// Tears one entity down and removes it from the mapping; any caller
    /// still holding the identifier sees `NotFound` from then on.
    pub fn remove_entity(&mut self, id: u64) -> (r: Result<(), Error>)
        requires
            old(self).wf(),
        ensures
            final(self).wf(),
            final(self).next_id == old(self).next_id,
            match r {
                Ok(()) => {
                    &&& lookup_s(old(self).entities@, id) is Some
                    &&& final(self).entities@ == old(self).entities@.remove(
                        find_index_s(old(self).entities@, id),
                    )
                    &&& find_index_s(final(self).entities@, id) == -1
                    &&& lookup_s(final(self).entities@, id) is None
                },
                Err(err) => {
                    &&& err == Error::NotFound
                    &&& lookup_s(old(self).entities@, id) is None
                    &&& *final(self) == *old(self)
                },
            },
    {
        match self.find(id) {
            Some(i) => {
                let ghost s0 = self.entities@;
                self.entities.remove(i);
                proof {
                    let s = self.entities@;
                    assert forall|j: int| 0 <= j < s.len() implies s[j].id != id by {
                        if j < i as int {
                            assert(s[j] == s0[j]);
                        } else {
                            assert(s[j] == s0[j + 1]);
                        }
                    }
                    lemma_find_absent(s, id);
                }
                Ok(())
            },
            None => Err(Error::NotFound),
        }
    }

    /// Removes every entity; the allocator keeps its place so identifiers
    /// stay unique across the purge.
    pub fn remove_all_entities(&mut self)
        requires
            old(self).wf(),
        ensures
            final(self).wf(),
            final(self).entities@.len() == 0,
            final(self).next_id == old(self).next_id,
    {
        self.entities.clear();
    }

    /// Exclusive scoped mutation: runs one update on the entity under
    /// `id`, putting it back in place.
    #[verifier::inline]
    pub open spec fn replaced(
        self,
        other: EntityManager,
        i: int,
        e: CefEntity,
    ) -> bool {
        other.entities@ == self.entities@.update(i, e) && other.next_id == self.next_id
    }

    /// Moves the entity under `id` to a new position.
    pub fn set_position_by_id(&mut self, id: u64, pos: Vec3Fx) -> (r: Result<(), Error>)
        requires
            old(self).wf(),
            v3_bounded(pos@, POS_LIM as int),
        ensures
            final(self).wf(),
            match r {
                Ok(()) => {
                    &&& lookup_s(old(self).entities@, id) is Some
                    &&& old(self).replaced(
                        *final(self),
                        find_index_s(old(self).entities@, id),
                        CefEntity {
                            pos,
                            ..old(self).entities@[find_index_s(old(self).entities@, id)]
                        },
                    )
                },
                Err(err) => {
                    &&& err == Error::NotFound
                    &&& lookup_s(old(self).entities@, id) is None
                    &&& *final(self) == *old(self)
                },
            },
    {
        match self.find(id) {
            Some(i) => {
                let ghost s0 = self.entities@;
                let mut e = self.entities.remove(i);
                e.set_position(pos);
                self.entities.insert(i, e);
                proof {
                    assert(self.entities@ =~= s0.update(i as int, e));
                }
                Ok(())
            },
            None => Err(Error::NotFound),
        }
    }

    /// Sets the rotation angles of the entity under `id`.
    pub fn set_angles_by_id(&mut self, id: u64, rot_x: i64, rot_y: i64) -> (r: Result<
        (),
        Error,
    >)
        requires
            old(self).wf(),
            -ANGLE_LIM <= rot_x <= ANGLE_LIM,
            -ANGLE_LIM <= rot_y <= ANGLE_LIM,
        ensures
            final(self).wf(),
            match r {
                Ok(()) => {
                    &&& lookup_s(old(self).entities@, id) is Some
                    &&& old(self).replaced(
                        *final(self),
                        find_index_s(old(self).entities@, id),
                        CefEntity {
                            rot_x,
                            rot_y,
                            ..old(self).entities@[find_index_s(old(self).entities@, id)]
                        },
                    )
                },
                Err(err) => {
                    &&& err == Error::NotFound
                    &&& lookup_s(old(self).entities@, id) is None
                    &&& *final(self) == *old(self)
                },
            },
    {
        match self.find(id) {
            Some(i) => {
                let ghost s0 = self.entities@;
                let mut e = self.entities.remove(i);
                e.set_angles(rot_x, rot_y);
                self.entities.insert(i, e);
                proof {
                    assert(self.entities@ =~= s0.update(i as int, e));
                }
                Ok(())
            },
            None => Err(Error::NotFound),
        }
    }

    /// Sets the displayed scale of the entity under `id`.
    pub fn set_scale_by_id(&mut self, id: u64, scale: i64) -> (r: Result<(), Error>)
        requires
            old(self).wf(),
            0 < scale <= SCALE_LIM,
        ensures
            final(self).wf(),
            match r {
                Ok(()) => {
                    &&& lookup_s(old(self).entities@, id) is Some
                    &&& old(self).replaced(
                        *final(self),
                        find_index_s(old(self).entities@, id),
                        CefEntity {
                            scale,
                            ..old(self).entities@[find_index_s(old(self).entities@, id)]
                        },
                    )
                },
                Err(err) => {
                    &&& err == Error::NotFound
                    &&& lookup_s(old(self).entities@, id) is None
                    &&& *final(self) == *old(self)
                },
            },
    {
        match self.find(id) {
            Some(i) => {
                let ghost s0 = self.entities@;
                let mut e = self.entities.remove(i);
                e.set_scale(scale);
                self.entities.insert(i, e);
                proof {
                    assert(self.entities@ =~= s0.update(i as int, e));
                }
                Ok(())
            },
            None => Err(Error::NotFound),
        }
    }

    /// Records the playback position of the entity under `id`.
    pub fn set_media_time_by_id(&mut self, id: u64, seconds: u64) -> (r: Result<(), Error>)
        requires
            old(self).wf(),
        ensures
            final(self).wf(),
            match r {
                Ok(()) => {
                    &&& lookup_s(old(self).entities@, id) is Some
                    &&& old(self).replaced(
                        *final(self),
                        find_index_s(old(self).entities@, id),
                        CefEntity {
                            media_time: seconds,
                            ..old(self).entities@[find_index_s(old(self).entities@, id)]
                        },
                    )
                },
                Err(err) => {
                    &&& err == Error::NotFound
                    &&& lookup_s(old(self).entities@, id) is None
                    &&& *final(self) == *old(self)
                },
            },
    {
        match self.find(id) {
            Some(i) => {
                let ghost s0 = self.entities@;
                let mut e = self.entities.remove(i);
                e.set_media_time(seconds);
                self.entities.insert(i, e);
                proof {
                    assert(self.entities@ =~= s0.update(i as int, e));
                }
                Ok(())
            },
            None => Err(Error::NotFound),
        }
    }

    /// Attaches a ready browser surface to the entity under `id`.
    pub fn attach_surface_by_id(&mut self, id: u64, handle: u64) -> (r: Result<(), Error>)
        requires
            old(self).wf(),
        ensures
            final(self).wf(),
            match r {
                Ok(()) => {
                    &&& lookup_s(old(self).entities@, id) is Some
                    &&& old(self).replaced(
                        *final(self),
                        find_index_s(old(self).entities@, id),
                        CefEntity {
                            surface: Some(handle),
                            ..old(self).entities@[find_index_s(old(self).entities@, id)]
                        },
                    )
                },
                Err(err) => {
                    &&& err == Error::NotFound
                    &&& lookup_s(old(self).entities@, id) is None
                    &&& *final(self) == *old(self)
                },
            },
    {
        match self.find(id) {
            Some(i) => {
                let ghost s0 = self.entities@;
                let mut e = self.entities.remove(i);
                e.attach_surface(handle);
                self.entities.insert(i, e);
                proof {
                    assert(self.entities@ =~= s0.update(i as int, e));
                }
                Ok(())
            },
            None => Err(Error::NotFound),
        }
    }


    /// The shell reports how surface initialization for `id` went.
    /// Failure is all-or-nothing: the half-made entity is taken out and
    /// `CreationError` reported, exactly as if `create` itself failed.
    pub fn surface_ready(&mut self, id: u64, surface: Option<u64>) -> (r: Result<(), Error>)
        requires
            old(self).wf(),
        ensures
            final(self).wf(),
            final(self).next_id == old(self).next_id,
            match r {
                Ok(()) => {
                    &&& lookup_s(old(self).entities@, id) is Some
                    &&& surface matches Some(h) && old(self).replaced(
                        *final(self),
                        find_index_s(old(self).entities@, id),
                        CefEntity {
                            surface: Some(h),
                            ..old(self).entities@[find_index_s(old(self).entities@, id)]
                        },
                    )
                },
                Err(err) => match err {
                    Error::NotFound => lookup_s(old(self).entities@, id) is None && *final(self)
                        == *old(self),
                    Error::CreationError => {
                        &&& lookup_s(old(self).entities@, id) is Some
                        &&& surface is None
                        &&& final(self).entities@ == old(self).entities@.remove(
                            find_index_s(old(self).entities@, id),
                        )
                        &&& lookup_s(final(self).entities@, id) is None
                    },
                    _ => false,
                },
            },
    {
        match surface {
            Some(h) => self.attach_surface_by_id(id, h),
            None => match self.remove_entity(id) {
                Ok(()) => Err(Error::CreationError),
                Err(e) => Err(e),
            },
        }
    }

    /// The browser surface handle owned by the entity under `id`.
    /// `NotFound` covers both a stale identifier and a surface still
    /// initializing, since either way there is nothing to talk to yet.
    pub fn get_browser_by_entity_id(&self, id: u64) -> (r: Result<u64, Error>)
        requires
            self.wf(),
        ensures
            match r {
                Ok(h) => lookup_s(self.entities@, id) matches Some(e) && e.surface == Some(h),
                Err(err) => err == Error::NotFound && (lookup_s(self.entities@, id) is None
                    || (lookup_s(self.entities@, id) matches Some(e) && e.surface is None)),
            },
    {
        match self.find(id) {
            Some(i) => match self.entities[i].surface {
                Some(h) => Ok(h),
                None => Err(Error::NotFound),
            },
            None => Err(Error::NotFound),
        }
    }

    /// Streams one bitmap update into the texture of the entity under
    /// `id`.
    pub fn update_texture_by_id(&mut self, id: u64, part: &BitmapUpdate) -> (r: Result<
        (),
        Error,
    >)
        requires
            old(self).wf(),
            part.wf(),
            update_fits(
                *part,
                crate::texture::TEXTURE_WIDTH as int,
                crate::texture::TEXTURE_HEIGHT as int,
            ),
        ensures
            final(self).wf(),
            match r {
                Ok(()) => {
                    &&& lookup_s(old(self).entities@, id) is Some
                    &&& {
                        let i = find_index_s(old(self).entities@, id);
                        let e0 = old(self).entities@[i];
                        let e1 = final(self).entities@[i];
                        &&& final(self).entities@ == old(self).entities@.update(i, e1)
                        &&& final(self).next_id == old(self).next_id
                        &&& e1 == (CefEntity { texture: e1.texture, ..e0 })
                        &&& e1.texture.pixels@ == apply_update_s(
                            e0.texture.pixels@,
                            e0.texture.width as int,
                            *part,
                        )
                        &&& e1.texture.width == e0.texture.width
                        &&& e1.texture.height == e0.texture.height
                    }
                },
                Err(err) => {
                    &&& err == Error::NotFound
                    &&& lookup_s(old(self).entities@, id) is None
                    &&& *final(self) == *old(self)
                },
            },
    {
        match self.find(id) {
            Some(i) => {
                let ghost s0 = self.entities@;
                let mut e = self.entities.remove(i);
                e.update_texture(part);
                self.entities.insert(i, e);
                proof {
                    assert(self.entities@ =~= s0.update(i as int, e));
                }
                Ok(())
            },
            None => Err(Error::NotFound),
        }
    }
}

/// A looked-up entity straight after `create_entity` is the spawned one,
/// still at the default pose.
pub proof fn lemma_create_then_lookup(s: Seq<CefEntity>, e: CefEntity)
    requires
        forall|j: int| 0 <= j < s.len() ==> (#[trigger] s[j]).id != e.id,
    ensures
        lookup_s(s.push(e), e.id) == Some(e),
{
    let t = s.push(e);
    assert(forall|j: int| 0 <= j < t.len() - 1 ==> t[j].id != e.id);
    lemma_find_prefix(t, e.id, t.len() - 1);
}

/// After removal, every lookup of the removed identifier misses.
pub proof fn lemma_removed_then_lookup(s: Seq<CefEntity>, id: u64)
    requires
        find_index_s(s, id) == -1,
    ensures
        lookup_s(s, id) is None,
{
}

} // verus!
