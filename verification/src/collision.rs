//! The collision world: a registry of positioned compound shapes (unions of
//! axis-aligned rectangles) with collision groups, queried for contact
//! pairs. Placement uses it as scratch space: candidates are registered,
//! tested, and either kept or removed again.

use crate::geom::{lemma_filter_take_step, rects_touch, rects_touch_spec, CenteredRect, Point};
use vstd::prelude::*;
use vstd::seq_lib::*;
use vstd::slice::SliceAdditionalExecFns;

verus! {

/// How many collision groups exist.
pub const GROUP_COUNT: usize = 30;

/// Membership, whitelist and blacklist over the thirty collision groups.
/// A fresh value is a member of every group, whitelists every group and
/// blacklists none.
#[derive(Debug)]
pub struct CollisionGroups {
    pub membership: Vec<bool>,
    pub whitelist: Vec<bool>,
    pub blacklist: Vec<bool>,
}

/// True when some group is flagged in both vectors.
pub open spec fn masks_overlap_spec(a: Seq<bool>, b: Seq<bool>) -> bool {
    exists|i: int| 0 <= i < GROUP_COUNT && a[i] && b[i]
}

/// Two group sets may interact when each is whitelisted by the other and
/// neither is blacklisted by the other.
pub open spec fn can_interact_spec(a: CollisionGroups, b: CollisionGroups) -> bool {
    &&& masks_overlap_spec(a.membership@, b.whitelist@)
    &&& masks_overlap_spec(b.membership@, a.whitelist@)
    &&& !masks_overlap_spec(a.membership@, b.blacklist@)
    &&& !masks_overlap_spec(b.membership@, a.blacklist@)
}

fn masks_overlap(a: &Vec<bool>, b: &Vec<bool>) -> (r: bool)
    requires
        a@.len() == GROUP_COUNT,
        b@.len() == GROUP_COUNT,
    ensures
        r == masks_overlap_spec(a@, b@),
{
    let mut i: usize = 0;
    while i < GROUP_COUNT
        invariant
            0 <= i <= GROUP_COUNT,
            a@.len() == GROUP_COUNT,
            b@.len() == GROUP_COUNT,
            forall|k: int| 0 <= k < i ==> !(#[trigger] a@[k] && b@[k]),
        decreases GROUP_COUNT - i,
    {
        if *a.get(i).unwrap() && *b.get(i).unwrap() {
            return true;
        }
        i = i + 1;
    }
    false
}

fn flags_from_list(groups: &Vec<usize>) -> (r: Vec<bool>)
    requires
        forall|k: int| 0 <= k < groups@.len() ==> #[trigger] groups@[k] < GROUP_COUNT,
    ensures
        r@.len() == GROUP_COUNT,
        forall|i: int| 0 <= i < GROUP_COUNT ==> #[trigger] r@[i] == groups@.contains(i as usize),
{
    let mut flags: Vec<bool> = Vec::new();
    let mut i: usize = 0;
    while i < GROUP_COUNT
        invariant
            flags@.len() == i,
            0 <= i <= GROUP_COUNT,
            forall|k: int| 0 <= k < i ==> !(#[trigger] flags@[k]),
        decreases GROUP_COUNT - i,
    {
        flags.push(false);
        i = i + 1;
    }
    let mut j: usize = 0;
    while j < groups.len()
        invariant
            flags@.len() == GROUP_COUNT,
            0 <= j <= groups@.len(),
            forall|k: int| 0 <= k < groups@.len() ==> #[trigger] groups@[k] < GROUP_COUNT,
            forall|i: int|
                0 <= i < GROUP_COUNT ==> #[trigger] flags@[i] == (exists|k: int|
                    0 <= k < j && groups@[k] == i),
        decreases groups@.len() - j,
    {
        let g: usize = *groups.get(j).unwrap();
        flags.set(g, true);
        j = j + 1;
    }
    proof {
        assert forall|i: int| 0 <= i < GROUP_COUNT implies #[trigger] flags@[i]
            == groups@.contains(i as usize) by {
            if flags@[i] {
                let k = choose|k: int| 0 <= k < groups@.len() && groups@[k] == i;
                assert(groups@.contains(i as usize));
            }
            if groups@.contains(i as usize) {
                let k = choose|k: int| 0 <= k < groups@.len() && groups@[k] == i as usize;
                assert(flags@[i]);
            }
        }
    }
    flags
}

impl CollisionGroups {
    pub open spec fn wf(self) -> bool {
        &&& self.membership@.len() == GROUP_COUNT
        &&& self.whitelist@.len() == GROUP_COUNT
        &&& self.blacklist@.len() == GROUP_COUNT
    }

    /// A fresh value: member of all groups, whitelisting all, blacklisting
    /// none.
    pub fn new() -> (r: CollisionGroups)
        ensures
            r.wf(),
            forall|i: int| 0 <= i < GROUP_COUNT ==> #[trigger] r.membership@[i],
            forall|i: int| 0 <= i < GROUP_COUNT ==> #[trigger] r.whitelist@[i],
            forall|i: int| 0 <= i < GROUP_COUNT ==> !(#[trigger] r.blacklist@[i]),
    {
        let mut membership: Vec<bool> = Vec::new();
        let mut whitelist: Vec<bool> = Vec::new();
        let mut blacklist: Vec<bool> = Vec::new();
        let mut i: usize = 0;
        while i < GROUP_COUNT
            invariant
                membership@.len() == i,
                whitelist@.len() == i,
                blacklist@.len() == i,
                0 <= i <= GROUP_COUNT,
                forall|k: int| 0 <= k < i ==> #[trigger] membership@[k],
                forall|k: int| 0 <= k < i ==> #[trigger] whitelist@[k],
                forall|k: int| 0 <= k < i ==> !(#[trigger] blacklist@[k]),
            decreases GROUP_COUNT - i,
        {
            membership.push(true);
            whitelist.push(true);
            blacklist.push(false);
            i = i + 1;
        }
        CollisionGroups { membership, whitelist, blacklist }
    }

    /// Makes this value a member of exactly the listed groups.
    pub fn set_membership(&mut self, groups: &Vec<usize>)
        requires
            old(self).wf(),
            forall|k: int| 0 <= k < groups@.len() ==> #[trigger] groups@[k] < GROUP_COUNT,
        ensures
            final(self).wf(),
            forall|i: int|
                0 <= i < GROUP_COUNT ==> #[trigger] final(self).membership@[i] == groups@.contains(
                    i as usize,
                ),
            final(self).whitelist == old(self).whitelist,
            final(self).blacklist == old(self).blacklist,
    {
        self.membership = flags_from_list(groups);
    }

    /// Whitelists exactly the listed groups.
    pub fn set_whitelist(&mut self, groups: &Vec<usize>)
        requires
            old(self).wf(),
            forall|k: int| 0 <= k < groups@.len() ==> #[trigger] groups@[k] < GROUP_COUNT,
        ensures
            final(self).wf(),
            forall|i: int|
                0 <= i < GROUP_COUNT ==> #[trigger] final(self).whitelist@[i] == groups@.contains(
                    i as usize,
                ),
            final(self).membership == old(self).membership,
            final(self).blacklist == old(self).blacklist,
    {
        self.whitelist = flags_from_list(groups);
    }

    /// Blacklists exactly the listed groups.
    pub fn set_blacklist(&mut self, groups: &Vec<usize>)
        requires
            old(self).wf(),
            forall|k: int| 0 <= k < groups@.len() ==> #[trigger] groups@[k] < GROUP_COUNT,
        ensures
            final(self).wf(),
            forall|i: int|
                0 <= i < GROUP_COUNT ==> #[trigger] final(self).blacklist@[i] == groups@.contains(
                    i as usize,
                ),
            final(self).membership == old(self).membership,
            final(self).whitelist == old(self).whitelist,
    {
        self.blacklist = flags_from_list(groups);
    }

    pub fn is_member_of(&self, group_id: usize) -> (r: bool)
        requires
            self.wf(),
            group_id < GROUP_COUNT,
        ensures
            r == self.membership@[group_id as int],
    {
        *self.membership.get(group_id).unwrap()
    }

    pub fn is_group_whitelisted(&self, group_id: usize) -> (r: bool)
        requires
            self.wf(),
            group_id < GROUP_COUNT,
        ensures
            r == self.whitelist@[group_id as int],
    {
        *self.whitelist.get(group_id).unwrap()
    }

    pub fn is_group_blacklisted(&self, group_id: usize) -> (r: bool)
        requires
            self.wf(),
            group_id < GROUP_COUNT,
        ensures
            r == self.blacklist@[group_id as int],
    {
        *self.blacklist.get(group_id).unwrap()
    }

    pub fn can_interact_with_groups(&self, other: &CollisionGroups) -> (r: bool)
        requires
            self.wf(),
            other.wf(),
        ensures
            r == can_interact_spec(*self, *other),
    {
        !masks_overlap(&self.membership, &other.blacklist) && !masks_overlap(
            &other.membership,
            &self.blacklist,
        ) && masks_overlap(&self.membership, &other.whitelist) && masks_overlap(
            &other.membership,
            &self.whitelist,
        )
    }
}

/// The group sets the generator registers shapes under: the wall group is a
/// member of group one only; a fresh default set is a member of everything.
/// Both whitelist everything and blacklist nothing, so all registered shapes
/// interact and only the entity-id filter separates them.
pub open spec fn is_wall_group(g: CollisionGroups) -> bool {
    &&& g.wf()
    &&& forall|i: int| 0 <= i < GROUP_COUNT ==> #[trigger] g.membership@[i] == (i == 1)
    &&& forall|i: int| 0 <= i < GROUP_COUNT ==> #[trigger] g.whitelist@[i]
    &&& forall|i: int| 0 <= i < GROUP_COUNT ==> !(#[trigger] g.blacklist@[i])
}

pub open spec fn is_default_group(g: CollisionGroups) -> bool {
    &&& g.wf()
    &&& forall|i: int| 0 <= i < GROUP_COUNT ==> #[trigger] g.membership@[i]
    &&& forall|i: int| 0 <= i < GROUP_COUNT ==> #[trigger] g.whitelist@[i]
    &&& forall|i: int| 0 <= i < GROUP_COUNT ==> !(#[trigger] g.blacklist@[i])
}

/// The named collision groups the generator uses.
pub struct CollGroups;

impl CollGroups {
    /// The group all walls are registered under.
    pub fn wall_cg() -> (r: CollisionGroups)
        ensures
            r.wf(),
            forall|i: int|
                0 <= i < GROUP_COUNT ==> #[trigger] r.membership@[i] == (i == 1),
            forall|i: int| 0 <= i < GROUP_COUNT ==> #[trigger] r.whitelist@[i],
            forall|i: int| 0 <= i < GROUP_COUNT ==> !(#[trigger] r.blacklist@[i]),
    {
        let mut cg = CollisionGroups::new();
        let mut members: Vec<usize> = Vec::new();
        members.push(1);
        cg.set_membership(&members);
        proof {
            assert(members@ =~= seq![1usize]);
            assert forall|i: int| 0 <= i < GROUP_COUNT implies #[trigger] cg.membership@[i] == (i
                == 1) by {
                if members@.contains(i as usize) {
                    let k = choose|k: int| 0 <= k < members@.len() && members@[k] == i as usize;
                }
                if i == 1 {
                    assert(members@[0] == 1usize);
                    assert(members@.contains(i as usize));
                }
            }
        }
        cg
    }
}

/// What kind of thing a registered shape belongs to.
#[derive(Eq, PartialEq, Structural, Debug, Copy, Clone)]
pub enum CollidableType {
    RoomWall,
    CompoundRoomWall,
    Generic,
}

/// The metadata attached to a registered shape: its kind and the id of the
/// entity it belongs to. Shapes with the same id never collide with each
/// other, so a compound room cannot collide with itself.
#[derive(Eq, PartialEq, Structural, Debug, Copy, Clone)]
pub struct CollidableDat {
    pub otype: CollidableType,
    pub id: usize,
}

impl CollidableDat {
    pub fn new(otype: CollidableType, id: usize) -> (r: CollidableDat)
        ensures
            r == (CollidableDat { otype, id }),
    {
        CollidableDat { otype, id }
    }
}

/// One registered object: a compound shape (rectangles placed relative to
/// `pos`), its groups and its metadata.
#[derive(Debug)]
pub struct CollObj {
    pub handle: u64,
    pub pos: Point,
    pub parts: Vec<CenteredRect>,
    pub group: CollisionGroups,
    pub dat: CollidableDat,
}

/// Positions and part offsets stay within half the coordinate budget, so
/// world-placed parts are always well-formed rectangles.
pub open spec fn obj_wf(o: CollObj) -> bool {
    &&& -45_000_000 <= o.pos.x <= 45_000_000
    &&& -45_000_000 <= o.pos.y <= 45_000_000
    &&& forall|i: int|
        0 <= i < o.parts@.len() ==> (#[trigger] o.parts@[i]).wf() && -45_000_000
            <= o.parts@[i].center.x <= 45_000_000 && -45_000_000 <= o.parts@[i].center.y
            <= 45_000_000
    &&& o.group.wf()
}

/// A part rectangle placed into the world at offset `pos`.
pub open spec fn world_rect_spec(part: CenteredRect, pos: Point) -> CenteredRect {
    CenteredRect {
        center: Point { x: (part.center.x + pos.x) as i64, y: (part.center.y + pos.y) as i64 },
        width: part.width,
        height: part.height,
    }
}

/// Whether any part of `a` touches any part of `b`, both placed into the
/// world.
pub open spec fn shapes_touch_spec(a: CollObj, b: CollObj) -> bool {
    exists|i: int, j: int|
        0 <= i < a.parts@.len() && 0 <= j < b.parts@.len() && rects_touch_spec(
            world_rect_spec(a.parts@[i], a.pos),
            world_rect_spec(b.parts@[j], b.pos),
        )
}

/// A reported contact pair: interacting groups, different entity ids, and
/// touching shapes.
pub open spec fn objs_contact_spec(a: CollObj, b: CollObj) -> bool {
    &&& can_interact_spec(a.group, b.group)
    &&& a.dat.id != b.dat.id
    &&& shapes_touch_spec(a, b)
}

/// Whether any two registered objects are in contact.
pub open spec fn any_contacts_spec(objs: Seq<CollObj>) -> bool {
    exists|i: int, j: int| 0 <= i < j < objs.len() && objs_contact_spec(objs[i], objs[j])
}

fn world_rect(part: &CenteredRect, pos: Point) -> (r: CenteredRect)
    requires
        part.wf(),
        -45_000_000 <= part.center.x <= 45_000_000,
        -45_000_000 <= part.center.y <= 45_000_000,
        -45_000_000 <= pos.x <= 45_000_000,
        -45_000_000 <= pos.y <= 45_000_000,
    ensures
        r == world_rect_spec(*part, pos),
        r.wf(),
{
    CenteredRect::new(
        Point::new(part.center.x + pos.x, part.center.y + pos.y),
        part.width,
        part.height,
    )
}

fn rect_touches_obj(wa: &CenteredRect, b: &CollObj) -> (r: bool)
    requires
        wa.wf(),
        obj_wf(*b),
    ensures
        r == exists|j: int|
            0 <= j < b.parts@.len() && rects_touch_spec(*wa, world_rect_spec(b.parts@[j], b.pos)),
{
    let mut j: usize = 0;
    while j < b.parts.len()
        invariant
            wa.wf(),
            obj_wf(*b),
            0 <= j <= b.parts@.len(),
            forall|j0: int|
                0 <= j0 < j ==> !rects_touch_spec(
                    *wa,
                    world_rect_spec(#[trigger] b.parts@[j0], b.pos),
                ),
        decreases b.parts@.len() - j,
    {
        let wb: CenteredRect = world_rect(b.parts.get(j).unwrap(), b.pos);
        if rects_touch(wa, &wb) {
            return true;
        }
        j = j + 1;
    }
    false
}

fn shapes_touch(a: &CollObj, b: &CollObj) -> (r: bool)
    requires
        obj_wf(*a),
        obj_wf(*b),
    ensures
        r == shapes_touch_spec(*a, *b),
{
    let mut i: usize = 0;
    while i < a.parts.len()
        invariant
            obj_wf(*a),
            obj_wf(*b),
            0 <= i <= a.parts@.len(),
            forall|i0: int, j0: int|
                0 <= i0 < i && 0 <= j0 < b.parts@.len() ==> !rects_touch_spec(
                    world_rect_spec(#[trigger] a.parts@[i0], a.pos),
                    world_rect_spec(#[trigger] b.parts@[j0], b.pos),
                ),
        decreases a.parts@.len() - i,
    {
        let wa: CenteredRect = world_rect(a.parts.get(i).unwrap(), a.pos);
        if rect_touches_obj(&wa, b) {
            return true;
        }
        i = i + 1;
    }
    false
}

/// Whether `a` and `b` form a contact pair.
pub fn objs_contact(a: &CollObj, b: &CollObj) -> (r: bool)
    requires
        obj_wf(*a),
        obj_wf(*b),
    ensures
        r == objs_contact_spec(*a, *b),
{
    a.group.can_interact_with_groups(&b.group) && a.dat.id != b.dat.id && shapes_touch(a, b)
}

/// The collision world: the registered objects and the next fresh handle.
#[derive(Debug)]
pub struct CollW {
    pub objs: Vec<CollObj>,
    pub next_handle: u64,
}

impl CollW {
    pub open spec fn wf(self) -> bool {
        &&& forall|i: int| 0 <= i < self.objs@.len() ==> obj_wf(#[trigger] self.objs@[i])
        &&& forall|i: int|
            0 <= i < self.objs@.len() ==> (#[trigger] self.objs@[i]).handle < self.next_handle
    }

    /// Registers a compound shape and hands back its fresh handle.
    pub fn register(
        &mut self,
        pos: Point,
        parts: Vec<CenteredRect>,
        group: CollisionGroups,
        dat: CollidableDat,
    ) -> (h: u64)
        requires
            old(self).wf(),
            old(self).next_handle < 0xffff_ffff_ffff_ffff,
            -45_000_000 <= pos.x <= 45_000_000,
            -45_000_000 <= pos.y <= 45_000_000,
            forall|i: int|
                0 <= i < parts@.len() ==> (#[trigger] parts@[i]).wf() && -45_000_000
                    <= parts@[i].center.x <= 45_000_000 && -45_000_000 <= parts@[i].center.y
                    <= 45_000_000,
            group.wf(),
        ensures
            final(self).wf(),
            h == old(self).next_handle,
            final(self).next_handle == old(self).next_handle + 1,
            final(self).objs@ == old(self).objs@.push(
                CollObj { handle: old(self).next_handle, pos, parts, group, dat },
            ),
    {
        let h: u64 = self.next_handle;
        let obj = CollObj { handle: h, pos, parts, group, dat };
        self.objs.push(obj);
        self.next_handle = h + 1;
        h
    }

    /// Removes every object whose handle is listed.
    pub fn remove(&mut self, handles: &Vec<u64>)
        requires
            old(self).wf(),
        ensures
            final(self).wf(),
            final(self).next_handle == old(self).next_handle,
            final(self).objs@ == old(self).objs@.filter(
                |o: CollObj| !handles@.contains(o.handle),
            ),
    {
        let ghost pred = |o: CollObj| !handles@.contains(o.handle);
        let ghost orig: Seq<CollObj> = self.objs@;
        let mut i: usize = 0;
        let ghost j: int = 0;
        while i < self.objs.len()
            invariant
                0 <= i <= self.objs@.len(),
                0 <= j <= orig.len(),
                self.objs@.len() - i == orig.len() - j,
                self.objs@.take(i as int) == orig.take(j).filter(pred),
                self.objs@.skip(i as int) == orig.skip(j),
                pred == (|o: CollObj| !handles@.contains(o.handle)),
                forall|k: int| 0 <= k < orig.len() ==> obj_wf(#[trigger] orig[k]),
                forall|k: int|
                    0 <= k < orig.len() ==> (#[trigger] orig[k]).handle < old(self).next_handle,
                forall|k: int| 0 <= k < self.objs@.len() ==> obj_wf(#[trigger] self.objs@[k]),
                forall|k: int|
                    0 <= k < self.objs@.len() ==> (#[trigger] self.objs@[k]).handle < old(
                        self,
                    ).next_handle,
                self.next_handle == old(self).next_handle,
            decreases self.objs@.len() - i,
        {
            proof {
                assert(self.objs@[i as int] == orig[j]) by {
                    assert(self.objs@.skip(i as int)[0] == orig.skip(j)[0]);
                }
                lemma_filter_take_step(orig, pred, j);
            }
            let keep: bool = !vec_contains_u64(handles, self.objs.get(i).unwrap().handle);
            if keep {
                proof {
                    assert(self.objs@.take(i + 1) =~= self.objs@.take(i as int).push(
                        self.objs@[i as int],
                    ));
                    assert(self.objs@.skip(i + 1) =~= self.objs@.skip(i as int).skip(1));
                    assert(orig.skip(j + 1) =~= orig.skip(j).skip(1));
                }
                i = i + 1;
            } else {
                let ghost before: Seq<CollObj> = self.objs@;
                self.objs.remove(i);
                proof {
                    assert(self.objs@.take(i as int) =~= before.take(i as int));
                    assert(self.objs@.skip(i as int) =~= before.skip(i as int).skip(1));
                    assert(orig.skip(j + 1) =~= orig.skip(j).skip(1));
                }
            }
            proof {
                j = j + 1;
            }
        }
        proof {
            assert(orig.take(j) =~= orig);
            assert(self.objs@.take(i as int) =~= self.objs@);
            assert(forall|k: int|
                0 <= k < self.objs@.len() ==> self.objs@.take(self.objs@.len() as int)[k]
                    == #[trigger] self.objs@[k]);
        }
    }
}

fn vec_contains_u64(v: &Vec<u64>, x: u64) -> (r: bool)
    ensures
        r == v@.contains(x),
{
    let mut i: usize = 0;
    while i < v.len()
        invariant
            0 <= i <= v@.len(),
            forall|k: int| 0 <= k < i ==> #[trigger] v@[k] != x,
        decreases v@.len() - i,
    {
        if *v.get(i).unwrap() == x {
            return true;
        }
        i = i + 1;
    }
    false
}

/// A fresh collision world. Pairs of shapes registered with the same entity
/// id are never reported, which keeps a compound room from colliding with
/// itself.
pub fn new_collw() -> (r: CollW)
    ensures
        r.wf(),
        r.objs@.len() == 0,
        r.next_handle == 0,
{
    CollW { objs: Vec::new(), next_handle: 0 }
}

/// True when no pair of registered objects is in contact.
pub fn has_no_collisions(collw: &CollW) -> (r: bool)
    requires
        collw.wf(),
    ensures
        r == !any_contacts_spec(collw.objs@),
{
    let n: usize = collw.objs.len();
    let mut i: usize = 0;
    while i < n
        invariant
            collw.wf(),
            n == collw.objs@.len(),
            0 <= i <= n,
            forall|i0: int, j0: int|
                0 <= i0 < j0 < n && i0 < i ==> !objs_contact_spec(
                    #[trigger] collw.objs@[i0],
                    #[trigger] collw.objs@[j0],
                ),
        decreases n - i,
    {
        let mut j: usize = i + 1;
        while j < n
            invariant
                collw.wf(),
                n == collw.objs@.len(),
                0 <= i < j <= n,
                forall|j0: int|
                    i < j0 < j ==> !objs_contact_spec(
                        collw.objs@[i as int],
                        #[trigger] collw.objs@[j0],
                    ),
            decreases n - j,
        {
            if objs_contact(collw.objs.get(i).unwrap(), collw.objs.get(j).unwrap()) {
                return false;
            }
            j = j + 1;
        }
        i = i + 1;
    }
    true
}

} // verus!
