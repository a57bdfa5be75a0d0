use crate::bytes::{signed, to_signed};
use std::collections::HashMap;
use std::sync::mpsc::Sender;
use vstd::prelude::*;
use vstd::std_specs::hash::spec_keys_iter;
use vstd::std_specs::iter::IteratorSpec;

verus! {

broadcast use vstd::std_specs::hash::group_hash_axioms;

/// A reply channel of the standard library, carried through unchanged.
#[verifier::external_type_specification]
#[verifier::external_body]
#[verifier::reject_recursive_types(T)]
pub struct ExSender<T>(Sender<T>);

/// `Sender::clone` makes another sender to the same channel; nothing about
/// the new sender is claimed.
pub assume_specification<T>[ <Sender<T> as Clone>::clone ](s: &Sender<T>) -> Sender<T>;

/// An entity of the game world.
#[derive(Default, Debug, Clone, Copy)]
pub struct Obj {
    pub x: u32,
    pub y: u32,
    pub dx: i32,
    pub dy: i32,
    pub id: u32,
}

/// A request to the game loop.
#[allow(inconsistent_fields)]
#[derive(Debug, Clone)]
pub enum Interaction {
    CreateEntity { x: u32, y: u32 },
    ClearEntities,
    MoveEntity { x: i32, y: i32, id: u32 },
    CreateControlEntity { tx: Sender<Obj> },
    DisconnectControlEntity { id: u32 },
}

/// Abstract state of the game world: the objects by id, and the id the next
/// created object receives.
pub struct GameView {
    pub objs: Map<u32, Obj>,
    pub next_id: u32,
}

/// The world that the game loop owns.
pub struct GameState {
    objs: HashMap<u32, Obj>,
    next_id: u32,
}

impl View for GameState {
    type V = GameView;

    closed spec fn view(&self) -> GameView {
        GameView { objs: self.objs@, next_id: self.next_id }
    }
}

impl GameView {
    /// Every object is stored under its own id, and that id was handed out
    /// before `next_id`.
    pub open spec fn wf(self) -> bool {
        &&& self.objs.dom().finite()
        &&& forall|k: u32| #[trigger] self.objs.contains_key(k) ==> self.objs[k].id == k && k < self.next_id
    }
}

/// The object that a creation with id `id` at `(x, y)` adds.
pub open spec fn created(x: u32, y: u32, id: u32) -> Obj {
    Obj { x, y, dx: 0, dy: 0, id }
}

/// Where a control entity is placed when it is created.
pub const CONTROL_START_X: u32 = 300;

/// Where a control entity is placed when it is created.
pub const CONTROL_START_Y: u32 = 300;

impl GameView {
    /// The world after `event`, and the object handed back to the requester
    /// (only a control entity's creation hands one back).
    pub open spec fn handled(self, event: Interaction) -> (GameView, Option<Obj>) {
        match event {
            Interaction::CreateEntity { x, y } => (
                GameView {
                    objs: self.objs.insert(self.next_id, created(x, y, self.next_id)),
                    next_id: (self.next_id + 1) as u32,
                },
                None,
            ),
            Interaction::ClearEntities => (
                GameView { objs: Map::empty(), next_id: 0 },
                None,
            ),
            Interaction::MoveEntity { x, y, id } => (
                if self.objs.contains_key(id) {
                    GameView {
                        objs: self.objs.insert(id, Obj { dx: x, dy: y, ..self.objs[id] }),
                        ..self
                    }
                } else {
                    self
                },
                None,
            ),
            Interaction::CreateControlEntity { .. } => {
                let o = created(CONTROL_START_X, CONTROL_START_Y, self.next_id);
                (
                    GameView {
                        objs: self.objs.insert(self.next_id, o),
                        next_id: (self.next_id + 1) as u32,
                    },
                    Some(o),
                )
            },
            Interaction::DisconnectControlEntity { id } => (
                GameView { objs: self.objs.remove(id), ..self },
                None,
            ),
        }
    }

    /// Whether `event` can be handled without running out of ids.
    pub open spec fn can_handle(self, event: Interaction) -> bool {
        (event is CreateEntity || event is CreateControlEntity) ==> self.next_id < u32::MAX
    }
}

/// Whether `o` is moving under its own velocity.
pub open spec fn is_moving(o: Obj) -> bool {
    o.dx != 0 || o.dy != 0
}

/// A coordinate moved by `off`, read as a signed value and stopped at zero.
pub open spec fn moved_coord(c: u32, off: i32) -> u32 {
    let s = signed(c) + off;
    if s < 0 {
        0
    } else {
        s as u32
    }
}

/// Whether one frame's step of `o` stays within the integer ranges: a
/// moving object's signed coordinates plus their displacements, a resting
/// object's `x` plus its drift.
pub open spec fn step_fits(o: Obj, off_x: i32, off_y: i32, drift: u32) -> bool {
    if is_moving(o) {
        &&& i32::MIN <= signed(o.x) + off_x <= i32::MAX
        &&& i32::MIN <= signed(o.y) + off_y <= i32::MAX
    } else {
        o.x + drift <= u32::MAX
    }
}

/// One frame's step of `o`: a moving object is displaced by
/// `(off_x, off_y)` and kept at non-negative coordinates, a resting one
/// drifts by `drift` along `x`.
pub open spec fn stepped(o: Obj, off_x: i32, off_y: i32, drift: u32) -> Obj {
    if is_moving(o) {
        Obj { x: moved_coord(o.x, off_x), y: moved_coord(o.y, off_y), ..o }
    } else {
        Obj { x: (o.x + drift) as u32, ..o }
    }
}

/// Moves a coordinate by `off`, stopping at zero.
fn move_coord(c: u32, off: i32) -> (r: u32)
    requires
        i32::MIN <= signed(c) + off <= i32::MAX,
    ensures
        r == moved_coord(c, off),
{
    let s = to_signed(c) + off;
    if s < 0 {
        0
    } else {
        s as u32
    }
}

/// Whether `snap` lists each object of `objs` exactly once, and nothing
/// else, in some order.
pub open spec fn is_snapshot(objs: Map<u32, Obj>, snap: Seq<Obj>) -> bool {
    &&& snap.len() == objs.dom().len()
    &&& forall|i: int|
        0 <= i < snap.len() ==> #[trigger] objs.contains_key(snap[i].id) && objs[snap[i].id]
            == snap[i]
    &&& forall|i: int, j: int| 0 <= i < j < snap.len() ==> #[trigger] snap[i].id != #[trigger] snap[j].id
    &&& forall|k: u32| #[trigger] objs.contains_key(k) ==> exists|i: int| 0 <= i < snap.len() && snap[i].id == k
}

impl GameState {
    pub fn new() -> (s: Self)
        ensures
            s@.objs == Map::<u32, Obj>::empty(),
            s@.next_id == 0,
            s@.wf(),
    {
        GameState { objs: HashMap::new(), next_id: 0 }
    }

    /// The id that the next created object receives.
    pub fn next_id(&self) -> (id: u32)
        ensures
            id == self@.next_id,
    {
        self.next_id
    }

    /// Applies one request to the world; a control entity's creation hands
    /// back the new object, to be sent to the requester.
    pub fn apply(&mut self, event: &Interaction) -> (reply: Option<Obj>)
        requires
            old(self)@.wf(),
            old(self)@.can_handle(*event),
        ensures
            final(self)@.wf(),
            (final(self)@, reply) == old(self)@.handled(*event),
    {
        match event {
            Interaction::CreateEntity { x, y } => {
                let id = self.next_id;
                self.objs.insert(id, Obj { x: *x, y: *y, id, dx: 0, dy: 0 });
                self.next_id = id + 1;
                None
            },
            Interaction::ClearEntities => {
                self.objs.clear();
                self.next_id = 0;
                None
            },
            Interaction::MoveEntity { x, y, id } => {
                match self.objs.get(id) {
                    Some(o) => {
                        let moved = Obj { dx: *x, dy: *y, ..*o };
                        self.objs.insert(*id, moved);
                    },
                    None => {},
                }
                None
            },
            Interaction::CreateControlEntity { .. } => {
                let id = self.next_id;
                let ctrl = Obj { x: CONTROL_START_X, y: CONTROL_START_Y, id, dx: 0, dy: 0 };
                self.objs.insert(id, ctrl);
                self.next_id = id + 1;
                Some(ctrl)
            },
            Interaction::DisconnectControlEntity { id } => {
                self.objs.remove(id);
                None
            },
        }
    }

    /// The ids of all objects, each once.
    fn ids(&self) -> (ids: Vec<u32>)
        ensures
            ids@.no_duplicates(),
            ids@.len() == self@.objs.dom().len(),
            forall|k: u32| #[trigger] ids@.contains(k) <==> self@.objs.contains_key(k),
    {
        let ghost all = spec_keys_iter(&self.objs).remaining().unref();
        let mut ids: Vec<u32> = Vec::new();
        for k in it: self.objs.keys()
            invariant
                it.seq().unref() == all,
                ids@ == it.seq().take(it.index()).unref(),
                it.index() <= all.len(),
        {
            ids.push(*k);
            proof {
                assert(ids@ =~= it.seq().take(it.index() + 1).unref());
            }
        }
        proof {
            assert(ids@ =~= all);
            assert forall|k: u32| #[trigger] ids@.contains(k) <==> self@.objs.contains_key(k) by {
                assert(ids@.contains(k) <==> ids@.to_set().contains(k));
            }
        }
        ids
    }

    /// All objects of the world, each once, in no particular order.
    pub fn objects(&self) -> (objs: Vec<Obj>)
        requires
            self@.wf(),
        ensures
            is_snapshot(self@.objs, objs@),
    {
        let ids = self.ids();
        let mut objs: Vec<Obj> = Vec::new();
        let mut i: usize = 0;
        while i < ids.len()
            invariant
                self@.wf(),
                i <= ids@.len(),
                ids@.no_duplicates(),
                forall|k: u32| #[trigger] ids@.contains(k) <==> self@.objs.contains_key(k),
                objs@.len() == i,
                forall|j: int| 0 <= j < i ==> #[trigger] objs@[j] == self@.objs[ids@[j]],
                forall|j: int| 0 <= j < i ==> objs@[j].id == ids@[j],
            decreases ids@.len() - i,
        {
            let id = ids[i];
            assert(ids@.contains(id));
            let o = *self.objs.get(&id).unwrap();
            objs.push(o);
            i = i + 1;
        }
        assert forall|k: u32| #[trigger] self@.objs.contains_key(k) implies exists|i: int| 0 <= i < objs@.len() && objs@[i].id == k by {
            assert(ids@.contains(k));
            let j = choose|j: int| 0 <= j < ids@.len() && ids@[j] == k;
            assert(objs@[j].id == k);
        }
        assert forall|i: int| 0 <= i < objs@.len() implies #[trigger] self@.objs.contains_key(objs@[i].id)
            && self@.objs[objs@[i].id] == objs@[i] by {
            assert(ids@.contains(ids@[i]));
        }
        objs
    }

    /// Advances the object `id` by one frame; an absent id changes nothing.
    /// The displacements and the drift are those of this frame's elapsed time.
    pub fn advance_object(&mut self, id: u32, off_x: i32, off_y: i32, drift: u32)
        requires
            old(self)@.wf(),
            old(self)@.objs.contains_key(id) ==> step_fits(old(self)@.objs[id], off_x, off_y, drift),
        ensures
            final(self)@.wf(),
            final(self)@.next_id == old(self)@.next_id,
            final(self)@.objs == if old(self)@.objs.contains_key(id) {
                old(self)@.objs.insert(id, stepped(old(self)@.objs[id], off_x, off_y, drift))
            } else {
                old(self)@.objs
            },
    {
        let o = match self.objs.get(&id) {
            Some(o) => *o,
            None => return,
        };
        let next = if o.dx != 0 || o.dy != 0 {
            Obj { x: move_coord(o.x, off_x), y: move_coord(o.y, off_y), ..o }
        } else {
            Obj { x: o.x + drift, ..o }
        };
        self.objs.insert(id, next);
    }
}

/// Creating an entity gives it an id that no object has, adds exactly that
/// one object, and leaves every other object as it was.
pub proof fn lemma_create_is_fresh(s: GameView, x: u32, y: u32)
    requires
        s.wf(),
        s.next_id < u32::MAX,
    ensures
        ({
            let t = s.handled(Interaction::CreateEntity { x, y }).0;
            &&& !s.objs.contains_key(s.next_id)
            &&& t.objs.contains_key(s.next_id)
            &&& t.objs[s.next_id] == created(x, y, s.next_id)
            &&& t.objs.len() == s.objs.len() + 1
            &&& t.objs.remove(s.next_id) == s.objs
        }),
{
    let t = s.handled(Interaction::CreateEntity { x, y }).0;
    assert(t.objs.remove(s.next_id) =~= s.objs);
}

/// The object handed back for a control entity is the one the world now
/// holds under its id, at the start position and at rest, and it is new.
pub proof fn lemma_control_entity_reply(s: GameView, event: Interaction)
    requires
        s.wf(),
        s.next_id < u32::MAX,
        event is CreateControlEntity,
    ensures
        ({
            let (t, reply) = s.handled(event);
            &&& reply is Some
            &&& !s.objs.contains_key(reply->0.id)
            &&& t.objs.contains_key(reply->0.id)
            &&& t.objs[reply->0.id] == reply->0
            &&& reply->0 == created(CONTROL_START_X, CONTROL_START_Y, s.next_id)
            &&& reply->0.id == s.next_id
            &&& t.next_id == s.next_id + 1
            &&& t.objs.remove(s.next_id) == s.objs
            &&& forall|k: u32| k != s.next_id ==> (#[trigger] t.objs.contains_key(k) <==> s.objs.contains_key(k))
            &&& forall|k: u32| k != s.next_id && #[trigger] s.objs.contains_key(k) ==> t.objs[k] == s.objs[k]
        }),
{
    let t = s.handled(event).0;
    assert(t.objs.remove(s.next_id) =~= s.objs);
}

/// Setting a velocity neither adds nor removes objects, and changes nothing
/// but the velocity of the named object.
pub proof fn lemma_move_keeps_objects(s: GameView, dx: i32, dy: i32, id: u32)
    requires
        s.wf(),
    ensures
        ({
            let t = s.handled(Interaction::MoveEntity { x: dx, y: dy, id }).0;
            &&& t.next_id == s.next_id
            &&& t.objs.dom() == s.objs.dom()
            &&& forall|k: u32| #[trigger] t.objs.contains_key(k) ==> {
                let (a, b) = (s.objs[k], t.objs[k]);
                &&& b.x == a.x && b.y == a.y && b.id == a.id
                &&& (k == id ==> b.dx == dx && b.dy == dy)
                &&& (k != id ==> b == a)
            }
        }),
{
    let t = s.handled(Interaction::MoveEntity { x: dx, y: dy, id }).0;
    assert(t.objs.dom() =~= s.objs.dom());
}

/// After clearing, the world is empty and ids start again from zero;
/// after a disconnect, the id names no object and the others stay.
pub proof fn lemma_clear_and_disconnect(s: GameView, id: u32)
    requires
        s.wf(),
    ensures
        s.handled(Interaction::ClearEntities).0.objs.dom().len() == 0,
        s.handled(Interaction::ClearEntities).0.next_id == 0,
        !s.handled(Interaction::DisconnectControlEntity { id }).0.objs.contains_key(id),
        forall|k: u32|
            k != id && #[trigger] s.objs.contains_key(k) ==> s.handled(
                Interaction::DisconnectControlEntity { id },
            ).0.objs.contains_key(k) && s.handled(
                Interaction::DisconnectControlEntity { id },
            ).0.objs[k] == s.objs[k],
{
    assert(Map::<u32, Obj>::empty().dom() =~= Set::empty());
}

/// Stepping an object keeps its id and velocity, and a moving object never
/// ends at a negative coordinate: a displacement that would take it below
/// zero stops it at zero.
pub proof fn lemma_step_keeps_identity(o: Obj, off_x: i32, off_y: i32, drift: u32)
    requires
        step_fits(o, off_x, off_y, drift),
    ensures
        stepped(o, off_x, off_y, drift).id == o.id,
        stepped(o, off_x, off_y, drift).dx == o.dx,
        stepped(o, off_x, off_y, drift).dy == o.dy,
        is_moving(o) && signed(o.x) + off_x < 0 ==> stepped(o, off_x, off_y, drift).x == 0,
        is_moving(o) && signed(o.y) + off_y < 0 ==> stepped(o, off_x, off_y, drift).y == 0,
        !is_moving(o) ==> stepped(o, off_x, off_y, drift).x == o.x + drift
            && stepped(o, off_x, off_y, drift).y == o.y,
{
}

/// The empty world that the game loop starts from.
pub open spec fn initial_world() -> GameView {
    GameView { objs: Map::empty(), next_id: 0 }
}

/// The world after the requests `h`, one after another, from `s`.
pub open spec fn run(s: GameView, h: Seq<Interaction>) -> GameView
    decreases h.len(),
{
    if h.len() == 0 {
        s
    } else {
        run(s, h.drop_last()).handled(h.last()).0
    }
}

/// Whether each request of `h` can be handled in turn from `s`.
pub open spec fn runnable(s: GameView, h: Seq<Interaction>) -> bool
    decreases h.len(),
{
    if h.len() == 0 {
        true
    } else {
        runnable(s, h.drop_last()) && run(s, h.drop_last()).can_handle(h.last())
    }
}

/// Whether `e` asks for a new object.
pub open spec fn is_creation(e: Interaction) -> bool {
    e is CreateEntity || e is CreateControlEntity
}

/// The object that the creation request `e` adds under the id `id`.
pub open spec fn creation_obj(e: Interaction, id: u32) -> Obj {
    match e {
        Interaction::CreateEntity { x, y } => created(x, y, id),
        _ => created(CONTROL_START_X, CONTROL_START_Y, id),
    }
}

/// Whether request `i` of `h`, run from `s`, creates the object `k`.
pub open spec fn creates_id(s: GameView, h: Seq<Interaction>, i: int, k: u32) -> bool {
    is_creation(h[i]) && run(s, h.take(i)).next_id == k
}

/// Whether `e` clears the world or disconnects `k`.
pub open spec fn ends_life(e: Interaction, k: u32) -> bool {
    match e {
        Interaction::ClearEntities => true,
        Interaction::DisconnectControlEntity { id } => id == k,
        _ => false,
    }
}

/// Whether a request after the `i`-th of `h` clears the world or
/// disconnects `k`.
pub open spec fn removed_after(h: Seq<Interaction>, i: int, k: u32) -> bool {
    exists|j: int| i < j < h.len() && #[trigger] ends_life(h[j], k)
}

/// Whether, over the history `h` from the empty world, some request created
/// the object `k` and no later request cleared the world or disconnected it.
pub open spec fn is_live(h: Seq<Interaction>, k: u32) -> bool {
    exists|i: int| 0 <= i < h.len() && #[trigger] creates_id(initial_world(), h, i, k) && !removed_after(h, i, k)
}

/// Handling one more request extends the run by that request, so a world
/// kept by `GameState::apply` is the run of the requests applied so far.
pub proof fn lemma_run_push(s: GameView, h: Seq<Interaction>, e: Interaction)
    ensures
        run(s, h.push(e)) == run(s, h).handled(e).0,
        runnable(s, h.push(e)) == (runnable(s, h) && run(s, h).can_handle(e)),
{
    assert(h.push(e).drop_last() =~= h);
}

proof fn lemma_handled_wf(s: GameView, e: Interaction)
    requires
        s.wf(),
        s.can_handle(e),
    ensures
        s.handled(e).0.wf(),
{
}

/// Every world reached by handling requests in turn is well formed.
pub proof fn lemma_run_wf(s: GameView, h: Seq<Interaction>)
    requires
        s.wf(),
        runnable(s, h),
    ensures
        run(s, h).wf(),
    decreases h.len(),
{
    if h.len() > 0 {
        lemma_run_wf(s, h.drop_last());
        lemma_handled_wf(run(s, h.drop_last()), h.last());
    }
}

/// Once an id that was handed out is disconnected, no later request brings
/// it back until the world is cleared.
pub proof fn lemma_disconnected_id_stays_gone(s: GameView, id: u32, h: Seq<Interaction>)
    requires
        s.wf(),
        id < s.next_id,
        runnable(s.handled(Interaction::DisconnectControlEntity { id }).0, h),
        forall|i: int| 0 <= i < h.len() ==> !(#[trigger] h[i] is ClearEntities),
    ensures
        !run(s.handled(Interaction::DisconnectControlEntity { id }).0, h).objs.contains_key(id),
{
    lemma_gone_stays_gone(s.handled(Interaction::DisconnectControlEntity { id }).0, id, h);
}

proof fn lemma_gone_stays_gone(t: GameView, id: u32, h: Seq<Interaction>)
    requires
        !t.objs.contains_key(id),
        id < t.next_id,
        runnable(t, h),
        forall|i: int| 0 <= i < h.len() ==> !(#[trigger] h[i] is ClearEntities),
    ensures
        !run(t, h).objs.contains_key(id),
        id < run(t, h).next_id,
    decreases h.len(),
{
    if h.len() > 0 {
        let h0 = h.drop_last();
        assert forall|i: int| 0 <= i < h0.len() implies !(#[trigger] h0[i] is ClearEntities) by {
            assert(h0[i] == h[i]);
        }
        lemma_gone_stays_gone(t, id, h0);
        assert(!(h[h.len() - 1] is ClearEntities));
    }
}

/// After a clear, `m` creation requests in a row give the ids `0` to
/// `m - 1` in the order received, each to the object its request asks for,
/// and nothing else is in the world.
pub proof fn lemma_clear_then_creations(s: GameView, h: Seq<Interaction>)
    requires
        forall|i: int| 0 <= i < h.len() ==> is_creation(#[trigger] h[i]),
        h.len() < u32::MAX,
    ensures
        runnable(s.handled(Interaction::ClearEntities).0, h),
        run(s.handled(Interaction::ClearEntities).0, h).next_id == h.len(),
        forall|k: u32|
            #[trigger] run(s.handled(Interaction::ClearEntities).0, h).objs.contains_key(k) <==> k
                < h.len(),
        forall|k: u32|
            k < h.len() ==> #[trigger] run(s.handled(Interaction::ClearEntities).0, h).objs[k]
                == creation_obj(h[k as int], k),
    decreases h.len(),
{
    let t0 = s.handled(Interaction::ClearEntities).0;
    if h.len() > 0 {
        let h0 = h.drop_last();
        assert forall|i: int| 0 <= i < h0.len() implies is_creation(#[trigger] h0[i]) by {
            assert(h0[i] == h[i]);
        }
        lemma_clear_then_creations(s, h0);
        assert forall|k: u32| k < h0.len() implies h0[k as int] == h[k as int] by {}
    }
}

/// Over a whole history from the empty world, an object is in the world
/// exactly when some request created it and no later request cleared the
/// world or disconnected it.
pub proof fn lemma_live_objects(h: Seq<Interaction>)
    requires
        runnable(initial_world(), h),
    ensures
        forall|k: u32| #[trigger] run(initial_world(), h).objs.contains_key(k) <==> is_live(h, k),
        run(initial_world(), h).wf(),
    decreases h.len(),
{
    let s = initial_world();
    lemma_run_wf(s, h);
    if h.len() > 0 {
        let n = h.len() - 1;
        let h0 = h.drop_last();
        let e = h.last();
        let t0 = run(s, h0);
        lemma_live_objects(h0);
        assert forall|i: int| 0 <= i <= n implies #[trigger] h.take(i) == h0.take(i) by {
            assert(h.take(i) =~= h0.take(i));
        }
        assert(h.take(n) =~= h0);
        assert forall|k: u32|
            #[trigger] run(s, h).objs.contains_key(k) <==> exists|i: int|
                0 <= i < h.len() && #[trigger] creates_id(s, h, i, k) && !removed_after(h, i, k) by {
            assert forall|i: int| 0 <= i < n implies (#[trigger] creates_id(s, h, i, k) <==> creates_id(
                s,
                h0,
                i,
                k,
            )) by {
                assert(h.take(i) == h0.take(i));
                assert(h[i] == h0[i]);
            }
            assert forall|i: int| 0 <= i < n implies (removed_after(h, i, k) <==> (removed_after(h0, i, k) || ends_life(e, k))) by {
                if removed_after(h, i, k) {
                    let j = choose|j: int| i < j < h.len() && #[trigger] ends_life(h[j], k);
                    if j < n {
                        assert(h0[j] == h[j]);
                    }
                }
                if removed_after(h0, i, k) {
                    let j = choose|j: int| i < j < h0.len() && #[trigger] ends_life(h0[j], k);
                    assert(h[j] == h0[j]);
                }
                if ends_life(e, k) {
                    assert(h[n] == e);
                }
            }
            assert(!removed_after(h, n, k));
            if run(s, h).objs.contains_key(k) {
                if is_creation(e) && k == t0.next_id {
                    assert(creates_id(s, h, n, k));
                } else {
                    assert(t0.objs.contains_key(k));
                    let i = choose|i: int|
                        0 <= i < h0.len() && #[trigger] creates_id(s, h0, i, k) && !removed_after(
                            h0,
                            i,
                            k,
                        );
                    assert(creates_id(s, h, i, k));
                }
            }
            if exists|i: int| 0 <= i < h.len() && #[trigger] creates_id(s, h, i, k) && !removed_after(h, i, k) {
                let i = choose|i: int|
                    0 <= i < h.len() && #[trigger] creates_id(s, h, i, k) && !removed_after(h, i, k);
                if i < n {
                    assert(creates_id(s, h0, i, k));
                    assert(t0.objs.contains_key(k));
                } else {
                    assert(creates_id(s, h, n, k));
                }
            }
        }
    }
}

/// A snapshot of a world that holds the objects of the history `h` (the
/// objects may since have moved, which changes no id) lists exactly the
/// live objects of `h`, each once.
pub proof fn lemma_snapshot_lists_live_objects(h: Seq<Interaction>, v: GameView, snap: Seq<Obj>)
    requires
        runnable(initial_world(), h),
        v.objs.dom() == run(initial_world(), h).objs.dom(),
        is_snapshot(v.objs, snap),
    ensures
        forall|k: u32| (exists|i: int| 0 <= i < snap.len() && #[trigger] snap[i].id == k) <==> is_live(h, k),
        forall|i: int, j: int| 0 <= i < j < snap.len() ==> #[trigger] snap[i].id != #[trigger] snap[j].id,
{
    lemma_live_objects(h);
    assert forall|k: u32| (exists|i: int| 0 <= i < snap.len() && #[trigger] snap[i].id == k) <==> is_live(h, k) by {
        if exists|i: int| 0 <= i < snap.len() && #[trigger] snap[i].id == k {
            let i = choose|i: int| 0 <= i < snap.len() && #[trigger] snap[i].id == k;
            assert(v.objs.contains_key(snap[i].id));
            assert(v.objs.dom().contains(k));
            assert(run(initial_world(), h).objs.contains_key(k));
        }
        if is_live(h, k) {
            assert(run(initial_world(), h).objs.contains_key(k));
            assert(v.objs.dom().contains(k));
            assert(v.objs.contains_key(k));
        }
    }
}

/// One frame's step in terms of the velocity: an object with any non-zero
/// velocity component has both coordinates, read as two's-complement values,
/// displaced by the offsets and stopped at zero; only an object at rest on
/// both axes drifts, along `x` alone. The id and velocity never change.
pub proof fn lemma_step_by_velocity(o: Obj, off_x: i32, off_y: i32, drift: u32)
    ensures
        ({
            let r = stepped(o, off_x, off_y, drift);
            let sx = if o.x < 0x8000_0000 { o.x as int } else { o.x - 0x1_0000_0000 };
            let sy = if o.y < 0x8000_0000 { o.y as int } else { o.y - 0x1_0000_0000 };
            &&& r.id == o.id && r.dx == o.dx && r.dy == o.dy
            &&& (o.dx != 0 || o.dy != 0) ==> r.x == (if sx + off_x < 0 { 0 } else { sx + off_x })
                && r.y == (if sy + off_y < 0 { 0 } else { sy + off_y })
            &&& (o.dx == 0 && o.dy == 0 && o.x + drift <= u32::MAX) ==> r.x == o.x + drift && r.y == o.y
        }),
{
}

} // verus!
