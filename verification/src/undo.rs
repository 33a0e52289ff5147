//! The composer's undo buffer. Deleted entities are moved into a separate
//! world ("hades") so that undoing the deletion can bring them back; when an
//! undo action falls off the end of the bounded buffer, its entities are
//! destroyed for good.
use std::collections::VecDeque;

use vstd::prelude::*;
use vstd::seq_lib::lemma_flatten_concat;
use vstd::std_specs::iter::IteratorSpec;

verus! {

broadcast use vstd::std_specs::vecdeque::group_vec_dequeue_axioms;

#[verifier::external_type_specification]
#[verifier::external_body]
pub struct ExWorld(hecs::World);

#[verifier::external_type_specification]
#[verifier::external_body]
pub struct ExTakenEntity<'a>(hecs::TakenEntity<'a>);

#[verifier::external_type_specification]
#[verifier::external_body]
pub struct ExNoSuchEntity(hecs::NoSuchEntity);

/// The entities a `hecs::World` holds (those for which `World::contains` is
/// true).
pub uninterp spec fn world_entities(world: hecs::World) -> Set<hecs::Entity>;

/// Calls `hecs::World::new`: a world without entities.
#[verifier::external_body]
fn world_new() -> (world: hecs::World)
    ensures
        world_entities(world) == Set::<hecs::Entity>::empty(),
{
    hecs::World::new()
}

/// Calls `hecs::World::spawn`, which allocates a handle that is not in use
/// and adds the entity under it.
#[verifier::external_body]
fn world_spawn(world: &mut hecs::World, entity: hecs::TakenEntity<'_>) -> (spawned: hecs::Entity)
    ensures
        !world_entities(*old(world)).contains(spawned),
        world_entities(*final(world)) == world_entities(*old(world)).insert(spawned),
{
    world.spawn(entity)
}

/// Calls `hecs::World::despawn`, which destroys the entity when the world
/// holds it and fails with `NoSuchEntity` otherwise.
#[verifier::external_body]
fn world_despawn(world: &mut hecs::World, entity: hecs::Entity) -> (r: Result<(), hecs::NoSuchEntity>)
    ensures
        r is Ok <==> world_entities(*old(world)).contains(entity),
        world_entities(*final(world)) == world_entities(*old(world)).remove(entity),
{
    world.despawn(entity)
}

/// An entity held in hades. It is just an entity handle, wrapped so that it
/// is not mixed up with handles of the scene's world.
#[derive(Clone, Copy, Debug, PartialEq, Eq, PartialOrd, Ord, Hash)]
pub struct HadesId {
    entity: hecs::Entity,
}

impl HadesId {
    /// The entity's handle in hades.
    pub closed spec fn entity(self) -> hecs::Entity {
        self.entity
    }
}

/// Something that can be undone.
#[derive(Debug)]
pub enum UndoAction {
    DeleteEntity { hades_ids: Vec<HadesId> },
    CreateEntity { entity: hecs::Entity },
}

/// Something that can be redone.
#[derive(Debug)]
pub enum RedoAction {
    DeleteEntity { entity: hecs::Entity },
}

/// The hades entities an undo action holds on to.
pub open spec fn action_entities(action: UndoAction) -> Seq<hecs::Entity> {
    match action {
        UndoAction::DeleteEntity { hades_ids } => hades_ids@.map_values(|id: HadesId| id.entity()),
        UndoAction::CreateEntity { .. } => Seq::empty(),
    }
}

/// The hades entities a list of undo actions holds on to, in order.
pub open spec fn held_entities(actions: Seq<UndoAction>) -> Seq<hecs::Entity> {
    actions.map_values(|action: UndoAction| action_entities(action)).flatten()
}

/// The undo actions that are kept after `action` is pushed in front of
/// `actions`: the newest `limit` ones when there is a limit, all otherwise.
pub open spec fn limited(actions: Seq<UndoAction>, limit: Option<usize>) -> Seq<UndoAction> {
    match limit {
        Some(l) => if actions.len() > l {
            actions.take(l as int)
        } else {
            actions
        },
        None => actions,
    }
}

/// The undo actions that are dropped when `actions` is cut to `limit`: the
/// oldest ones beyond the bound.
pub open spec fn dropped(actions: Seq<UndoAction>, limit: Option<usize>) -> Seq<UndoAction> {
    actions.skip(limited(actions, limit).len() as int)
}

proof fn lemma_held_split(actions: Seq<UndoAction>, n: int)
    requires
        0 <= n <= actions.len(),
    ensures
        held_entities(actions) == held_entities(actions.take(n)) + held_entities(actions.skip(n)),
{
    let f = |action: UndoAction| action_entities(action);
    assert(actions.map_values(f) =~= actions.take(n).map_values(f) + actions.skip(n).map_values(f));
    lemma_flatten_concat(actions.take(n).map_values(f), actions.skip(n).map_values(f));
}

proof fn lemma_held_front(action: UndoAction, actions: Seq<UndoAction>)
    ensures
        held_entities(seq![action] + actions) == action_entities(action) + held_entities(actions),
{
    let f = |action: UndoAction| action_entities(action);
    let all = seq![action] + actions;
    assert(all.map_values(f) =~= seq![action_entities(action)] + actions.map_values(f));
    lemma_flatten_concat(seq![action_entities(action)], actions.map_values(f));
    let one = seq![action_entities(action)];
    assert(one.drop_first() =~= Seq::<Seq<hecs::Entity>>::empty());
    assert(Seq::<Seq<hecs::Entity>>::empty().flatten() =~= Seq::<hecs::Entity>::empty());
    assert(one.first() + Seq::<hecs::Entity>::empty() =~= one.first());
    assert(one.flatten() =~= action_entities(action));
}

proof fn lemma_held_single(action: UndoAction)
    ensures
        held_entities(seq![action]) == action_entities(action),
{
    lemma_held_front(action, Seq::empty());
    assert(seq![action] + Seq::<UndoAction>::empty() =~= seq![action]);
    assert(held_entities(Seq::<UndoAction>::empty()) =~= Seq::<hecs::Entity>::empty());
    assert(action_entities(action) + Seq::<hecs::Entity>::empty() =~= action_entities(action));
}

proof fn lemma_no_duplicates_concat(a: Seq<hecs::Entity>, b: Seq<hecs::Entity>)
    requires
        a.no_duplicates(),
        b.no_duplicates(),
        forall|i: int| 0 <= i < a.len() ==> !b.contains(#[trigger] a[i]),
    ensures
        (a + b).no_duplicates(),
{
    let c = a + b;
    assert forall|i: int, j: int| 0 <= i < c.len() && 0 <= j < c.len() && i != j implies c[i]
        != c[j] by {
        if i < a.len() && j >= a.len() {
            assert(b[j - a.len()] == c[j]);
            if c[i] == c[j] {
                assert(b.contains(a[i]));
            }
        }
        if j < a.len() && i >= a.len() {
            assert(b[i - a.len()] == c[i]);
            if c[i] == c[j] {
                assert(b.contains(a[j]));
            }
        }
    }
}

/// Undo and redo actions, newest first, each list with an optional bound.
pub struct UndoBuffer {
    undo_actions: VecDeque<UndoAction>,
    undo_limit: Option<usize>,
    redo_actions: VecDeque<RedoAction>,
    redo_limit: Option<usize>,
    hades: hecs::World,
}

impl UndoBuffer {
    /// The undo actions, newest first.
    pub closed spec fn undos(&self) -> Seq<UndoAction> {
        self.undo_actions@
    }

    /// The redo actions, newest first.
    pub closed spec fn redos(&self) -> Seq<RedoAction> {
        self.redo_actions@
    }

    pub closed spec fn undo_limit(&self) -> Option<usize> {
        self.undo_limit
    }

    pub closed spec fn redo_limit(&self) -> Option<usize> {
        self.redo_limit
    }

    /// The entities in hades.
    pub closed spec fn hades(&self) -> Set<hecs::Entity> {
        world_entities(self.hades)
    }

    /// The buffer's invariant: every hades entity that an undo action holds
    /// is in hades, and no two places hold the same one.
    pub open spec fn wf(&self) -> bool {
        &&& held_entities(self.undos()).no_duplicates()
        &&& forall|i: int|
            0 <= i < held_entities(self.undos()).len() ==> self.hades().contains(
                #[trigger] held_entities(self.undos())[i],
            )
    }

    /// An empty buffer with the given bounds.
    pub fn new(undo_limit: Option<usize>, redo_limit: Option<usize>) -> (r: Self)
        ensures
            r.wf(),
            r.undos() == Seq::<UndoAction>::empty(),
            r.redos() == Seq::<RedoAction>::empty(),
            r.undo_limit() == undo_limit,
            r.redo_limit() == redo_limit,
            r.hades() == Set::<hecs::Entity>::empty(),
    {
        let r = UndoBuffer {
            undo_actions: VecDeque::new(),
            undo_limit,
            redo_actions: VecDeque::new(),
            redo_limit,
            hades: world_new(),
        };
        assert(held_entities(r.undos()) =~= Seq::<hecs::Entity>::empty());
        r
    }

    /// Moves a taken entity into hades and hands back its new handle.
    pub fn send_to_hades(&mut self, entity: hecs::TakenEntity<'_>) -> (r: HadesId)
        ensures
            old(self).wf() ==> final(self).wf(),
            !old(self).hades().contains(r.entity()),
            final(self).hades() == old(self).hades().insert(r.entity()),
            final(self).undos() == old(self).undos(),
            final(self).redos() == old(self).redos(),
            final(self).undo_limit() == old(self).undo_limit(),
            final(self).redo_limit() == old(self).redo_limit(),
    {
        let entity = world_spawn(&mut self.hades, entity);
        HadesId { entity }
    }

    /// Records an undo action as the newest. When that exceeds the undo
    /// limit, the oldest actions are dropped, and the hades entities they held
    /// are destroyed.
    ///
    /// The hades entities of the dropped actions must be in hades and
    /// distinct: destroying them would fail otherwise. The buffer's invariant
    /// is kept when the action's own hades entities are in hades, distinct,
    /// and held by no other undo action.
    pub fn push_undo(&mut self, undo: UndoAction)
        requires
            held_entities(dropped(seq![undo] + old(self).undos(), old(self).undo_limit())).no_duplicates(),
            forall|i: int|
                0 <= i < held_entities(dropped(seq![undo] + old(self).undos(), old(self).undo_limit())).len()
                    ==> old(self).hades().contains(
                    #[trigger] held_entities(dropped(seq![undo] + old(self).undos(), old(self).undo_limit()))[i],
                ),
        ensures
            old(self).wf() && action_entities(undo).no_duplicates() && (forall|i: int|
                0 <= i < action_entities(undo).len() ==> old(self).hades().contains(
                    #[trigger] action_entities(undo)[i],
                ) && !held_entities(old(self).undos()).contains(action_entities(undo)[i]))
                ==> final(self).wf(),
            final(self).undos() == limited(seq![undo] + old(self).undos(), old(self).undo_limit()),
            old(self).undo_limit() is None ==> final(self).undos() == seq![undo] + old(self).undos()
                && final(self).hades() == old(self).hades(),
            old(self).undo_limit() matches Some(l) ==> final(self).undos().len() == if old(
                self,
            ).undos().len() + 1 <= l {
                old(self).undos().len() + 1int
            } else {
                l as int
            },
            old(self).undo_limit() matches Some(l) ==> final(self).undos() == (seq![undo] + old(
                self,
            ).undos()).take(final(self).undos().len() as int),
            final(self).hades() == old(self).hades().difference(
                held_entities(dropped(seq![undo] + old(self).undos(), old(self).undo_limit())).to_set(),
            ),
            final(self).redos() == old(self).redos(),
            final(self).undo_limit() == old(self).undo_limit(),
            final(self).redo_limit() == old(self).redo_limit(),
    {
        let ghost all = seq![undo] + self.undo_actions@;
        proof {
            lemma_held_front(undo, self.undo_actions@);
            if old(self).wf() && action_entities(undo).no_duplicates() && (forall|i: int|
                0 <= i < action_entities(undo).len() ==> old(self).hades().contains(
                    #[trigger] action_entities(undo)[i],
                ) && !held_entities(old(self).undos()).contains(action_entities(undo)[i])) {
                lemma_no_duplicates_concat(action_entities(undo), held_entities(self.undo_actions@));
            }
        }
        self.undo_actions.push_front(undo);
        assert(self.undo_actions@ == all);
        proof {
            assert(all.skip(all.len() as int) =~= Seq::<UndoAction>::empty());
            assert(held_entities(Seq::<UndoAction>::empty()) =~= Seq::<hecs::Entity>::empty());
            assert(old(self).hades().difference(Seq::<hecs::Entity>::empty().to_set()) =~= old(
                self,
            ).hades());
            assert(all.take(all.len() as int) =~= all);
        }
        self.limit_undo_buffer();
        proof {
            law_limit_keeps_newest(all, self.undo_limit);
            if self.undo_limit is None {
                assert(all.skip(all.len() as int) =~= Seq::<UndoAction>::empty());
                assert(held_entities(Seq::<UndoAction>::empty()) =~= Seq::<hecs::Entity>::empty());
                assert(old(self).hades().difference(Seq::<hecs::Entity>::empty().to_set()) =~= old(
                    self,
                ).hades());
            }
        }
    }

    /// Drops the oldest undo actions while there are more than the limit,
    /// destroying the hades entities they hold.
    fn limit_undo_buffer(&mut self)
        requires
            held_entities(dropped(old(self).undos(), old(self).undo_limit())).no_duplicates(),
            forall|i: int|
                0 <= i < held_entities(dropped(old(self).undos(), old(self).undo_limit())).len()
                    ==> old(self).hades().contains(
                    #[trigger] held_entities(dropped(old(self).undos(), old(self).undo_limit()))[i],
                ),
        ensures
            held_entities(old(self).undos()).no_duplicates() && (forall|i: int|
                0 <= i < held_entities(old(self).undos()).len() ==> old(self).hades().contains(
                    #[trigger] held_entities(old(self).undos())[i],
                )) ==> final(self).wf(),
            final(self).undos() == limited(old(self).undos(), old(self).undo_limit()),
            final(self).hades() == old(self).hades().difference(
                held_entities(old(self).undos().skip(final(self).undos().len() as int)).to_set(),
            ),
            final(self).redos() == old(self).redos(),
            final(self).undo_limit() == old(self).undo_limit(),
            final(self).redo_limit() == old(self).redo_limit(),
    {
        let ghost all = self.undo_actions@;
        let ghost start = self.hades();
        if let Some(undo_limit) = self.undo_limit {
            let ghost keep: int = limited(all, Some(undo_limit)).len() as int;
            proof {
                assert(all.take(all.len() as int) =~= all);
                assert(all.skip(all.len() as int) =~= Seq::<UndoAction>::empty());
                assert(held_entities(Seq::<UndoAction>::empty()) =~= Seq::<hecs::Entity>::empty());
                assert(start.difference(Seq::<hecs::Entity>::empty().to_set()) =~= start);
            }
            while self.undo_actions.len() > undo_limit
                invariant
                    self.undo_limit == Some(undo_limit),
                    self.redo_actions@ == old(self).redo_actions@,
                    self.redo_limit == old(self).redo_limit,
                    all == old(self).undos(),
                    start == old(self).hades(),
                    keep == limited(all, Some(undo_limit)).len(),
                    held_entities(all.skip(keep)).no_duplicates(),
                    forall|i: int|
                        0 <= i < held_entities(all.skip(keep)).len() ==> start.contains(
                            #[trigger] held_entities(all.skip(keep))[i],
                        ),
                    self.undo_actions@.len() <= all.len(),
                    all.len() > undo_limit ==> self.undo_actions@.len() >= undo_limit,
                    all.len() <= undo_limit ==> self.undo_actions@.len() == all.len(),
                    self.undo_actions@ == all.take(self.undo_actions@.len() as int),
                    self.hades() == start.difference(
                        held_entities(all.skip(self.undo_actions@.len() as int)).to_set(),
                    ),
                decreases self.undo_actions@.len(),
            {
                let ghost n = self.undo_actions@.len() as int;
                let undo_action = self.undo_actions.pop_back().unwrap();
                proof {
                    assert(undo_action == all[n - 1]);
                    assert(all.take(n - 1) =~= all.take(n).take(n - 1));
                    assert(all.skip(n - 1) =~= seq![undo_action] + all.skip(n));
                    lemma_held_front(undo_action, all.skip(n));
                    lemma_held_split(all, n - 1);
                    lemma_held_split(all.take(n), n - 1);
                    assert(all.take(n).skip(n - 1) =~= seq![undo_action]);
                    lemma_held_single(undo_action);
                }
                let ghost ids = action_entities(undo_action);
                let ghost before = self.hades();
                let ghost rest = held_entities(all.skip(n));
                proof {
                    let d = all.skip(keep);
                    lemma_held_split(d, n - 1 - keep);
                    assert(d.skip(n - 1 - keep) =~= all.skip(n - 1));
                    let h = held_entities(d);
                    let a = held_entities(d.take(n - 1 - keep));
                    assert(held_entities(all.skip(n - 1)) == ids + rest);
                    assert(h =~= a + (ids + rest));
                    assert forall|i: int| 0 <= i < ids.len() implies before.contains(#[trigger] ids[i]) by {
                        assert(h[a.len() + i] == ids[i]);
                        if rest.contains(ids[i]) {
                            let j = choose|j: int| 0 <= j < rest.len() && rest[j] == ids[i];
                            assert(h[a.len() + ids.len() + j] == ids[i]);
                        }
                        assert(!rest.to_set().contains(ids[i]));
                    }
                    assert forall|i: int, j: int| 0 <= i < ids.len() && 0 <= j < ids.len() && i != j implies ids[i] != ids[j] by {
                        assert(h[a.len() + i] == ids[i]);
                        assert(h[a.len() + j] == ids[j]);
                    }
                }
                match undo_action {
                    UndoAction::DeleteEntity { hades_ids } => {
                        let mut k: usize = 0;
                        while k < hades_ids.len()
                            invariant
                                self.undo_limit == Some(undo_limit),
                                self.redo_actions@ == old(self).redo_actions@,
                                self.redo_limit == old(self).redo_limit,
                                self.undo_actions@ == all.take(n - 1),
                                ids == hades_ids@.map_values(|id: HadesId| id.entity()),
                                k <= hades_ids@.len(),
                                self.hades() == before.difference(ids.take(k as int).to_set()),
                                forall|i: int| 0 <= i < ids.len() ==> before.contains(#[trigger] ids[i]),
                                ids.no_duplicates(),
                            decreases hades_ids@.len() - k,
                        {
                            let id = hades_ids[k];
                            proof {
                                assert(ids[k as int] == id.entity);
                                assert(!ids.take(k as int).contains(id.entity));
                            }
                            let despawned = world_despawn(&mut self.hades, id.entity);
                            assert(despawned is Ok);
                            k = k + 1;
                            proof {
                                let prev = ids.take(k - 1);
                                let next = ids.take(k as int);
                                assert(next =~= prev.push(id.entity));
                                assert forall|x: hecs::Entity| #[trigger] next.to_set().contains(x) <==> (
                                prev.to_set().contains(x) || x == id.entity) by {
                                    if next.contains(x) {
                                        let i = choose|i: int| 0 <= i < next.len() && next[i] == x;
                                        if i < prev.len() {
                                            assert(prev[i] == x);
                                        }
                                    }
                                    if prev.contains(x) {
                                        let i = choose|i: int| 0 <= i < prev.len() && prev[i] == x;
                                        assert(next[i] == x);
                                    }
                                    if x == id.entity {
                                        assert(next[k - 1] == x);
                                    }
                                }
                                assert(self.hades() =~= before.difference(next.to_set()));
                            }
                        }
                        proof {
                            assert(ids.take(k as int) =~= ids);
                        }
                    },
                    UndoAction::CreateEntity { .. } => {
                        proof {
                            assert(ids.take(0) =~= ids);
                            assert(before.difference(ids.take(0).to_set()) =~= before);
                        }
                    },
                }
                proof {
                    let dropped = held_entities(all.skip(n - 1));
                    assert(dropped == ids + rest);
                    assert(self.hades() =~= start.difference(dropped.to_set())) by {
                        assert forall|e: hecs::Entity| #[trigger] dropped.to_set().contains(e) <==> (
                        ids.to_set().contains(e) || rest.to_set().contains(e)) by {
                            if dropped.contains(e) {
                                let i = choose|i: int| 0 <= i < dropped.len() && dropped[i] == e;
                                if i < ids.len() {
                                    assert(ids[i] == e);
                                } else {
                                    assert(rest[i - ids.len()] == e);
                                }
                            }
                            if ids.contains(e) {
                                let i = choose|i: int| 0 <= i < ids.len() && ids[i] == e;
                                assert(dropped[i] == e);
                            }
                            if rest.contains(e) {
                                let i = choose|i: int| 0 <= i < rest.len() && rest[i] == e;
                                assert(dropped[i + ids.len()] == e);
                            }
                        }
                    }
                }
            }
            proof {
                let kept = self.undo_actions@;
                let h = held_entities(all);
                if h.no_duplicates() && (forall|i: int|
                    0 <= i < h.len() ==> start.contains(#[trigger] h[i])) {
                    lemma_held_split(all, kept.len() as int);
                    let hk = held_entities(kept);
                    assert forall|i: int| 0 <= i < hk.len() implies self.hades().contains(#[trigger] hk[i]) by {
                        assert(h[i] == hk[i]);
                        let rest = held_entities(all.skip(kept.len() as int));
                        if rest.contains(hk[i]) {
                            let j = choose|j: int| 0 <= j < rest.len() && rest[j] == hk[i];
                            assert(h[hk.len() + j] == hk[i]);
                        }
                    }
                    assert forall|i: int, j: int| 0 <= i < hk.len() && 0 <= j < hk.len() && i != j implies hk[i] != hk[j] by {
                        assert(h[i] == hk[i]);
                        assert(h[j] == hk[j]);
                    }
                }
                assert(kept =~= limited(all, Some(undo_limit)));
            }
        } else {
            proof {
                assert(all.skip(all.len() as int) =~= Seq::<UndoAction>::empty());
                assert(held_entities(Seq::<UndoAction>::empty()) =~= Seq::<hecs::Entity>::empty());
                assert(start.difference(Seq::<hecs::Entity>::empty().to_set()) =~= start);
            }
        }
    }

    /// The undo actions, newest first.
    pub fn iter_undo(&self) -> (r: std::collections::vec_deque::Iter<'_, UndoAction>)
        ensures
            r.remaining() == self.undos().as_ref(),
    {
        self.undo_actions.iter()
    }

    /// The redo actions, newest first.
    pub fn iter_redo(&self) -> (r: std::collections::vec_deque::Iter<'_, RedoAction>)
        ensures
            r.remaining() == self.redos().as_ref(),
    {
        self.redo_actions.iter()
    }

    /// Whether there is something to undo.
    pub fn has_undos(&self) -> (r: bool)
        ensures
            r == (self.undos().len() > 0),
    {
        self.undo_actions.len() != 0
    }

    /// Whether there is something to redo.
    pub fn has_redos(&self) -> (r: bool)
        ensures
            r == (self.redos().len() > 0),
    {
        self.redo_actions.len() != 0
    }
}

impl Default for UndoBuffer {
    fn default() -> (r: Self)
        ensures
            r.wf(),
            r.undos() == Seq::<UndoAction>::empty(),
            r.redos() == Seq::<RedoAction>::empty(),
            r.undo_limit() == None::<usize>,
            r.redo_limit() == None::<usize>,
            r.hades() == Set::<hecs::Entity>::empty(),
    {
        Self::new(None, None)
    }
}

/// A bounded undo buffer never holds more actions than its bound, and what it
/// keeps are the newest actions, in order.
pub proof fn law_undo_buffer_bounded(actions: Seq<UndoAction>, limit: Option<usize>)
    ensures
        limit matches Some(l) ==> limited(actions, limit).len() <= l,
        limited(actions, limit).len() <= actions.len(),
        limited(actions, limit) == actions.take(limited(actions, limit).len() as int),
{
    assert(actions.take(actions.len() as int) =~= actions);
}

/// With a bound `l`, the undo actions kept are exactly the newest
/// `min(n, l)` of the `n` actions, in order: a buffer over its bound keeps
/// exactly `l` of them. Without a bound, every action is kept.
pub proof fn law_limit_keeps_newest(actions: Seq<UndoAction>, limit: Option<usize>)
    ensures
        limit matches Some(l) ==> limited(actions, limit).len() == if actions.len() <= l {
            actions.len() as int
        } else {
            l as int
        },
        limit matches Some(l) ==> limited(actions, limit) == actions.take(
            if actions.len() <= l {
                actions.len() as int
            } else {
                l as int
            },
        ),
        limit is None ==> limited(actions, limit) == actions,
{
    assert(actions.take(actions.len() as int) =~= actions);
}

} // verus!
