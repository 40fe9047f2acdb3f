use vstd::prelude::*;

use crate::component::{lemma_with_all_holds, lemma_with_get, Component, ComponentKind, Slot};
use crate::pipeline::{input_applied, steer_slot, steered};
use crate::scene::{lemma_query_upto, rewritten, slot_matches, writes, Access, EntityId, SceneView};

verus! {

/// After components are attached to a live entity, a query whose kinds were
/// each held before or attached now yields that entity exactly once.
pub proof fn law_attached_entity_is_queried_once(
    s: SceneView,
    id: EntityId,
    cs: Seq<Component>,
    mask: Seq<(ComponentKind, Access)>,
)
    requires
        s.slots.len() <= usize::MAX,
        s.live(id),
        s.can_add(id, cs),
        forall|i: int| 0 <= i < mask.len() ==> s.slots[id.index as int].holds(#[trigger] mask[i].0)
            || exists|j: int| 0 <= j < cs.len() && cs[j].kind_spec() == mask[i].0,
    ensures
        s.with_components(id, cs).query(mask).contains(id),
        s.with_components(id, cs).query(mask).no_duplicates(),
{
    let s2 = s.with_components(id, cs);
    let row = s.slots[id.index as int];
    assert forall|i: int| 0 <= i < mask.len() implies #[trigger] s2.slots[id.index as int].holds(mask[i].0) by {
        lemma_with_all_holds(row, cs, mask[i].0);
        if !row.holds(mask[i].0) {
            let j = choose|j: int| 0 <= j < cs.len() && cs[j].kind_spec() == mask[i].0;
            assert(cs[j].kind_spec() == mask[i].0);
        }
    }
    lemma_with_all_holds(row, cs, ComponentKind::Transform);
    assert(slot_matches(s2.slots[id.index as int], mask));
    lemma_query_upto(s2, mask, s2.slots.len() as int);
}

/// A removed entity is absent from every query and stays retired through
/// every later creation, attachment, removal and input pass.
pub proof fn law_removed_entity_never_returns(
    s: SceneView,
    id: EntityId,
    other: EntityId,
    cs: Seq<Component>,
    input: crate::pipeline::InputSnapshot,
    mask: Seq<(ComponentKind, Access)>,
)
    requires
        s.slots.len() < usize::MAX,
        s.live(id),
    ensures
        ({
            let removed = SceneView { slots: s.slots.update(id.index as int, Slot::dead()) };
            &&& removed.retired(id)
            &&& !removed.query(mask).contains(id)
            &&& (SceneView { slots: removed.slots.push(Slot::fresh()) }).retired(id)
            &&& removed.live(other) ==> removed.with_components(other, cs).retired(id)
            &&& other.index < removed.slots.len()
                ==> (SceneView { slots: removed.slots.update(other.index as int, Slot::dead()) }).retired(id)
            &&& input_applied(removed, input).retired(id)
        }),
{
    let removed = SceneView { slots: s.slots.update(id.index as int, Slot::dead()) };
    lemma_query_upto(removed, mask, removed.slots.len() as int);
    let pushed = SceneView { slots: removed.slots.push(Slot::fresh()) };
    assert(pushed.slots[id.index as int] == removed.slots[id.index as int]);
    if removed.live(other) {
        lemma_with_all_holds(removed.slots[other.index as int], cs, ComponentKind::Transform);
    }
}

/// A written component is what later reads see, queries match the same
/// entities as before the write, and the value survives a tick's input pass
/// unless that pass steers it.
pub proof fn law_writes_persist(
    s: SceneView,
    id: EntityId,
    c: Component,
    input: crate::pipeline::InputSnapshot,
    mask: Seq<(ComponentKind, Access)>,
)
    requires
        s.slots.len() <= usize::MAX,
        s.live(id),
        s.component(id, c.kind_spec()) is Some,
    ensures
        s.with_components(id, seq![c]).component(id, c.kind_spec()) == Some(c),
        s.with_components(id, seq![c]).query(mask) == s.query(mask),
        !(c.kind_spec() == ComponentKind::Transform && steered(s.with_components(id, seq![c]).slots[id.index as int]))
            ==> input_applied(s.with_components(id, seq![c]), input).component(id, c.kind_spec()) == Some(c),
{
    let s2 = s.with_components(id, seq![c]);
    let row = s.slots[id.index as int];
    assert(seq![c].drop_last() =~= Seq::<Component>::empty());
    assert(seq![c].last() == c);
    assert(row.with_all(Seq::<Component>::empty()) == row);
    assert(s2.slots[id.index as int] == row.with(c));
    lemma_with_get(row, c, c.kind_spec());
    assert forall|k: ComponentKind| #[trigger] s2.slots[id.index as int].holds(k) == row.holds(k) by {
        lemma_with_get(row, c, k);
    }
    lemma_same_matches_same_query(s, s2, mask, s.slots.len() as int);
    let s3 = input_applied(s2, input);
    assert(s3.slots[id.index as int] == steer_slot(s2.slots[id.index as int], input));
}

/// After `query_mut` turned scene `s` into `t` with function `f`: every later
/// query matches the same entities as before, each written component holds
/// what `f` made of it, and it keeps that value through a tick's input pass
/// unless that pass steers it.
pub proof fn law_query_mut_writes_persist<F: Fn(Component) -> Component>(
    s: SceneView,
    t: SceneView,
    mask: Seq<(ComponentKind, Access)>,
    f: F,
    input: crate::pipeline::InputSnapshot,
    later: Seq<(ComponentKind, Access)>,
    id: EntityId,
    k: ComponentKind,
)
    requires
        t.slots.len() == s.slots.len(),
        forall|i: int| 0 <= i < s.slots.len() ==>
            if s.slots[i].alive && slot_matches(s.slots[i], mask) {
                rewritten(s.slots[i], #[trigger] t.slots[i], mask, f)
            } else {
                t.slots[i] == s.slots[i]
            },
    ensures
        t.query(later) == s.query(later),
        s.matches(id, mask) && writes(mask, k) ==> t.component(id, k) is Some
            && f.ensures((s.component(id, k)->Some_0,), t.component(id, k)->Some_0),
        s.matches(id, mask) && writes(mask, k) && !(k == ComponentKind::Transform && steered(t.slots[id.index as int]))
            ==> input_applied(t, input).component(id, k) == t.component(id, k),
{
    assert forall|i: int, k2: ComponentKind| 0 <= i < s.slots.len() implies (#[trigger] s.slots[i].holds(k2)) == t.slots[i].holds(k2) by {
        if s.slots[i].alive && slot_matches(s.slots[i], mask) {
            assert(rewritten(s.slots[i], t.slots[i], mask, f));
            if writes(mask, k2) {
                let a = choose|a: int| 0 <= a < mask.len() && #[trigger] mask[a] == (k2, Access::Write);
                assert(s.slots[i].holds(mask[a].0));
            }
        }
    }
    assert forall|i: int| 0 <= i < s.slots.len() implies (#[trigger] s.slots[i]).alive == t.slots[i].alive by {
        if s.slots[i].alive && slot_matches(s.slots[i], mask) {
            assert(rewritten(s.slots[i], t.slots[i], mask, f));
        }
    }
    lemma_same_matches_same_query(s, t, later, s.slots.len() as int);
    if s.matches(id, mask) && writes(mask, k) {
        assert(rewritten(s.slots[id.index as int], t.slots[id.index as int], mask, f));
        let u = input_applied(t, input);
        assert(u.slots[id.index as int] == steer_slot(t.slots[id.index as int], input));
    }
}

/// Two scenes whose rows agree on liveness and held kinds give the same
/// query results.
proof fn lemma_same_matches_same_query(
    s: SceneView,
    t: SceneView,
    mask: Seq<(ComponentKind, Access)>,
    n: int,
)
    requires
        s.slots.len() == t.slots.len(),
        0 <= n <= s.slots.len(),
        forall|i: int| 0 <= i < s.slots.len() ==> (#[trigger] s.slots[i]).alive == t.slots[i].alive,
        forall|i: int, k: ComponentKind| 0 <= i < s.slots.len() ==> (#[trigger] s.slots[i].holds(k)) == t.slots[i].holds(k),
    ensures
        s.query_upto(mask, n) == t.query_upto(mask, n),
    decreases n,
{
    if n > 0 {
        lemma_same_matches_same_query(s, t, mask, n - 1);
        assert(s.slots[n - 1].alive == t.slots[n - 1].alive);
        assert(slot_matches(s.slots[n - 1], mask) == slot_matches(t.slots[n - 1], mask)) by {
            assert forall|i: int| 0 <= i < mask.len() implies s.slots[n - 1].holds(mask[i].0) == t.slots[n - 1].holds(mask[i].0) by {
                assert(s.slots[n - 1].holds(mask[i].0) == t.slots[n - 1].holds(mask[i].0));
            }
        }
    }
}

} // verus!
