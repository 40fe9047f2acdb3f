use vstd::prelude::*;

use crate::component::{lemma_with_all_holds, lemma_with_get, Component, ComponentKind, Slot};

verus! {

/// Identifier of an entity: the index of its storage row. Rows are never
/// reused, so an identifier names one entity for the life of its scene.
#[derive(Clone, Copy, Debug, PartialEq, Eq, Structural)]
pub struct EntityId {
    pub index: usize,
}

/// Structural errors of the registry.
#[derive(Clone, Copy, Debug, PartialEq, Eq, Structural)]
pub enum SceneError {
    UnknownEntity,
    DuplicateComponent,
    MissingComponent,
}

/// Access mode of one member of a query mask.
#[derive(Clone, Copy, Debug, PartialEq, Eq, Structural)]
pub enum Access {
    Read,
    Write,
}

/// Why a query mask was refused.
#[derive(Clone, Copy, Debug, PartialEq, Eq, Structural)]
pub enum MaskError {
    Empty,
    ConflictingAccess(ComponentKind),
    DuplicateType(ComponentKind),
}

/// A checked request for component kinds, each read or written.
pub struct QueryMask {
    entries: Vec<(ComponentKind, Access)>,
}

/// The kinds of `m` are pairwise distinct.
pub open spec fn distinct_kinds(m: Seq<(ComponentKind, Access)>) -> bool {
    forall|i: int, j: int| 0 <= i < j < m.len() ==> #[trigger] m[i].0 != #[trigger] m[j].0
}

impl View for QueryMask {
    type V = Seq<(ComponentKind, Access)>;

    closed spec fn view(&self) -> Seq<(ComponentKind, Access)> {
        self.entries@
    }
}

impl QueryMask {
    pub open spec fn wf(&self) -> bool {
        self@.len() > 0 && distinct_kinds(self@)
    }

    /// Checks a list of (kind, access) pairs: it must be non-empty and name
    /// each kind once. The first repeated kind is reported, as a conflict when
    /// its two accesses differ.
    pub fn new(entries: Vec<(ComponentKind, Access)>) -> (r: Result<QueryMask, MaskError>)
        ensures
            entries@.len() == 0 ==> r == Err::<QueryMask, MaskError>(MaskError::Empty),
            r is Ok <==> entries@.len() > 0 && distinct_kinds(entries@),
            r matches Ok(m) ==> m@ == entries@ && m.wf(),
            r matches Err(MaskError::ConflictingAccess(k)) ==> exists|i: int, j: int|
                0 <= i < j < entries@.len() && entries@[i].0 == k && entries@[j].0 == k
                    && entries@[i].1 != entries@[j].1,
            r matches Err(MaskError::DuplicateType(k)) ==> exists|i: int, j: int|
                0 <= i < j < entries@.len() && entries@[i].0 == k && entries@[j].0 == k
                    && entries@[i].1 == entries@[j].1,
    {
        if entries.len() == 0 {
            return Err(MaskError::Empty);
        }
        let n = entries.len();
        let mut j: usize = 0;
        while j < n
            invariant
                n == entries@.len(),
                j <= n,
                forall|a: int, b: int|
                    0 <= a < b < j ==> #[trigger] entries@[a].0 != #[trigger] entries@[b].0,
            decreases n - j,
        {
            let mut i: usize = 0;
            while i < j
                invariant
                    n == entries@.len(),
                    i <= j < n,
                    forall|a: int, b: int|
                        0 <= a < b < j ==> #[trigger] entries@[a].0 != #[trigger] entries@[b].0,
                    forall|a: int| 0 <= a < i ==> #[trigger] entries@[a].0 != entries@[j as int].0,
                decreases j - i,
            {
                if entries[i].0 == entries[j].0 {
                    let k = entries[j].0;
                    if entries[i].1 == entries[j].1 {
                        return Err(MaskError::DuplicateType(k));
                    } else {
                        return Err(MaskError::ConflictingAccess(k));
                    }
                }
                i = i + 1;
            }
            j = j + 1;
        }
        Ok(QueryMask { entries })
    }

    /// The requested (kind, access) pairs.
    pub fn entries(&self) -> (r: &Vec<(ComponentKind, Access)>)
        ensures
            r@ == self@,
    {
        &self.entries
    }
}

/// Whether `slot` holds every kind that `mask` requests.
pub open spec fn slot_matches(slot: Slot, mask: Seq<(ComponentKind, Access)>) -> bool {
    forall|i: int| 0 <= i < mask.len() ==> #[trigger] slot.holds(mask[i].0)
}

/// Whether `mask` requests kind `k` for writing.
pub open spec fn writes(mask: Seq<(ComponentKind, Access)>, k: ComponentKind) -> bool {
    exists|i: int| 0 <= i < mask.len() && #[trigger] mask[i] == (k, Access::Write)
}

/// `new` is `orig` with each written kind of `mask` replaced by what `f`
/// made of it, and every other kind kept.
pub open spec fn rewritten<F: Fn(Component) -> Component>(
    orig: Slot,
    new: Slot,
    mask: Seq<(ComponentKind, Access)>,
    f: F,
) -> bool {
    &&& new.alive == orig.alive
    &&& forall|k: ComponentKind| writes(mask, k) ==> (#[trigger] new.get(k)) is Some
        && f.ensures((orig.get(k)->Some_0,), new.get(k)->Some_0)
    &&& forall|k: ComponentKind| !writes(mask, k) ==> #[trigger] new.get(k) == orig.get(k)
}

/// The mathematical content of a scene: one row per identifier ever issued.
pub struct SceneView {
    pub slots: Seq<Slot>,
}

impl SceneView {
    pub open spec fn live(self, id: EntityId) -> bool {
        id.index < self.slots.len() && self.slots[id.index as int].alive
    }

    /// The identifier was issued and its entity has been removed.
    pub open spec fn retired(self, id: EntityId) -> bool {
        id.index < self.slots.len() && !self.slots[id.index as int].alive
    }

    pub open spec fn component(self, id: EntityId, k: ComponentKind) -> Option<Component> {
        if self.live(id) {
            self.slots[id.index as int].get(k)
        } else {
            None
        }
    }

    pub open spec fn matches(self, id: EntityId, mask: Seq<(ComponentKind, Access)>) -> bool {
        self.live(id) && slot_matches(self.slots[id.index as int], mask)
    }

    /// Matching entities among the first `n` rows, in row order.
    pub open spec fn query_upto(self, mask: Seq<(ComponentKind, Access)>, n: int) -> Seq<EntityId>
        decreases n,
    {
        if n <= 0 {
            Seq::empty()
        } else {
            let prev = self.query_upto(mask, n - 1);
            if self.slots[n - 1].alive && slot_matches(self.slots[n - 1], mask) {
                prev.push(EntityId { index: (n - 1) as usize })
            } else {
                prev
            }
        }
    }

    /// The result of a query: every live entity holding all requested kinds,
    /// in row order.
    pub open spec fn query(self, mask: Seq<(ComponentKind, Access)>) -> Seq<EntityId> {
        self.query_upto(mask, self.slots.len() as int)
    }

    /// The scene after storing `cs` on `id`.
    pub open spec fn with_components(self, id: EntityId, cs: Seq<Component>) -> SceneView {
        SceneView {
            slots: self.slots.update(id.index as int, self.slots[id.index as int].with_all(cs)),
        }
    }

    /// No kind is repeated in `cs`, and `id` holds none of them yet.
    pub open spec fn can_add(self, id: EntityId, cs: Seq<Component>) -> bool {
        &&& forall|i: int, j: int|
            0 <= i < j < cs.len() ==> #[trigger] cs[i].kind_spec() != #[trigger] cs[j].kind_spec()
        &&& forall|i: int| 0 <= i < cs.len() ==> !self.slots[id.index as int].holds(#[trigger] cs[i].kind_spec())
    }
}

/// A query result lists exactly the matching entities, each once, in
/// increasing row order.
pub proof fn lemma_query_upto(s: SceneView, mask: Seq<(ComponentKind, Access)>, n: int)
    requires
        0 <= n <= s.slots.len(),
        n <= usize::MAX,
    ensures
        forall|id: EntityId| #[trigger] s.query_upto(mask, n).contains(id) <==> (id.index < n && s.matches(id, mask)),
        forall|a: int, b: int| 0 <= a < b < s.query_upto(mask, n).len() ==>
            (#[trigger] s.query_upto(mask, n)[a]).index < (#[trigger] s.query_upto(mask, n)[b]).index,
        forall|a: int| 0 <= a < s.query_upto(mask, n).len() ==> (#[trigger] s.query_upto(mask, n)[a]).index < n,
        s.query_upto(mask, n).no_duplicates(),
    decreases n,
{
    if n > 0 {
        lemma_query_upto(s, mask, n - 1);
        let prev = s.query_upto(mask, n - 1);
        let cur = s.query_upto(mask, n);
        let e = EntityId { index: (n - 1) as usize };
        if s.slots[n - 1].alive && slot_matches(s.slots[n - 1], mask) {
            assert(cur == prev.push(e));
            assert forall|id: EntityId| #[trigger] cur.contains(id) <==> (id.index < n && s.matches(id, mask)) by {
                if cur.contains(id) {
                    let k = choose|k: int| 0 <= k < cur.len() && cur[k] == id;
                    if k < prev.len() {
                        assert(prev[k] == id);
                        assert(prev.contains(id));
                    }
                }
                if id.index < n && s.matches(id, mask) {
                    if id.index < n - 1 {
                        assert(prev.contains(id));
                        let k = choose|k: int| 0 <= k < prev.len() && prev[k] == id;
                        assert(cur[k] == id);
                    } else {
                        assert(id == e);
                        assert(cur[prev.len() as int] == id);
                    }
                }
            }
            assert forall|a: int, b: int| 0 <= a < b < cur.len() implies (#[trigger] cur[a]).index < (#[trigger] cur[b]).index by {
                assert(cur[a] == prev[a]);
                if b < prev.len() {
                    assert(cur[b] == prev[b]);
                }
            }
            assert forall|a: int| 0 <= a < cur.len() implies (#[trigger] cur[a]).index < n by {
                if a < prev.len() {
                    assert(cur[a] == prev[a]);
                }
            }
        } else {
            assert(cur == prev);
            assert forall|id: EntityId| #[trigger] cur.contains(id) <==> (id.index < n && s.matches(id, mask)) by {
                if id.index == n - 1 {
                    assert(id == e);
                }
            }
        }
    }
}

/// The entity registry and component store.
pub struct Scene {
    slots: Vec<Slot>,
    labels: Vec<String>,
}

impl View for Scene {
    type V = SceneView;

    closed spec fn view(&self) -> SceneView {
        SceneView { slots: self.slots@ }
    }
}

impl Scene {
    pub closed spec fn wf(&self) -> bool {
        &&& self.labels@.len() == self.slots@.len()
        &&& forall|i: int| 0 <= i < self.slots@.len() && !(#[trigger] self.slots@[i]).alive
                ==> self.slots@[i] == Slot::dead()
    }

    /// An empty scene.
    pub fn new() -> (r: Scene)
        ensures
            r.wf(),
            r@.slots.len() == 0,
    {
        Scene { slots: Vec::new(), labels: Vec::new() }
    }

    /// The number of identifiers issued so far.
    pub fn len(&self) -> (r: usize)
        ensures
            r == self@.slots.len(),
    {
        self.slots.len()
    }

    /// Allocates a fresh entity with no components. The label is kept for
    /// diagnostics only.
    pub fn create_entity(&mut self, label: &str) -> (r: EntityId)
        requires
            old(self).wf(),
        ensures
            final(self).wf(),
            r.index == old(self)@.slots.len(),
            !old(self)@.live(r) && !old(self)@.retired(r),
            final(self)@.slots == old(self)@.slots.push(Slot::fresh()),
    {
        let index = self.slots.len();
        self.slots.push(Slot::fresh_exec());
        self.labels.push(label.to_string());
        EntityId { index }
    }

    /// The diagnostic label of an issued identifier.
    pub fn label(&self, id: EntityId) -> (r: Option<&String>)
        requires
            self.wf(),
        ensures
            r is Some <==> id.index < self@.slots.len(),
    {
        if id.index < self.labels.len() {
            Some(&self.labels[id.index])
        } else {
            None
        }
    }

    pub fn is_live(&self, id: EntityId) -> (r: bool)
        ensures
            r == self@.live(id),
    {
        id.index < self.slots.len() && self.slots[id.index].alive
    }

    /// The component of kind `k` on `id`, if `id` is live and holds one.
    pub fn get(&self, id: EntityId, k: ComponentKind) -> (r: Option<Component>)
        ensures
            r == self@.component(id, k),
    {
        if id.index < self.slots.len() && self.slots[id.index].alive {
            self.slots[id.index].get_exec(k)
        } else {
            None
        }
    }

    /// Attaches `cs` to `id` in one step. Fails, changing nothing, when `id`
    /// is not live or when a kind is repeated in `cs` or already held.
    pub fn add_components(&mut self, id: EntityId, cs: Vec<Component>) -> (r: Result<(), SceneError>)
        requires
            old(self).wf(),
        ensures
            final(self).wf(),
            !old(self)@.live(id) ==> r == Err::<(), SceneError>(SceneError::UnknownEntity),
            old(self)@.live(id) && !old(self)@.can_add(id, cs@) ==> r == Err::<(), SceneError>(SceneError::DuplicateComponent),
            r is Ok <==> old(self)@.live(id) && old(self)@.can_add(id, cs@),
            r is Ok ==> final(self)@ == old(self)@.with_components(id, cs@),
            r is Err ==> final(self)@ == old(self)@,
    {
        if !(id.index < self.slots.len() && self.slots[id.index].alive) {
            return Err(SceneError::UnknownEntity);
        }
        let n = cs.len();
        let ghost s = self@.slots[id.index as int];
        let mut slot = self.slots[id.index];
        let mut j: usize = 0;
        while j < n
            invariant
                n == cs@.len(),
                j <= n,
                self.wf(),
                self@ == old(self)@,
                old(self)@.live(id),
                s == old(self)@.slots[id.index as int],
                forall|a: int, b: int|
                    0 <= a < b < j ==> #[trigger] cs@[a].kind_spec() != #[trigger] cs@[b].kind_spec(),
                forall|a: int| 0 <= a < j ==> !s.holds(#[trigger] cs@[a].kind_spec()),
                slot == s.with_all(cs@.take(j as int)),
            decreases n - j,
        {
            let k = cs[j].kind();
            if slot.holds_exec(k) {
                proof {
                    lemma_with_all_holds(s, cs@.take(j as int), k);
                    if !s.holds(k) {
                        let a = choose|a: int| 0 <= a < j && #[trigger] cs@.take(j as int)[a].kind_spec() == k;
                        assert(cs@[a].kind_spec() == cs@[j as int].kind_spec());
                    }
                }
                return Err(SceneError::DuplicateComponent);
            }
            proof {
                lemma_with_all_holds(s, cs@.take(j as int), k);
                assert forall|a: int| 0 <= a < j implies #[trigger] cs@[a].kind_spec() != k by {
                    assert(cs@.take(j as int)[a] == cs@[a]);
                }
                assert(cs@.take(j + 1).drop_last() =~= cs@.take(j as int));
            }
            slot = slot.with_exec(cs[j]);
            j = j + 1;
        }
        proof {
            assert(cs@.take(n as int) =~= cs@);
            lemma_with_all_holds(s, cs@, ComponentKind::Transform);
        }
        self.slots.set(id.index, slot);
        Ok(())
    }

    /// Replaces the component of `c`'s kind on `id`; the entity must already
    /// hold one. Returns the replaced value.
    pub fn set_component(&mut self, id: EntityId, c: Component) -> (r: Result<Component, SceneError>)
        requires
            old(self).wf(),
        ensures
            final(self).wf(),
            !old(self)@.live(id) ==> r == Err::<Component, SceneError>(SceneError::UnknownEntity),
            old(self)@.live(id) && old(self)@.component(id, c.kind_spec()) is None
                ==> r == Err::<Component, SceneError>(SceneError::MissingComponent),
            r is Ok ==> old(self)@.component(id, c.kind_spec()) == Some(r->Ok_0)
                && final(self)@ == old(self)@.with_components(id, seq![c]),
            r is Err ==> final(self)@ == old(self)@,
    {
        if !(id.index < self.slots.len() && self.slots[id.index].alive) {
            return Err(SceneError::UnknownEntity);
        }
        let slot = self.slots[id.index];
        match slot.get_exec(c.kind()) {
            None => Err(SceneError::MissingComponent),
            Some(prev) => {
                proof {
                    assert(seq![c].drop_last() =~= Seq::<Component>::empty());
                    assert(seq![c].last() == c);
                    assert(slot.with_all(Seq::<Component>::empty()) == slot);
                    assert(slot.with_all(seq![c]) == slot.with(c));
                    lemma_with_get(slot, c, ComponentKind::Transform);
                }
                self.slots.set(id.index, slot.with_exec(c));
                Ok(prev)
            },
        }
    }

    /// Removes `id` and all its components. Its identifier is never live again.
    pub fn remove_entity(&mut self, id: EntityId) -> (r: Result<(), SceneError>)
        requires
            old(self).wf(),
        ensures
            final(self).wf(),
            r is Ok <==> old(self)@.live(id),
            r is Err ==> r == Err::<(), SceneError>(SceneError::UnknownEntity) && final(self)@ == old(self)@,
            r is Ok ==> final(self)@.slots == old(self)@.slots.update(id.index as int, Slot::dead()),
    {
        if !(id.index < self.slots.len() && self.slots[id.index].alive) {
            return Err(SceneError::UnknownEntity);
        }
        let dead = Slot { alive: false, ..Slot::fresh_exec() };
        self.slots.set(id.index, dead);
        Ok(())
    }

    /// Every live entity holding all kinds of `mask`, each once, in row order.
    pub fn query(&self, mask: &QueryMask) -> (r: Vec<EntityId>)
        ensures
            r@ == self@.query(mask@),
    {
        let n = self.slots.len();
        let mut r: Vec<EntityId> = Vec::new();
        let mut i: usize = 0;
        while i < n
            invariant
                n == self@.slots.len(),
                i <= n,
                r@ == self@.query_upto(mask@, i as int),
            decreases n - i,
        {
            if self.slots[i].alive && slot_holds_all(&self.slots[i], mask.entries()) {
                r.push(EntityId { index: i });
            }
            i = i + 1;
        }
        r
    }

    /// Visits every live entity holding all kinds of `mask`, in row order,
    /// and replaces each of its write-mode components by `f` of it. Read-mode
    /// and unrequested components are left as they are. Returns the visited
    /// entities.
    pub fn query_mut<F: Fn(Component) -> Component>(&mut self, mask: &QueryMask, f: F) -> (r: Vec<EntityId>)
        requires
            old(self).wf(),
            mask.wf(),
            forall|c: Component| f.requires((c,)),
            forall|c: Component, d: Component| f.ensures((c,), d) ==> d.kind_spec() == c.kind_spec(),
        ensures
            final(self).wf(),
            r@ == old(self)@.query(mask@),
            final(self)@.slots.len() == old(self)@.slots.len(),
            forall|i: int| 0 <= i < old(self)@.slots.len() ==>
                if old(self)@.slots[i].alive && slot_matches(old(self)@.slots[i], mask@) {
                    rewritten(old(self)@.slots[i], #[trigger] final(self)@.slots[i], mask@, f)
                } else {
                    final(self)@.slots[i] == old(self)@.slots[i]
                },
    {
        let r = self.query(mask);
        let n = self.slots.len();
        let mut i: usize = 0;
        while i < n
            invariant
                self.wf(),
                mask.wf(),
                forall|c: Component| f.requires((c,)),
                forall|c: Component, d: Component| f.ensures((c,), d) ==> d.kind_spec() == c.kind_spec(),
                n == self@.slots.len(),
                n == old(self)@.slots.len(),
                i <= n,
                forall|j: int| i <= j < n ==> self@.slots[j] == old(self)@.slots[j],
                forall|j: int| 0 <= j < i ==>
                    if old(self)@.slots[j].alive && slot_matches(old(self)@.slots[j], mask@) {
                        rewritten(old(self)@.slots[j], #[trigger] self@.slots[j], mask@, f)
                    } else {
                        self@.slots[j] == old(self)@.slots[j]
                    },
            decreases n - i,
        {
            let orig = self.slots[i];
            if orig.alive && slot_holds_all(&orig, mask.entries()) {
                let next = rewrite_slot(orig, mask.entries(), &f);
                self.slots.set(i, next);
            }
            i = i + 1;
        }
        r
    }

    /// The storage row behind an issued identifier.
    pub(crate) fn slot(&self, i: usize) -> (r: Slot)
        requires
            i < self@.slots.len(),
        ensures
            r == self@.slots[i as int],
    {
        self.slots[i]
    }
}

/// `orig` with each write-mode kind of `m` replaced by `f` of it.
fn rewrite_slot<F: Fn(Component) -> Component>(orig: Slot, m: &Vec<(ComponentKind, Access)>, f: &F) -> (r: Slot)
    requires
        slot_matches(orig, m@),
        distinct_kinds(m@),
        forall|c: Component| f.requires((c,)),
        forall|c: Component, d: Component| f.ensures((c,), d) ==> d.kind_spec() == c.kind_spec(),
    ensures
        rewritten(orig, r, m@, *f),
{
    let mut cur = orig;
    let mut j: usize = 0;
    while j < m.len()
        invariant
            j <= m@.len(),
            slot_matches(orig, m@),
            distinct_kinds(m@),
            forall|c: Component| f.requires((c,)),
            forall|c: Component, d: Component| f.ensures((c,), d) ==> d.kind_spec() == c.kind_spec(),
            rewritten(orig, cur, m@.take(j as int), *f),
        decreases m@.len() - j,
    {
        let k = m[j].0;
        let ghost pre = m@.take(j as int);
        let ghost post = m@.take(j + 1);
        assert(post =~= pre.push(m@[j as int]));
        assert(!writes(pre, k)) by {
            if writes(pre, k) {
                let a = choose|a: int| 0 <= a < pre.len() && #[trigger] pre[a] == (k, Access::Write);
                assert(m@[a].0 == m@[j as int].0);
            }
        }
        assert(orig.holds(m@[j as int].0));
        if m[j].1 == Access::Write {
            let c = cur.get_exec(k).unwrap();
            let d = f(c);
            let ghost prev = cur;
            cur = cur.with_exec(d);
            proof {
                assert forall|k2: ComponentKind| #[trigger] cur.get(k2) == (if k2 == k { Some(d) } else { prev.get(k2) }) by {
                    lemma_with_get(prev, d, k2);
                }
                assert forall|k2: ComponentKind| writes(post, k2) <==> (writes(pre, k2) || k2 == k) by {
                    if writes(post, k2) && k2 != k {
                        let a = choose|a: int| 0 <= a < post.len() && #[trigger] post[a] == (k2, Access::Write);
                        assert(pre[a] == post[a]);
                    }
                    if writes(pre, k2) {
                        let a = choose|a: int| 0 <= a < pre.len() && #[trigger] pre[a] == (k2, Access::Write);
                        assert(post[a] == pre[a]);
                    }
                    if k2 == k {
                        assert(post[j as int] == (k2, Access::Write));
                    }
                }
            }
        } else {
            proof {
                assert forall|k2: ComponentKind| writes(post, k2) <==> writes(pre, k2) by {
                    if writes(post, k2) {
                        let a = choose|a: int| 0 <= a < post.len() && #[trigger] post[a] == (k2, Access::Write);
                        if a < j {
                            assert(pre[a] == post[a]);
                        }
                    }
                    if writes(pre, k2) {
                        let a = choose|a: int| 0 <= a < pre.len() && #[trigger] pre[a] == (k2, Access::Write);
                        assert(post[a] == pre[a]);
                    }
                }
            }
        }
        j = j + 1;
    }
    assert(m@.take(m@.len() as int) =~= m@);
    cur
}

/// Whether `slot` holds every kind listed in `m`.
pub fn slot_holds_all(slot: &Slot, m: &Vec<(ComponentKind, Access)>) -> (r: bool)
    ensures
        r == slot_matches(*slot, m@),
{
    let mut i: usize = 0;
    while i < m.len()
        invariant
            i <= m@.len(),
            forall|a: int| 0 <= a < i ==> #[trigger] slot.holds(m@[a].0),
        decreases m@.len() - i,
    {
        if !slot.holds_exec(m[i].0) {
            return false;
        }
        i = i + 1;
    }
    true
}

} // verus!
