//! Handle bookkeeping for foreign-function bindings: a registry that hands
//! out numeric ids for shared values, and a guard that remembers which
//! handles were destroyed so that late callbacks can be suppressed.
use std::collections::{HashMap, HashSet};
use std::sync::Arc;
use vstd::prelude::*;

verus! {

broadcast use vstd::std_specs::hash::group_hash_axioms;

/// `Arc::clone` yields another pointer to the same value.
#[verifier::external_body]
fn share<T>(a: &Arc<T>) -> (res: Arc<T>)
    ensures
        res == *a,
{
    Arc::clone(a)
}

/// The abstract state of a registry: the live handles and the next id.
pub ghost struct RegistryView<T> {
    pub handles: Map<usize, Arc<T>>,
    pub next_id: usize,
}

/// The state after allocating an id: ids advance like an atomic counter,
/// wrapping at the end of the `usize` range.
pub open spec fn advance<T>(s: RegistryView<T>) -> RegistryView<T> {
    RegistryView {
        handles: s.handles,
        next_id: if s.next_id == usize::MAX {
            0
        } else {
            (s.next_id + 1) as usize
        },
    }
}

/// The state after `insert`: the next id is given to `value`.
pub open spec fn insert_spec<T>(s: RegistryView<T>, value: Arc<T>) -> RegistryView<T> {
    RegistryView { handles: s.handles.insert(s.next_id, value), next_id: advance(s).next_id }
}

/// Registry of shared values addressed by numeric handles.
///
/// Ids start at 1 and are handed out in increasing order; an id is never
/// reused before the counter wraps around.
pub struct HandleRegistry<T> {
    map: HashMap<usize, Arc<T>>,
    next_id: usize,
}

impl<T> View for HandleRegistry<T> {
    type V = RegistryView<T>;

    closed spec fn view(&self) -> RegistryView<T> {
        RegistryView { handles: self.map@, next_id: self.next_id }
    }
}

impl<T> HandleRegistry<T> {
    /// An empty registry whose first id is 1.
    pub fn new() -> (r: Self)
        ensures
            r@.handles == Map::<usize, Arc<T>>::empty(),
            r@.next_id == 1,
    {
        HandleRegistry { map: HashMap::new(), next_id: 1 }
    }

    /// Allocates the next id without inserting anything.
    pub fn next_id(&mut self) -> (id: usize)
        ensures
            id == old(self)@.next_id,
            final(self)@ == advance(old(self)@),
    {
        let id = self.next_id;
        self.next_id = self.next_id.wrapping_add(1);
        id
    }

    /// Allocates a new id, stores `value` under it and returns the id.
    pub fn insert(&mut self, value: Arc<T>) -> (id: usize)
        ensures
            id == old(self)@.next_id,
            final(self)@ == insert_spec(old(self)@, value),
    {
        let id = self.next_id();
        self.map.insert(id, value);
        id
    }

    /// Stores `value` under an id allocated earlier with `next_id`.
    pub fn insert_with_id(&mut self, id: usize, value: Arc<T>)
        ensures
            final(self)@.handles == old(self)@.handles.insert(id, value),
            final(self)@.next_id == old(self)@.next_id,
    {
        self.map.insert(id, value);
    }

    /// The value stored under `id`, if any.
    pub fn get(&self, id: usize) -> (r: Option<Arc<T>>)
        ensures
            r == (if self@.handles.contains_key(id) {
                Some(self@.handles[id])
            } else {
                None::<Arc<T>>
            }),
    {
        match self.map.get(&id) {
            Some(v) => Some(share(v)),
            None => None,
        }
    }

    /// Removes and returns the value stored under `id`, if any.
    pub fn remove(&mut self, id: usize) -> (r: Option<Arc<T>>)
        ensures
            final(self)@.handles == old(self)@.handles.remove(id),
            final(self)@.next_id == old(self)@.next_id,
            r == (if old(self)@.handles.contains_key(id) {
                Some(old(self)@.handles[id])
            } else {
                None::<Arc<T>>
            }),
    {
        self.map.remove(&id)
    }
}

impl<T> Default for HandleRegistry<T> {
    fn default() -> (r: Self)
        ensures
            r@.handles == Map::<usize, Arc<T>>::empty(),
            r@.next_id == 1,
    {
        Self::new()
    }
}

/// What a handle holds right after it was inserted is what `get` returns.
pub proof fn law_insert_then_get<T>(s: RegistryView<T>, value: Arc<T>)
    ensures
        insert_spec(s, value).handles.contains_key(s.next_id),
        insert_spec(s, value).handles[s.next_id] == value,
{
}

/// After `remove(id)` the handle is gone, whatever else the registry holds.
pub proof fn law_remove_then_get<T>(s: RegistryView<T>, id: usize)
    ensures
        !s.handles.remove(id).contains_key(id),
{
}

/// Two successive insertions get different ids, and the first value is
/// still reachable under its id after the second insertion.
pub proof fn law_ids_unique<T>(s: RegistryView<T>, a: Arc<T>, b: Arc<T>)
    ensures
        s.next_id != insert_spec(s, a).next_id,
        insert_spec(insert_spec(s, a), b).handles[s.next_id] == a,
{
}

/// Ids handed out by a registry that has not wrapped around are strictly
/// increasing, so no id is handed out twice.
pub proof fn law_ids_increase<T>(s: RegistryView<T>, a: Arc<T>)
    requires
        s.next_id < usize::MAX,
    ensures
        insert_spec(s, a).next_id == s.next_id + 1,
{
}

/// A call on a registry, as far as ids are concerned.
pub enum RegistryOp<T> {
    /// `next_id()`.
    NextId,
    /// `insert(value)`.
    Insert(Arc<T>),
    /// `remove(id)`.
    Remove(usize),
}

/// The state after one call.
pub open spec fn step<T>(s: RegistryView<T>, op: RegistryOp<T>) -> RegistryView<T> {
    match op {
        RegistryOp::NextId => advance(s),
        RegistryOp::Insert(v) => insert_spec(s, v),
        RegistryOp::Remove(id) => RegistryView { handles: s.handles.remove(id), next_id: s.next_id },
    }
}

/// The state after a run of calls.
pub open spec fn run<T>(s: RegistryView<T>, ops: Seq<RegistryOp<T>>) -> RegistryView<T>
    decreases ops.len(),
{
    if ops.len() == 0 {
        s
    } else {
        step(run(s, ops.drop_last()), ops.last())
    }
}

/// The ids a run of calls hands out, in call order: `next_id` and
/// `insert` each hand out one, `remove` none.
pub open spec fn ids_handed<T>(s: RegistryView<T>, ops: Seq<RegistryOp<T>>) -> Seq<usize>
    decreases ops.len(),
{
    if ops.len() == 0 {
        Seq::empty()
    } else {
        let before = ids_handed(s, ops.drop_last());
        match ops.last() {
            RegistryOp::Remove(_) => before,
            _ => before.push(run(s, ops.drop_last()).next_id),
        }
    }
}

proof fn lemma_ids_count<T>(s: RegistryView<T>, ops: Seq<RegistryOp<T>>)
    requires
        s.next_id + ops.len() <= usize::MAX,
    ensures
        ids_handed(s, ops).len() <= ops.len(),
        run(s, ops).next_id == s.next_id + ids_handed(s, ops).len(),
        forall|i: int| 0 <= i < ids_handed(s, ops).len() ==> #[trigger] ids_handed(s, ops)[i] == s.next_id + i,
    decreases ops.len(),
{
    if ops.len() > 0 {
        lemma_ids_count(s, ops.drop_last());
    }
}

/// Whatever mix of `next_id`, `insert` and `remove` calls a registry gets,
/// as long as fewer than `usize::MAX` ids have been handed out in all, the
/// ids it hands out are never 0 (the null handle), strictly increase in
/// call order, and so are never handed out twice, removals included.
pub proof fn law_ids_never_repeat<T>(s: RegistryView<T>, ops: Seq<RegistryOp<T>>)
    requires
        1 <= s.next_id,
        s.next_id + ops.len() <= usize::MAX,
    ensures
        forall|i: int| 0 <= i < ids_handed(s, ops).len() ==> #[trigger] ids_handed(s, ops)[i] >= 1,
        forall|i: int, j: int|
            0 <= i < j < ids_handed(s, ops).len() ==> #[trigger] ids_handed(s, ops)[i]
                < #[trigger] ids_handed(s, ops)[j],
{
    lemma_ids_count(s, ops);
}

/// The set of destroyed handle ids. Ids only ever enter the set: since the
/// registry does not reuse ids, remembering them forever is harmless.
pub struct CancellationGuard {
    ids: HashSet<usize>,
}

impl View for CancellationGuard {
    type V = Set<usize>;

    closed spec fn view(&self) -> Set<usize> {
        self.ids@
    }
}

impl CancellationGuard {
    /// A guard with no cancelled ids.
    pub fn new() -> (r: Self)
        ensures
            r@ == Set::<usize>::empty(),
    {
        CancellationGuard { ids: HashSet::new() }
    }

    /// Records that the handle `id` was destroyed.
    pub fn mark(&mut self, id: usize)
        ensures
            final(self)@ == old(self)@.insert(id),
    {
        self.ids.insert(id);
    }

    /// Whether the handle `id` was destroyed.
    pub fn is_cancelled(&self, id: usize) -> (r: bool)
        ensures
            r == self@.contains(id),
    {
        self.ids.contains(&id)
    }
}

impl Default for CancellationGuard {
    fn default() -> (r: Self)
        ensures
            r@ == Set::<usize>::empty(),
    {
        Self::new()
    }
}

/// Once an id is marked it stays cancelled, whatever is marked afterwards.
pub proof fn law_mark_is_permanent(s: Set<usize>, id: usize, later: Seq<usize>)
    ensures
        later.fold_left(s.insert(id), |acc: Set<usize>, x: usize| acc.insert(x)).contains(id),
    decreases later.len(),
{
    if later.len() > 0 {
        let f = |acc: Set<usize>, x: usize| acc.insert(x);
        law_mark_is_permanent(s, id, later.drop_last());
        assert(later.fold_left(s.insert(id), f) == f(
            later.drop_last().fold_left(s.insert(id), f),
            later.last(),
        ));
    }
}

} // verus!
