//! The `GenerationMap` type for storing immutable, generated objects.

use std::any::TypeId;
use std::hash::Hash;
use std::sync::Arc;

use slotmap::{DefaultKey, SlotMap};
use vstd::hash_map::{HashMapWithView, StringHashMap};
use vstd::prelude::*;
use vstd::string::StringExecFns;

use crate::naming::{candidate, candidate_name, lemma_candidate_injective};

verus! {

/// A slot map of the `slotmap` crate from handles to slot positions; it hands out
/// stable handles.
#[verifier::external_body]
pub struct Slots {
    inner: SlotMap<DefaultKey, usize>,
}

/// The entries of a slot map: each live key and the value stored under it.
pub uninterp spec fn slot_entries(m: Slots) -> Map<DefaultKey, usize>;

/// Relies on `SlotMap::new`: a new slot map holds no entries.
#[verifier::external_body]
fn slots_new() -> (r: Slots)
    ensures
        slot_entries(r).dom() == Set::<DefaultKey>::empty(),
{
    Slots { inner: SlotMap::new() }
}

/// Relies on `SlotMap::insert`: the returned key was not live before and now holds `v`.
/// It panics only when the map already holds `u32::MAX - 1` entries.
#[verifier::external_body]
fn slots_insert(m: &mut Slots, v: usize) -> (k: DefaultKey)
    requires
        slot_entries(*old(m)).dom().len() + 1 < u32::MAX,
    ensures
        !slot_entries(*old(m)).contains_key(k),
        slot_entries(*final(m)) == slot_entries(*old(m)).insert(k, v),
{
    m.inner.insert(v)
}

/// Relies on `<SlotMap as Index<K>>::index`: the value stored under a live key.
#[verifier::external_body]
fn slots_get(m: &Slots, k: DefaultKey) -> (r: usize)
    requires
        slot_entries(*m).contains_key(k),
    ensures
        r == slot_entries(*m)[k],
{
    m.inner[k]
}

/// Relies on `<Arc as Clone>::clone`: the clone shares the same value.
#[verifier::external_body]
fn share<V>(a: &Arc<V>) -> (r: Arc<V>)
    ensures
        r == *a,
{
    a.clone()
}

/// A handle identifying one generated object.
pub type ObjectId = DefaultKey;

/// Whether an item needs to be generated.
/// Both `R` and `S` should be inexpensive to clone.
#[derive(Clone, Copy, Debug)]
pub enum GeneratedCheck<R, S> {
    /// The item of type `R` being requested already exists.
    Exists(R),
    /// The item being requested does not exist and has been assigned an ID of type `S`.
    MustGenerate(S),
}

/// The handle carried by an answer of `get_id`.
pub open spec fn handle_of(r: GeneratedCheck<ObjectId, ObjectId>) -> ObjectId {
    match r {
        GeneratedCheck::Exists(h) => h,
        GeneratedCheck::MustGenerate(h) => h,
    }
}

/// The state of one object slot.
#[derive(Debug)]
pub enum ObjectStatus<V> {
    /// The item of type `V` exists.
    Exists(Arc<V>),
    /// The item has been assigned an ID but is still pending a value.
    Loading,
}

/// The one recoverable failure of a generation map.
#[derive(Debug, Clone, Copy, PartialEq, Eq)]
pub enum GenerationError {
    /// An object was read before a value was published for it.
    NotYetGenerated,
}

/// The values of the `Exists` slots of `s`, in slot order.
pub open spec fn published_values<V>(s: Seq<ObjectStatus<V>>) -> Seq<V>
    decreases s.len(),
{
    if s.len() == 0 {
        Seq::empty()
    } else {
        match s.last() {
            ObjectStatus::Exists(v) => published_values(s.drop_last()).push(*v),
            ObjectStatus::Loading => published_values(s.drop_last()),
        }
    }
}

proof fn lemma_published_push_loading<V>(s: Seq<ObjectStatus<V>>)
    ensures
        published_values(s.push(ObjectStatus::Loading)) == published_values(s),
{
    assert(s.push(ObjectStatus::Loading).drop_last() =~= s);
}

proof fn lemma_published_set<V>(s: Seq<ObjectStatus<V>>, i: int, v: Arc<V>)
    requires
        0 <= i < s.len(),
        s[i] is Loading,
    ensures
        published_values(s.update(i, ObjectStatus::Exists(v))).to_multiset()
            == published_values(s).to_multiset().insert(*v),
        published_values(s.update(i, ObjectStatus::Exists(v))).len()
            == published_values(s).len() + 1,
    decreases s.len(),
{
    broadcast use vstd::seq_lib::group_to_multiset_ensures;

    let t = s.update(i, ObjectStatus::Exists(v));
    if i == s.len() - 1 {
        assert(t.drop_last() =~= s.drop_last());
    } else {
        assert(t.drop_last() =~= s.drop_last().update(i, ObjectStatus::Exists(v)));
        lemma_published_set(s.drop_last(), i, v);
    }
}

proof fn lemma_published_len<V>(s: Seq<ObjectStatus<V>>)
    ensures
        published_values(s).len() <= s.len(),
    decreases s.len(),
{
    if s.len() > 0 {
        lemma_published_len(s.drop_last());
    }
}

/// Structure for keeping track of immutable objects, some of which should be generated only once.
///
/// Handles come from a slot map, which maps each handle to the position of its
/// slot in `objects`.
#[verifier::reject_recursive_types(K)]
#[verifier::reject_recursive_types(V)]
pub struct GenerationMap<K: View + Eq + Hash, V> {
    /// Mapping from key representing generator parameters to a generated object identifier.
    target_map: HashMapWithView<K, ObjectId>,
    /// Map from name to a generated object identifier.
    name_map: StringHashMap<ObjectId>,
    /// Mapping from handle to the position of its slot.
    ids: Slots,
    /// The object slots, in the order in which they were reserved.
    objects: Vec<ObjectStatus<V>>,
}

impl<K: View + Eq + Hash, V> GenerationMap<K, V> {
    /// The key table: the handle recorded for each key.
    pub closed spec fn keys(&self) -> Map<K::V, ObjectId> {
        self.target_map@
    }

    /// The name table: the handle that each name was registered for.
    pub closed spec fn names(&self) -> Map<Seq<char>, ObjectId> {
        self.name_map@
    }

    /// The handles reserved so far.
    pub closed spec fn handles(&self) -> Set<ObjectId> {
        slot_entries(self.ids).dom()
    }

    /// The number of handles reserved so far.
    pub closed spec fn reserved(&self) -> nat {
        self.objects@.len()
    }

    /// The value published for `id`, or `None` while it is still loading.
    pub closed spec fn status(&self, id: ObjectId) -> Option<V> {
        match self.objects@[slot_entries(self.ids)[id] as int] {
            ObjectStatus::Exists(v) => Some(*v),
            ObjectStatus::Loading => None,
        }
    }

    /// The published values, in the order in which their handles were reserved.
    pub closed spec fn published(&self) -> Seq<V> {
        published_values(self.objects@)
    }

    /// The map's invariant.
    pub closed spec fn wf(&self) -> bool {
        let e = slot_entries(self.ids);
        &&& e.dom().finite()
        &&& e.dom().len() == self.objects@.len()
        &&& self.objects@.len() + 2 < u32::MAX
        &&& forall|h: ObjectId| #[trigger] e.contains_key(h) ==> e[h] < self.objects@.len()
        &&& forall|h1: ObjectId, h2: ObjectId|
            #[trigger] e.contains_key(h1) && #[trigger] e.contains_key(h2) && h1 != h2
                ==> e[h1] != e[h2]
        &&& forall|k: K::V| #[trigger]
            self.target_map@.contains_key(k) ==> e.contains_key(self.target_map@[k])
        &&& forall|k1: K::V, k2: K::V|
            #[trigger] self.target_map@.contains_key(k1) && #[trigger] self.target_map@.contains_key(k2)
                && k1 != k2 ==> self.target_map@[k1] != self.target_map@[k2]
        &&& forall|n: Seq<char>| #[trigger]
            self.name_map@.contains_key(n) ==> e.contains_key(self.name_map@[n])
        &&& self.name_map@.dom().finite()
        &&& self.name_map@.dom().len() <= published_values(self.objects@).len()
    }

    /// Creates a new, empty map.
    pub fn new() -> (r: Self)
        requires
            vstd::std_specs::hash::obeys_key_model::<K>(),
            forall|k1: K, k2: K| k1@ == k2@ ==> k1 == k2,
        ensures
            r.wf(),
            r.keys() == Map::<K::V, ObjectId>::empty(),
            r.names() == Map::<Seq<char>, ObjectId>::empty(),
            r.handles() == Set::<ObjectId>::empty(),
            r.reserved() == 0,
            r.published() == Seq::<V>::empty(),
    {
        let r = Self {
            target_map: HashMapWithView::new(),
            name_map: StringHashMap::new(),
            ids: slots_new(),
            objects: Vec::new(),
        };
        assert(slot_entries(r.ids).dom() =~= Set::<ObjectId>::empty());
        r
    }

    /// Reserves a fresh handle in state `Loading`.
    fn reserve(&mut self) -> (id: ObjectId)
        requires
            old(self).wf(),
            old(self).reserved() + 3 < u32::MAX,
        ensures
            final(self).wf(),
            !old(self).handles().contains(id),
            final(self).handles() == old(self).handles().insert(id),
            final(self).reserved() == old(self).reserved() + 1,
            final(self).status(id) is None,
            forall|h: ObjectId|
                old(self).handles().contains(h) ==> #[trigger] final(self).status(h) == old(
                    self,
                ).status(h),
            final(self).keys() == old(self).keys(),
            final(self).names() == old(self).names(),
            final(self).published() == old(self).published(),
    {
        let pos = self.objects.len();
        let id = slots_insert(&mut self.ids, pos);
        self.objects.push(ObjectStatus::Loading);
        proof {
            lemma_published_push_loading(old(self).objects@);
            let e0 = slot_entries(old(self).ids);
            let e = slot_entries(self.ids);
            assert(e.dom() == e0.dom().insert(id));
            assert forall|h: ObjectId| e0.contains_key(h) implies #[trigger] self.status(h)
                == old(self).status(h) by {
                assert(e[h] == e0[h]);
                assert(self.objects@[e[h] as int] == old(self).objects@[e0[h] as int]);
            }
            assert forall|h1: ObjectId, h2: ObjectId|
                #[trigger] e.contains_key(h1) && #[trigger] e.contains_key(h2) && h1 != h2
                    implies e[h1] != e[h2] by {
                if h1 != id && h2 != id {
                    assert(e0.contains_key(h1) && e0.contains_key(h2));
                }
                if h1 == id {
                    assert(e0.contains_key(h2));
                }
                if h2 == id {
                    assert(e0.contains_key(h1));
                }
            }
        }
        id
    }

    /// Gets an identifier for a given key, creating one if it does not yet exist.
    ///
    /// The slot map behind the handles holds fewer than `u32::MAX - 1` entries, hence the
    /// bound on the number of handles reserved so far.
    pub fn get_id(&mut self, key: K) -> (r: GeneratedCheck<ObjectId, ObjectId>)
        requires
            old(self).wf(),
            old(self).reserved() + 3 < u32::MAX,
        ensures
            final(self).wf(),
            final(self).names() == old(self).names(),
            final(self).published() == old(self).published(),
            final(self).keys().contains_key(key@),
            final(self).keys()[key@] == handle_of(r),
            old(self).keys().submap_of(final(self).keys()),
            old(self).keys().contains_key(key@) ==> r == GeneratedCheck::<ObjectId, ObjectId>::Exists(
                old(self).keys()[key@],
            ) && final(self).handles() == old(self).handles()
                && final(self).keys() == old(self).keys()
                && final(self).reserved() == old(self).reserved(),
            !old(self).keys().contains_key(key@) ==> {
                &&& r is MustGenerate
                &&& !old(self).handles().contains(r->MustGenerate_0)
                &&& final(self).handles() == old(self).handles().insert(r->MustGenerate_0)
                &&& final(self).reserved() == old(self).reserved() + 1
                &&& final(self).keys() == old(self).keys().insert(key@, r->MustGenerate_0)
                &&& final(self).status(r->MustGenerate_0) is None
            },
            forall|h: ObjectId|
                old(self).handles().contains(h) ==> #[trigger] final(self).status(h) == old(
                    self,
                ).status(h),
    {
        match self.target_map.get(&key) {
            Some(id) => GeneratedCheck::Exists(*id),
            None => {
                let id = self.reserve();
                let ghost mid = *self;
                self.target_map.insert(key, id);
                proof {
                    assert forall|h: ObjectId| old(self).handles().contains(h) implies #[trigger] self.status(
                        h,
                    ) == old(self).status(h) by {
                        assert(mid.status(h) == old(self).status(h));
                    }
                    assert forall|k1: K::V, k2: K::V|
                        #[trigger] self.target_map@.contains_key(k1)
                            && #[trigger] self.target_map@.contains_key(k2) && k1 != k2
                            implies self.target_map@[k1] != self.target_map@[k2] by {
                        if k1 != key@ && k2 != key@ {
                            assert(old(self).target_map@.contains_key(k1));
                            assert(old(self).target_map@.contains_key(k2));
                        } else if k1 == key@ {
                            assert(old(self).target_map@.contains_key(k2));
                        } else {
                            assert(old(self).target_map@.contains_key(k1));
                        }
                    }
                }
                GeneratedCheck::MustGenerate(id)
            },
        }
    }

    /// Every handle in the key table has been reserved.
    pub proof fn lemma_keyed_handles_reserved(&self)
        requires
            self.wf(),
        ensures
            forall|k: K::V| #[trigger]
                self.keys().contains_key(k) ==> self.handles().contains(self.keys()[k]),
    {
    }

    /// Distinct keys are recorded with distinct handles.
    pub proof fn lemma_distinct_keys_distinct_handles(&self, k1: K::V, k2: K::V)
        requires
            self.wf(),
            self.keys().contains_key(k1),
            self.keys().contains_key(k2),
            k1 != k2,
        ensures
            self.keys()[k1] != self.keys()[k2],
    {
    }

    /// Every handle in the name table has been reserved.
    pub proof fn lemma_named_handles_reserved(&self)
        requires
            self.wf(),
        ensures
            forall|n: Seq<char>| #[trigger]
                self.names().contains_key(n) ==> self.handles().contains(self.names()[n]),
    {
    }

    /// Gets a generated object by its unique identifier.
    pub fn get_by_id(&self, id: ObjectId) -> (r: Result<&Arc<V>, GenerationError>)
        requires
            self.wf(),
            self.handles().contains(id),
        ensures
            match self.status(id) {
                Some(v) => (r matches Ok(a) && **a == v),
                None => r == Err::<&Arc<V>, GenerationError>(GenerationError::NotYetGenerated),
            },
    {
        let pos = slots_get(&self.ids, id);
        match &self.objects[pos] {
            ObjectStatus::Loading => Err(GenerationError::NotYetGenerated),
            ObjectStatus::Exists(v) => Ok(v),
        }
    }

    /// Gets an object generated with the given parameters.
    ///
    /// Returns a new identifier if object generation has not yet started and marks the object
    /// as loading. A key whose first reservation has not been published yet may not be asked for.
    pub fn get(&mut self, key: K) -> (r: GeneratedCheck<Arc<V>, ObjectId>)
        requires
            old(self).wf(),
            old(self).reserved() + 3 < u32::MAX,
            old(self).keys().contains_key(key@) ==> old(self).status(
                old(self).keys()[key@],
            ) is Some,
        ensures
            final(self).wf(),
            final(self).names() == old(self).names(),
            final(self).published() == old(self).published(),
            final(self).keys().contains_key(key@),
            old(self).keys().submap_of(final(self).keys()),
            old(self).keys().contains_key(key@) ==> (r matches GeneratedCheck::Exists(a)
                && Some(*a) == old(self).status(old(self).keys()[key@])
                && final(self).handles() == old(self).handles()
                && final(self).keys() == old(self).keys()
                && final(self).reserved() == old(self).reserved()),
            !old(self).keys().contains_key(key@) ==> {
                &&& r is MustGenerate
                &&& !old(self).handles().contains(r->MustGenerate_0)
                &&& final(self).handles() == old(self).handles().insert(r->MustGenerate_0)
                &&& final(self).reserved() == old(self).reserved() + 1
                &&& final(self).keys() == old(self).keys().insert(key@, r->MustGenerate_0)
                &&& final(self).status(r->MustGenerate_0) is None
            },
            forall|h: ObjectId|
                old(self).handles().contains(h) ==> #[trigger] final(self).status(h) == old(
                    self,
                ).status(h),
    {
        match self.get_id(key) {
            GeneratedCheck::Exists(id) => {
                match self.get_by_id(id) {
                    Ok(v) => GeneratedCheck::Exists(share(v)),
                    Err(_) => {
                        // A recorded key whose object is still loading is ruled out by `requires`.
                        proof {
                            assert(false);
                        }
                        GeneratedCheck::MustGenerate(id)
                    },
                }
            },
            GeneratedCheck::MustGenerate(id) => GeneratedCheck::MustGenerate(id),
        }
    }

    /// Generates a new identifier and marks the corresponding object as loading.
    ///
    /// Used for objects that are not deduplicated by parameters (e.g. imported cells).
    pub fn gen_id(&mut self) -> (id: ObjectId)
        requires
            old(self).wf(),
            old(self).reserved() + 3 < u32::MAX,
        ensures
            final(self).wf(),
            !old(self).handles().contains(id),
            final(self).handles() == old(self).handles().insert(id),
            final(self).reserved() == old(self).reserved() + 1,
            final(self).status(id) is None,
            forall|h: ObjectId|
                old(self).handles().contains(h) ==> #[trigger] final(self).status(h) == old(
                    self,
                ).status(h),
            final(self).keys() == old(self).keys(),
            final(self).names() == old(self).names(),
            final(self).published() == old(self).published(),
    {
        self.reserve()
    }

    /// Publishes the value for the object `id`, registering it under `name`.
    ///
    /// Each reserved handle is published exactly once.
    pub fn set(&mut self, id: ObjectId, name: &str, value: V) -> (r: Arc<V>)
        requires
            old(self).wf(),
            old(self).handles().contains(id),
            old(self).status(id) is None,
        ensures
            final(self).wf(),
            r == value,
            final(self).status(id) == Some(value),
            forall|h: ObjectId|
                old(self).handles().contains(h) && h != id ==> #[trigger] final(self).status(h)
                    == old(self).status(h),
            final(self).handles() == old(self).handles(),
            final(self).reserved() == old(self).reserved(),
            final(self).keys() == old(self).keys(),
            final(self).names() == old(self).names().insert(name@, id),
            final(self).published().to_multiset() == old(self).published().to_multiset().insert(
                value,
            ),
    {
        let arc = Arc::new(value);
        let pos = slots_get(&self.ids, id);
        let stored = share(&arc);
        self.objects.set(pos, ObjectStatus::Exists(stored));
        self.name_map.insert(String::from_str(name), id);
        proof {
            lemma_published_set(old(self).objects@, pos as int, arc);
            let e = slot_entries(self.ids);
            assert forall|h: ObjectId| #[trigger]
                old(self).handles().contains(h) && h != id implies self.status(h) == old(
                self,
            ).status(h) by {
                assert(e[h] != e[id]);
            }
            assert(self.name_map@.dom() == old(self).name_map@.dom().insert(name@));
        }
        arc
    }

    /// Allocates an unused name derived from the given base name: the base name itself when it
    /// is free, else the first free one of `base_2`, `base_3`, ...
    ///
    /// Does not reserve the name in any way. It is up to the caller to
    /// use the name immediately upon allocation, or else other callers
    /// may be issued the same name.
    pub fn alloc_name(&self, base_name: &str) -> (r: String)
        requires
            self.wf(),
        ensures
            !self.names().contains_key(r@),
            !self.names().contains_key(base_name@) ==> r@ == base_name@,
            exists|k: nat|
                1 <= k && r@ == candidate(base_name@, k) && forall|j: nat|
                    1 <= j < k ==> self.names().contains_key(#[trigger] candidate(base_name@, j)),
    {
        if self.is_name_available(base_name) {
            let r = String::from_str(base_name);
            assert(r@ == candidate(base_name@, 1));
            return r;
        }
        let ghost names = self.name_map@.dom();
        let ghost mut seen: Set<Seq<char>> = set![base_name@];
        proof {
            assert(seen =~= Set::empty().insert(base_name@));
            vstd::set_lib::lemma_len_subset(seen, names);
            lemma_published_len(self.objects@);
            assert forall|x: Seq<char>|
                seen.contains(x) <==> exists|j: nat|
                    1 <= j < 2 && x == #[trigger] candidate(base_name@, j) by {
                if x == base_name@ {
                    assert(x == candidate(base_name@, 1));
                }
            }
        }
        let mut i: usize = 2;
        loop
            invariant
                self.wf(),
                names == self.name_map@.dom(),
                self.names().contains_key(base_name@),
                2 <= i <= names.len() + 1,
                seen.finite(),
                seen.len() == i - 1,
                seen.subset_of(names),
                forall|x: Seq<char>|
                    seen.contains(x) <==> exists|j: nat|
                        1 <= j < i && x == #[trigger] candidate(base_name@, j),
            decreases names.len() + 1 - i,
        {
            let name = candidate_name(base_name, i);
            if self.is_name_available(name.as_str()) {
                proof {
                    assert forall|j: nat| 1 <= j < i implies self.names().contains_key(
                        #[trigger] candidate(base_name@, j),
                    ) by {
                        assert(seen.contains(candidate(base_name@, j)));
                    }
                }
                return name;
            }
            proof {
                let c = candidate(base_name@, i as nat);
                if seen.contains(c) {
                    let j = choose|j: nat| 1 <= j < i && c == #[trigger] candidate(base_name@, j);
                    lemma_candidate_injective(base_name@, j, i as nat);
                }
                let seen2 = seen.insert(c);
                vstd::set_lib::lemma_len_subset(seen2, names);
                assert forall|x: Seq<char>|
                    seen2.contains(x) <==> exists|j: nat|
                        1 <= j < i + 1 && x == #[trigger] candidate(base_name@, j) by {
                    if x == c {
                        assert(x == candidate(base_name@, i as nat));
                    }
                    if exists|j: nat| 1 <= j < i + 1 && x == #[trigger] candidate(base_name@, j) {
                        let j = choose|j: nat| 1 <= j < i + 1 && x == #[trigger] candidate(base_name@, j);
                        if j < i {
                            assert(seen.contains(x));
                        }
                    }
                }
                seen = seen2;
                lemma_published_len(self.objects@);
            }
            i = i + 1;
        }
    }

    /// Checks whether or not the given name is in use.
    #[inline]
    pub fn is_name_used(&self, name: &str) -> (r: bool)
        ensures
            r == self.names().contains_key(name@),
    {
        self.name_map.contains_key(name)
    }

    /// Checks whether or not the given name is available.
    #[inline]
    pub fn is_name_available(&self, name: &str) -> (r: bool)
        ensures
            r == !self.names().contains_key(name@),
    {
        !self.is_name_used(name)
    }

    /// The published values, in the order in which their handles were reserved.
    pub fn values(&self) -> (r: Vec<Arc<V>>)
        ensures
            r@.map_values(|a: Arc<V>| *a) == self.published(),
    {
        let mut r: Vec<Arc<V>> = Vec::new();
        let mut i: usize = 0;
        while i < self.objects.len()
            invariant
                i <= self.objects@.len(),
                r@.map_values(|a: Arc<V>| *a) == published_values(self.objects@.take(i as int)),
            decreases self.objects@.len() - i,
        {
            assert(self.objects@.take(i + 1).drop_last() =~= self.objects@.take(i as int));
            match &self.objects[i] {
                ObjectStatus::Exists(v) => {
                    let ghost before = r@;
                    r.push(share(v));
                    assert(r@.map_values(|a: Arc<V>| *a) =~= before.map_values(|a: Arc<V>| *a).push(
                        **v,
                    ));
                },
                ObjectStatus::Loading => {},
            }
            i = i + 1;
        }
        assert(self.objects@.take(i as int) =~= self.objects@);
        r
    }
}

/// Requests for equal keys get the same handle, however many requests come in
/// between and in whatever order: `first` is the map right after a `get_id` for
/// `k1` answered `r1`, `later` the map right after a `get_id` for `k2` answered
/// `r2`, and the key table only grew from one to the other.
pub proof fn law_equal_keys_same_handle<K: View + Eq + Hash, V>(
    first: GenerationMap<K, V>,
    later: GenerationMap<K, V>,
    k1: K,
    r1: GeneratedCheck<ObjectId, ObjectId>,
    k2: K,
    r2: GeneratedCheck<ObjectId, ObjectId>,
)
    requires
        first.keys().contains_key(k1@),
        first.keys()[k1@] == handle_of(r1),
        later.keys().contains_key(k2@),
        later.keys()[k2@] == handle_of(r2),
        first.keys().submap_of(later.keys()),
        k1@ == k2@,
    ensures
        handle_of(r1) == handle_of(r2),
{
}

/// Requests for distinct keys get distinct handles: after `get_id` answered
/// `r1` for `k1` and, later, `r2` for `k2`, with the key table only growing in
/// between, the two handles differ.
pub proof fn law_distinct_keys_distinct_handles<K: View + Eq + Hash, V>(
    first: GenerationMap<K, V>,
    later: GenerationMap<K, V>,
    k1: K,
    r1: GeneratedCheck<ObjectId, ObjectId>,
    k2: K,
    r2: GeneratedCheck<ObjectId, ObjectId>,
)
    requires
        later.wf(),
        first.keys().contains_key(k1@),
        first.keys()[k1@] == handle_of(r1),
        later.keys().contains_key(k2@),
        later.keys()[k2@] == handle_of(r2),
        first.keys().submap_of(later.keys()),
        k1@ != k2@,
    ensures
        handle_of(r1) != handle_of(r2),
{
    assert(later.keys().contains_key(k1@) && later.keys()[k1@] == first.keys()[k1@]);
    later.lemma_distinct_keys_distinct_handles(k1@, k2@);
}

/// A handle that `gen_id` returns is new and stays out of the key table: it was
/// not reserved in `before`, `after` has the same key table, so no key maps to it.
pub proof fn law_generated_handle_unkeyed<K: View + Eq + Hash, V>(
    before: GenerationMap<K, V>,
    after: GenerationMap<K, V>,
    id: ObjectId,
)
    requires
        before.wf(),
        !before.handles().contains(id),
        after.keys() == before.keys(),
    ensures
        forall|k: K::V| #[trigger] after.keys().contains_key(k) ==> after.keys()[k] != id,
{
    before.lemma_keyed_handles_reserved();
}

/// A type identifier of std, carried opaquely.
#[verifier::external_type_specification]
#[verifier::external_body]
pub struct ExTypeId(std::any::TypeId);

/// Relies on `<TypeId as Clone>::clone`: `TypeId` is `Copy`, so the clone is the same identifier.
pub assume_specification[ <std::any::TypeId as Clone>::clone ](t: &std::any::TypeId) -> (r: std::any::TypeId)
    ensures
        r == *t,
;

/// Relies on `TypeId::of`: the identifier of the type `T`; nothing is assumed of its value.
#[verifier::external_body]
fn type_id_of<T: ?Sized + 'static>() -> (r: TypeId) {
    TypeId::of::<T>()
}

/// Key for uniquely identifying generated components: the component's type and the
/// canonical serialization of its parameters.
#[derive(Clone, Eq, PartialEq, Hash, Debug)]
pub struct ParamKey {
    /// An identifier for a component type.
    t: TypeId,
    /// Serialized parameters for the given component type.
    params: Vec<u8>,
}

impl View for ParamKey {
    type V = (TypeId, Seq<u8>);

    closed spec fn view(&self) -> (TypeId, Seq<u8>) {
        (self.t, self.params@)
    }
}

impl ParamKey {
    /// Creates a new [`ParamKey`].
    pub fn new(t: TypeId, params: Vec<u8>) -> (r: Self)
        ensures
            r@ == (t, params@),
    {
        Self { t, params }
    }

    /// Creates a new [`ParamKey`] for the component type `T` from the canonical
    /// serialization of its parameters.
    pub fn from_params<T: ?Sized + 'static>(params: Vec<u8>) -> (r: Self)
        ensures
            r@.1 == params@,
    {
        Self::new(type_id_of::<T>(), params)
    }
}

} // verus!
