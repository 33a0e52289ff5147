//! A store that holds at most one value of each type.
//!
//! Values are kept type-erased under the [`TypeId`] of their type. The store
//! itself is a list of slots with pairwise distinct keys, each holding a value
//! of the type whose id is its key; its view is the map from key to erased
//! value. [`stored`] reads the value of one type out of such a map, and
//! [`stores`] says how one write of a type's value changes it.
use std::any::TypeId;
use std::marker::PhantomData;

use vstd::prelude::*;

verus! {

#[verifier::external_type_specification]
#[verifier::external_body]
pub struct ExTypeId(TypeId);

/// Anything that can be stored in [`Resources`].
pub trait Resource: Send + Sync + 'static {}

impl<T> Resource for T where T: Send + Sync + 'static {}

/// A stored value whose static type has been erased.
///
/// It owns a `Box<dyn Any + Send + Sync>`; Verus refuses that type in any
/// form, so the struct is opaque to it.
#[verifier::external_body]
pub struct ErasedResource {
    inner: Box<dyn std::any::Any + Send + Sync>,
}

/// The id of type `T`, as `TypeId::of::<T>()` gives it: a function of the
/// type alone. Which id it is, and whether two types have different ids, is
/// left open.
pub closed spec fn key_of<T>() -> TypeId {
    vstd::pervasive::arbitrary::<(PhantomData<T>, TypeId)>().1
}

/// The value of type `T` that an erased value holds, when it holds one (when
/// its [`erased_type_id`] is [`key_of`] `T`); left open for other values.
pub closed spec fn value_of<T>(erased: ErasedResource) -> T {
    vstd::pervasive::arbitrary::<spec_fn(ErasedResource) -> T>()(erased)
}

/// What `<dyn Any>::type_id` gives for the value an erased resource boxes:
/// the id of that value's type.
pub uninterp spec fn erased_type_id(erased: ErasedResource) -> TypeId;

/// The value of type `T` that `table` holds, if any.
pub open spec fn stored<T>(table: Map<TypeId, ErasedResource>) -> Option<T> {
    if table.contains_key(key_of::<T>()) {
        Some(value_of::<T>(table[key_of::<T>()]))
    } else {
        None
    }
}

/// `after` is `before` with `value` stored as the value of type `T`, whether
/// or not one was stored before; the values under all other keys are as they
/// were.
pub open spec fn stores<T>(
    before: Map<TypeId, ErasedResource>,
    after: Map<TypeId, ErasedResource>,
    value: T,
) -> bool {
    &&& after.contains_key(key_of::<T>())
    &&& erased_type_id(after[key_of::<T>()]) == key_of::<T>()
    &&& value_of::<T>(after[key_of::<T>()]) == value
    &&& after.remove(key_of::<T>()) == before.remove(key_of::<T>())
}

/// Calls `TypeId::of::<T>()`, whose result depends on `T` alone.
#[verifier::external_body]
fn type_key<T: Resource>() -> (key: TypeId)
    ensures
        key == key_of::<T>(),
{
    TypeId::of::<T>()
}

/// Calls `<TypeId as PartialEq>::eq`, which compares the two ids: it is true
/// exactly when they are the same id.
#[verifier::external_body]
fn same_key(a: &TypeId, b: &TypeId) -> (r: bool)
    ensures
        r == (*a == *b),
{
    *a == *b
}

/// Boxes `value` as a `Box<dyn Any + Send + Sync>` (`Box::new`). The box
/// holds `value`, whose type id is `T`'s.
#[verifier::external_body]
fn erase<T: Resource>(value: T) -> (erased: ErasedResource)
    ensures
        erased_type_id(erased) == key_of::<T>(),
        value_of::<T>(erased) == value,
{
    ErasedResource { inner: Box::new(value) }
}

/// Calls `<dyn Any>::downcast_ref::<T>`, which is `Some` exactly when the
/// boxed value's type id is `T`'s (`Any::is`), and then points at that value.
#[verifier::external_body]
fn downcast_ref<T: Resource>(erased: &ErasedResource) -> (value: Option<&T>)
    ensures
        (value is Some) == (erased_type_id(*erased) == key_of::<T>()),
        match value {
            Some(v) => *v == value_of::<T>(*erased),
            None => true,
        },
{
    erased.inner.downcast_ref::<T>()
}

/// Calls `<dyn Any>::downcast_mut::<T>`; `Some` exactly when the boxed
/// value's type id is `T`'s, and then it points at the boxed value itself:
/// writes through it are writes to the erased value, which keeps its type and
/// changes exactly when the `T` changes. With `None` nothing changes.
#[verifier::external_body]
fn downcast_mut<T: Resource>(erased: &mut ErasedResource) -> (value: Option<&mut T>)
    ensures
        (value is Some) == (erased_type_id(*old(erased)) == key_of::<T>()),
        match value {
            Some(v) => {
                &&& *v == value_of::<T>(*old(erased))
                &&& erased_type_id(*final(erased)) == erased_type_id(*old(erased))
                &&& value_of::<T>(*final(erased)) == *final(v)
                &&& (*final(erased) == *old(erased)) == (*final(v) == *v)
            },
            None => *final(erased) == *old(erased),
        },
{
    erased.inner.downcast_mut::<T>()
}

/// Calls `Box::<dyn Any + Send + Sync>::downcast::<T>` and unboxes the value;
/// `Some` exactly when the boxed value's type id is `T`'s (the box is dropped
/// otherwise).
#[verifier::external_body]
fn downcast<T: Resource>(erased: ErasedResource) -> (value: Option<T>)
    ensures
        (value is Some) == (erased_type_id(erased) == key_of::<T>()),
        match value {
            Some(v) => v == value_of::<T>(erased),
            None => true,
        },
{
    match erased.inner.downcast::<T>() {
        Ok(boxed) => Some(*boxed),
        Err(_) => None,
    }
}

struct Slot {
    key: TypeId,
    value: ErasedResource,
}

/// Type-keyed storage: at most one value per type.
pub struct Resources {
    slots: Vec<Slot>,
}

spec fn keys_distinct(s: Seq<Slot>) -> bool {
    forall|i: int, j: int| 0 <= i < s.len() && 0 <= j < s.len() && i != j ==> s[i].key != s[j].key
}

spec fn slots_typed(s: Seq<Slot>) -> bool {
    forall|i: int| 0 <= i < s.len() ==> erased_type_id(#[trigger] s[i].value) == s[i].key
}

spec fn has_key(s: Seq<Slot>, k: TypeId) -> bool {
    exists|i: int| 0 <= i < s.len() && s[i].key == k
}

spec fn slots_map(s: Seq<Slot>) -> Map<TypeId, ErasedResource> {
    Map::new(
        |k: TypeId| has_key(s, k),
        |k: TypeId| s[choose|i: int| 0 <= i < s.len() && s[i].key == k].value,
    )
}

proof fn lemma_slot(s: Seq<Slot>, i: int)
    requires
        keys_distinct(s),
        0 <= i < s.len(),
    ensures
        slots_map(s).contains_key(s[i].key),
        slots_map(s)[s[i].key] == s[i].value,
{
    let k = s[i].key;
    assert(has_key(s, k));
    let j = choose|j: int| 0 <= j < s.len() && s[j].key == k;
    assert(j == i);
}

proof fn lemma_update(s: Seq<Slot>, i: int, v: ErasedResource)
    requires
        keys_distinct(s),
        0 <= i < s.len(),
    ensures
        keys_distinct(s.update(i, Slot { key: s[i].key, value: v })),
        slots_map(s.update(i, Slot { key: s[i].key, value: v })) == slots_map(s).insert(s[i].key, v),
        slots_typed(s) && erased_type_id(v) == s[i].key ==> slots_typed(
            s.update(i, Slot { key: s[i].key, value: v }),
        ),
{
    let t = s.update(i, Slot { key: s[i].key, value: v });
    let m = slots_map(s);
    let n = slots_map(t);
    assert forall|k: TypeId| n.contains_key(k) == m.insert(s[i].key, v).contains_key(k) by {
        if has_key(s, k) {
            let j = choose|j: int| 0 <= j < s.len() && s[j].key == k;
            assert(t[j].key == k);
        }
        if has_key(t, k) {
            let j = choose|j: int| 0 <= j < t.len() && t[j].key == k;
            assert(s[j].key == k);
        }
    }
    assert forall|k: TypeId| #[trigger] n.contains_key(k) implies n[k] == m.insert(s[i].key, v)[k] by {
        let j = choose|j: int| 0 <= j < t.len() && t[j].key == k;
        assert(s[j].key == k);
        if k != s[i].key {
            lemma_slot(s, j);
        }
    }
    assert(n =~= m.insert(s[i].key, v));
}

proof fn lemma_push(s: Seq<Slot>, k: TypeId, v: ErasedResource)
    requires
        keys_distinct(s),
        !slots_map(s).contains_key(k),
    ensures
        keys_distinct(s.push(Slot { key: k, value: v })),
        slots_map(s.push(Slot { key: k, value: v })) == slots_map(s).insert(k, v),
        slots_typed(s) && erased_type_id(v) == k ==> slots_typed(s.push(Slot { key: k, value: v })),
{
    let t = s.push(Slot { key: k, value: v });
    let m = slots_map(s);
    let n = slots_map(t);
    assert forall|a: int| 0 <= a < s.len() implies s[a].key != k by {
        if s[a].key == k {
            assert(has_key(s, k));
        }
    }
    assert(t[s.len() as int].key == k);
    assert forall|x: TypeId| n.contains_key(x) == m.insert(k, v).contains_key(x) by {
        if has_key(s, x) {
            let j = choose|j: int| 0 <= j < s.len() && s[j].key == x;
            assert(t[j].key == x);
        }
        if has_key(t, x) {
            let j = choose|j: int| 0 <= j < t.len() && t[j].key == x;
            if j < s.len() {
                assert(s[j].key == x);
            }
        }
    }
    lemma_slot(t, s.len() as int);
    assert forall|x: TypeId| #[trigger] n.contains_key(x) implies n[x] == m.insert(k, v)[x] by {
        if x != k {
            let j = choose|j: int| 0 <= j < t.len() && t[j].key == x;
            assert(s[j].key == x);
            lemma_slot(s, j);
            lemma_slot(t, j);
        }
    }
    assert(n =~= m.insert(k, v));
}

proof fn lemma_remove(s: Seq<Slot>, i: int)
    requires
        keys_distinct(s),
        0 <= i < s.len(),
    ensures
        keys_distinct(s.remove(i)),
        slots_map(s.remove(i)) == slots_map(s).remove(s[i].key),
        slots_typed(s) ==> slots_typed(s.remove(i)),
{
    let t = s.remove(i);
    assert forall|a: int| 0 <= a < t.len() implies t[a] == s[if a < i { a } else { a + 1 }] by {}
    let k = s[i].key;
    let m = slots_map(s);
    let n = slots_map(t);
    assert forall|a: int, b: int| 0 <= a < t.len() && 0 <= b < t.len() && a != b implies t[a].key
        != t[b].key by {
        let a2 = if a < i { a } else { a + 1 };
        let b2 = if b < i { b } else { b + 1 };
        assert(t[a] == s[a2]);
        assert(t[b] == s[b2]);
    }
    assert forall|x: TypeId| n.contains_key(x) == m.remove(k).contains_key(x) by {
        if has_key(s, x) && x != k {
            let j = choose|j: int| 0 <= j < s.len() && s[j].key == x;
            assert(j != i);
            let j2 = if j < i { j } else { j - 1 };
            assert(t[j2].key == x);
        }
        if has_key(t, x) {
            let j = choose|j: int| 0 <= j < t.len() && t[j].key == x;
            let j2 = if j < i { j } else { j + 1 };
            assert(s[j2].key == x);
            assert(j2 != i);
        }
    }
    assert forall|x: TypeId| #[trigger] n.contains_key(x) implies n[x] == m.remove(k)[x] by {
        let j = choose|j: int| 0 <= j < t.len() && t[j].key == x;
        let j2 = if j < i { j } else { j + 1 };
        assert(s[j2] == t[j]);
        lemma_slot(s, j2);
        lemma_slot(t, j);
    }
    assert(n =~= m.remove(k));
}

proof fn lemma_stores<T>(m: Map<TypeId, ErasedResource>, erased: ErasedResource)
    requires
        erased_type_id(erased) == key_of::<T>(),
    ensures
        stores::<T>(m, m.insert(key_of::<T>(), erased), value_of::<T>(erased)),
{
    assert(m.insert(key_of::<T>(), erased).remove(key_of::<T>()) =~= m.remove(key_of::<T>()));
}

proof fn lemma_insert_unchanged(m: Map<TypeId, ErasedResource>, key: TypeId, value: ErasedResource)
    requires
        m.contains_key(key),
    ensures
        (m.insert(key, value) == m) == (value == m[key]),
{
    if value == m[key] {
        assert(m.insert(key, value) =~= m);
    } else {
        assert(m.insert(key, value)[key] != m[key]);
    }
}

impl View for Resources {
    type V = Map<TypeId, ErasedResource>;

    closed spec fn view(&self) -> Map<TypeId, ErasedResource> {
        slots_map(self.slots@)
    }
}

impl Resources {
    /// The store's invariant: no two slots share a key, and each slot holds
    /// a value of the type whose id is its key.
    pub closed spec fn wf(&self) -> bool {
        keys_distinct(self.slots@) && slots_typed(self.slots@)
    }

    /// An empty store.
    pub fn new() -> (r: Self)
        ensures
            r.wf(),
            r@ == Map::<TypeId, ErasedResource>::empty(),
    {
        let r = Resources { slots: Vec::new() };
        assert(r@ =~= Map::<TypeId, ErasedResource>::empty());
        r
    }

    fn find(&self, key: &TypeId) -> (r: Option<usize>)
        requires
            self.wf(),
        ensures
            match r {
                Some(i) => i < self.slots.len() && self.slots[i as int].key == *key
                    && self@.contains_key(*key) && self@[*key] == self.slots[i as int].value
                    && erased_type_id(self@[*key]) == *key,
                None => !self@.contains_key(*key),
            },
    {
        let mut i: usize = 0;
        while i < self.slots.len()
            invariant
                self.wf(),
                i <= self.slots.len(),
                forall|j: int| 0 <= j < i ==> self.slots[j].key != *key,
            decreases self.slots.len() - i,
        {
            if same_key(&self.slots[i].key, key) {
                proof {
                    lemma_slot(self.slots@, i as int);
                }
                return Some(i);
            }
            i = i + 1;
        }
        None
    }

    /// Whether a value is stored under `key`.
    fn contains_key(&self, key: &TypeId) -> (r: bool)
        requires
            self.wf(),
        ensures
            r == self@.contains_key(*key),
    {
        self.find(key).is_some()
    }

    /// The value stored under `key`, if any.
    fn get_erased(&self, key: &TypeId) -> (r: Option<&ErasedResource>)
        requires
            self.wf(),
        ensures
            match r {
                Some(value) => self@.contains_key(*key) && *value == self@[*key],
                None => !self@.contains_key(*key),
            },
    {
        match self.find(key) {
            Some(i) => Some(&self.slots[i].value),
            None => None,
        }
    }

    /// Stores `value` under `key` and hands back the value that was there.
    fn insert_erased(&mut self, key: TypeId, value: ErasedResource) -> (r: Option<
        ErasedResource,
    >)
        requires
            old(self).wf(),
            erased_type_id(value) == key,
        ensures
            final(self).wf(),
            final(self)@ == old(self)@.insert(key, value),
            match r {
                Some(previous) => old(self)@.contains_key(key) && previous == old(self)@[key]
                    && erased_type_id(previous) == key,
                None => !old(self)@.contains_key(key),
            },
    {
        match self.find(&key) {
            Some(i) => {
                let mut value = value;
                proof {
                    lemma_update(self.slots@, i as int, value);
                }
                std::mem::swap(&mut self.slots[i].value, &mut value);
                Some(value)
            },
            None => {
                proof {
                    lemma_push(self.slots@, key, value);
                }
                self.slots.push(Slot { key, value });
                None
            },
        }
    }
}

impl Default for Resources {
    fn default() -> (r: Self)
        ensures
            r.wf(),
            r@ == Map::<TypeId, ErasedResource>::empty(),
    {
        Resources::new()
    }
}

impl Resources {
    /// Whether a value of type `T` is stored.
    pub fn contains<T: Resource>(&self) -> (r: bool)
        requires
            self.wf(),
        ensures
            r == self@.contains_key(key_of::<T>()),
    {
        let key = type_key::<T>();
        self.contains_key(&key)
    }

    /// The entry for `T`: occupied when a value of type `T` is stored,
    /// vacant otherwise. Whatever is done through the entry is what happens
    /// to the store; dropping it changes nothing.
    pub fn entry<T: Resource>(&mut self) -> (e: Entry<'_, T>)
        requires
            old(self).wf(),
        ensures
            e.wf(),
            e.table() == old(self)@,
            e is Occupied <==> old(self)@.contains_key(key_of::<T>()),
            *final(e.handle()) == *final(self),
    {
        let key = type_key::<T>();
        match self.find(&key) {
            Some(index) => Entry::Occupied(OccupiedEntry { resources: self, index, _phantom: PhantomData }),
            None => Entry::Vacant(VacantEntry { resources: self, key, _phantom: PhantomData }),
        }
    }

    /// Stores `resource` as the value of type `T` and hands back the value of
    /// type `T` that was stored before, if any.
    pub fn insert<T: Resource>(&mut self, resource: T) -> (r: Option<T>)
        requires
            old(self).wf(),
        ensures
            final(self).wf(),
            r == stored::<T>(old(self)@),
            stores::<T>(old(self)@, final(self)@, resource),
    {
        let key = type_key::<T>();
        let erased = erase(resource);
        let ghost before = self@;
        let previous = self.insert_erased(key, erased);
        proof {
            lemma_stores::<T>(before, erased);
        }
        match previous {
            Some(previous) => Some(downcast::<T>(previous).unwrap()),
            None => None,
        }
    }

    /// The stored value of type `T`, if any.
    pub fn get<T: Resource>(&self) -> (r: Option<&T>)
        requires
            self.wf(),
        ensures
            match r {
                Some(v) => stored::<T>(self@) == Some(*v),
                None => stored::<T>(self@) is None,
            },
    {
        let key = type_key::<T>();
        match self.get_erased(&key) {
            Some(erased) => Some(downcast_ref::<T>(erased).unwrap()),
            None => None,
        }
    }

    /// Mutable access to the stored value of type `T`, if any. The store
    /// changes only through the result: afterwards it holds what was written
    /// there as `T`'s value, and nothing else changes.
    pub fn get_mut<T: Resource>(&mut self) -> (r: Option<&mut T>)
        requires
            old(self).wf(),
        ensures
            final(self).wf(),
            match r {
                Some(v) => {
                    &&& stored::<T>(old(self)@) == Some(*v)
                    &&& stores::<T>(old(self)@, final(self)@, *final(v))
                    &&& (final(self)@ == old(self)@) == (*final(v) == *v)
                },
                None => stored::<T>(old(self)@) is None && final(self)@ == old(self)@,
            },
    {
        match self.entry::<T>() {
            Entry::Occupied(occupied_entry) => Some(occupied_entry.into_mut()),
            Entry::Vacant(_vacant_entry) => None,
        }
    }

    /// The stored value of type `T`; when there is none, `default()` is
    /// stored first, and only then is `default` called. A value already there
    /// is kept: the store then changes only through the result.
    pub fn get_mut_or_insert_with<T: Resource, F: FnOnce() -> T>(&mut self, default: F) -> (r:
        &mut T)
        requires
            old(self).wf(),
            default.requires(()),
        ensures
            final(self).wf(),
            stores::<T>(old(self)@, final(self)@, *final(r)),
            match stored::<T>(old(self)@) {
                Some(v) => *r == v && ((final(self)@ == old(self)@) == (*final(r) == *r)),
                None => default.ensures((), *r),
            },
    {
        self.entry::<T>().or_insert_with(default)
    }

    /// The stored value of type `T`; when there is none, `default` is stored
    /// first. A value already there is kept and the store is left as it is.
    pub fn get_mut_or_insert<T: Resource>(&mut self, default: T) -> (r: &T)
        requires
            old(self).wf(),
        ensures
            final(self).wf(),
            match stored::<T>(old(self)@) {
                Some(v) => *r == v && final(self)@ == old(self)@,
                None => *r == default && stores::<T>(old(self)@, final(self)@, default),
            },
    {
        let value = self.entry::<T>().or_insert(default);
        let shared: &T = value;
        shared
    }

    /// The stored value of type `T`; when there is none, `T::default()` is
    /// stored first. A value already there is kept and the store is left as
    /// it is.
    pub fn get_mut_or_insert_default<T: Resource + Default>(&mut self) -> (r: &T)
        requires
            old(self).wf(),
        ensures
            final(self).wf(),
            match stored::<T>(old(self)@) {
                Some(v) => *r == v && final(self)@ == old(self)@,
                None => stores::<T>(old(self)@, final(self)@, *r),
            },
    {
        let value = match self.entry::<T>() {
            Entry::Occupied(occupied_entry) => occupied_entry.into_mut(),
            Entry::Vacant(vacant_entry) => vacant_entry.insert(T::default()),
        };
        let shared: &T = value;
        shared
    }

    /// The stored value of type `T`, which must be there.
    pub fn expect<T: Resource>(&self) -> (r: &T)
        requires
            self.wf(),
            self@.contains_key(key_of::<T>()),
        ensures
            stored::<T>(self@) == Some(*r),
    {
        let key = type_key::<T>();
        let erased = self.get_erased(&key).unwrap();
        downcast_ref::<T>(erased).unwrap()
    }

    /// Mutable access to the stored value of type `T`, which must be there;
    /// the store changes only through the result.
    pub fn expect_mut<T: Resource>(&mut self) -> (r: &mut T)
        requires
            old(self).wf(),
            old(self)@.contains_key(key_of::<T>()),
        ensures
            final(self).wf(),
            stored::<T>(old(self)@) == Some(*r),
            stores::<T>(old(self)@, final(self)@, *final(r)),
            (final(self)@ == old(self)@) == (*final(r) == *r),
    {
        self.get_mut::<T>().unwrap()
    }
}

/// A view into the slot of one type: occupied or vacant.
pub enum Entry<'a, T: Resource> {
    Occupied(OccupiedEntry<'a, T>),
    Vacant(VacantEntry<'a, T>),
}

/// An entry whose slot holds a value.
pub struct OccupiedEntry<'a, T: Resource> {
    resources: &'a mut Resources,
    index: usize,
    _phantom: PhantomData<T>,
}

/// An entry whose slot is empty.
pub struct VacantEntry<'a, T> {
    resources: &'a mut Resources,
    key: TypeId,
    _phantom: PhantomData<T>,
}

impl<'a, T: Resource> Entry<'a, T> {
    pub open spec fn wf(&self) -> bool {
        match self {
            Entry::Occupied(o) => o.wf(),
            Entry::Vacant(v) => v.wf(),
        }
    }

    /// The store's contents as the entry sees them.
    pub open spec fn table(&self) -> Map<TypeId, ErasedResource> {
        match self {
            Entry::Occupied(o) => o.table(),
            Entry::Vacant(v) => v.table(),
        }
    }

    /// The borrow of the store that the entry holds.
    pub open spec fn handle(&self) -> &'a mut Resources {
        match self {
            Entry::Occupied(o) => o.handle(),
            Entry::Vacant(v) => v.handle(),
        }
    }

    /// The stored value; `default` is stored first when the slot is empty.
    /// An occupied slot keeps its value: the store then changes only through
    /// the result.
    pub fn or_insert(self, default: T) -> (r: &'a mut T)
        requires
            self.wf(),
        ensures
            final(self.handle()).wf(),
            stores::<T>(self.table(), (*final(self.handle()))@, *final(r)),
            match stored::<T>(self.table()) {
                Some(v) => *r == v && (((*final(self.handle()))@ == self.table()) == (*final(r)
                    == *r)),
                None => *r == default,
            },
    {
        match self {
            Entry::Occupied(occupied_entry) => occupied_entry.into_mut(),
            Entry::Vacant(vacant_entry) => vacant_entry.insert(default),
        }
    }

    /// The stored value; `default()` is stored first when the slot is empty,
    /// and only then is `default` called. An occupied slot keeps its value.
    pub fn or_insert_with<F: FnOnce() -> T>(self, default: F) -> (r: &'a mut T)
        requires
            self.wf(),
            default.requires(()),
        ensures
            final(self.handle()).wf(),
            stores::<T>(self.table(), (*final(self.handle()))@, *final(r)),
            match stored::<T>(self.table()) {
                Some(v) => *r == v && (((*final(self.handle()))@ == self.table()) == (*final(r)
                    == *r)),
                None => default.ensures((), *r),
            },
    {
        match self {
            Entry::Occupied(occupied_entry) => occupied_entry.into_mut(),
            Entry::Vacant(vacant_entry) => vacant_entry.insert(default()),
        }
    }

    /// Calls `f` on the stored value when the slot is occupied, and the store
    /// then holds what `f` left there; a vacant entry is handed back
    /// unchanged, and `f` is not called.
    pub fn and_modify<F: FnOnce(&mut T)>(self, f: F) -> (r: Self)
        requires
            self.wf(),
            forall|value: &mut T| f.requires((value,)),
        ensures
            r.wf(),
            r is Occupied <==> self is Occupied,
            *final(r.handle()) == *final(self.handle()),
            self is Vacant ==> r.table() == self.table(),
            self is Occupied ==> exists|value: &mut T|
                #![trigger f.ensures((value,), ())]
                Some(*value) == stored::<T>(self.table()) && f.ensures((value,), ()) && stores::<T>(
                    self.table(),
                    r.table(),
                    *final(value),
                ),
    {
        let mut entry = self;
        match &mut entry {
            Entry::Occupied(occupied_entry) => {
                let value = occupied_entry.get_mut();
                f(value);
            },
            Entry::Vacant(_vacant_entry) => {},
        }
        entry
    }

    /// Stores `resource` in the slot, whatever it held, and hands back the
    /// now occupied entry.
    pub fn insert_entry(self, resource: T) -> (r: OccupiedEntry<'a, T>)
        requires
            self.wf(),
        ensures
            r.wf(),
            *final(r.handle()) == *final(self.handle()),
            stores::<T>(self.table(), r.table(), resource),
    {
        match self {
            Entry::Occupied(occupied_entry) => {
                let mut occupied_entry = occupied_entry;
                let _old_value = occupied_entry.insert(resource);
                occupied_entry
            },
            Entry::Vacant(vacant_entry) => vacant_entry.insert_entry(resource),
        }
    }
}

impl<'a, T: Resource> OccupiedEntry<'a, T> {
    pub closed spec fn wf(&self) -> bool {
        &&& self.resources.wf()
        &&& self.index < self.resources.slots.len()
        &&& self.resources.slots[self.index as int].key == key_of::<T>()
    }

    /// The store's contents as the entry sees them.
    pub closed spec fn table(&self) -> Map<TypeId, ErasedResource> {
        self.resources.view()
    }

    /// The borrow of the store that the entry holds.
    pub closed spec fn handle(&self) -> &'a mut Resources {
        self.resources
    }

    proof fn lemma_occupied(&self)
        requires
            self.wf(),
        ensures
            self.table().contains_key(key_of::<T>()),
            erased_type_id(self.table()[key_of::<T>()]) == key_of::<T>(),
    {
        lemma_slot(self.resources.slots@, self.index as int);
    }

    /// Removes the value from the store and hands it back.
    pub fn remove(self) -> (r: T)
        requires
            self.wf(),
        ensures
            final(self.handle()).wf(),
            stored::<T>(self.table()) == Some(r),
            (*final(self.handle()))@ == self.table().remove(key_of::<T>()),
    {
        proof {
            self.lemma_occupied();
            lemma_remove(self.resources.slots@, self.index as int);
        }
        let slot = self.resources.slots.remove(self.index);
        downcast::<T>(slot.value).unwrap()
    }

    /// The stored value.
    pub fn get(&self) -> (r: &T)
        requires
            self.wf(),
        ensures
            stored::<T>(self.table()) == Some(*r),
    {
        proof {
            self.lemma_occupied();
        }
        downcast_ref::<T>(&self.resources.slots[self.index].value).unwrap()
    }

    /// Mutable access to the stored value; the store then holds what is
    /// written through the result, and nothing else changes.
    pub fn get_mut(&mut self) -> (r: &mut T)
        requires
            old(self).wf(),
        ensures
            final(self).wf(),
            *final(final(self).handle()) == *final(old(self).handle()),
            stored::<T>(old(self).table()) == Some(*r),
            stores::<T>(old(self).table(), final(self).table(), *final(r)),
            (final(self).table() == old(self).table()) == (*final(r) == *r),
    {
        let index = self.index;
        let ghost table = self.table();
        let ghost before = self.resources.slots@;
        let ghost after = *final(self);
        proof {
            self.lemma_occupied();
        }
        let value = &mut self.resources.slots[index].value;
        let ghost written = *final(value);
        let ghost current = *value;
        let r = downcast_mut::<T>(value).unwrap();
        proof {
            lemma_update(before, index as int, written);
            lemma_stores::<T>(table, written);
            lemma_insert_unchanged(table, key_of::<T>(), written);
        }
        assert(after.table() == table.insert(key_of::<T>(), written));
        r
    }

    /// The stored value, for as long as the store was borrowed; the store
    /// then holds what is written through the result, and nothing else
    /// changes.
    pub fn into_mut(self) -> (r: &'a mut T)
        requires
            self.wf(),
        ensures
            final(self.handle()).wf(),
            stored::<T>(self.table()) == Some(*r),
            stores::<T>(self.table(), (*final(self.handle()))@, *final(r)),
            ((*final(self.handle()))@ == self.table()) == (*final(r) == *r),
    {
        let index = self.index;
        let ghost table = self.table();
        proof {
            self.lemma_occupied();
        }
        let resources = self.resources;
        let ghost before = resources.slots@;
        let ghost after = *final(resources);
        let value = &mut resources.slots[index].value;
        let ghost written = *final(value);
        let ghost current = *value;
        let r = downcast_mut::<T>(value).unwrap();
        proof {
            lemma_update(before, index as int, written);
            lemma_stores::<T>(table, written);
            lemma_insert_unchanged(table, key_of::<T>(), written);
        }
        assert(after@ == table.insert(key_of::<T>(), written));
        r
    }

    /// Replaces the stored value with `resource` and hands back the old one.
    pub fn insert(&mut self, resource: T) -> (r: T)
        requires
            old(self).wf(),
        ensures
            final(self).wf(),
            *final(final(self).handle()) == *final(old(self).handle()),
            stored::<T>(old(self).table()) == Some(r),
            stores::<T>(old(self).table(), final(self).table(), resource),
    {
        proof {
            self.lemma_occupied();
        }
        let index = self.index;
        let mut erased = erase(resource);
        let ghost table = self.table();
        let ghost inserted = erased;
        proof {
            lemma_update(self.resources.slots@, index as int, erased);
            lemma_stores::<T>(table, erased);
        }
        std::mem::swap(&mut self.resources.slots[index].value, &mut erased);
        assert(self.table() == table.insert(key_of::<T>(), inserted));
        downcast::<T>(erased).unwrap()
    }
}

impl<'a, T: Resource> VacantEntry<'a, T> {
    pub closed spec fn wf(&self) -> bool {
        &&& self.resources.wf()
        &&& self.key == key_of::<T>()
        &&& !self.resources.view().contains_key(self.key)
    }

    /// The store's contents as the entry sees them.
    pub closed spec fn table(&self) -> Map<TypeId, ErasedResource> {
        self.resources.view()
    }

    /// The borrow of the store that the entry holds.
    pub closed spec fn handle(&self) -> &'a mut Resources {
        self.resources
    }

    /// Stores `resource` and hands back the stored value; the store then
    /// holds what is written through the result.
    pub fn insert(self, resource: T) -> (r: &'a mut T)
        requires
            self.wf(),
        ensures
            final(self.handle()).wf(),
            stored::<T>(self.table()) is None,
            *r == resource,
            stores::<T>(self.table(), (*final(self.handle()))@, *final(r)),
    {
        self.insert_entry(resource).into_mut()
    }

    /// Stores `resource` and hands back the now occupied entry.
    pub fn insert_entry(self, resource: T) -> (r: OccupiedEntry<'a, T>)
        requires
            self.wf(),
        ensures
            r.wf(),
            *final(r.handle()) == *final(self.handle()),
            stored::<T>(self.table()) is None,
            stores::<T>(self.table(), r.table(), resource),
    {
        let key = self.key;
        let resources = self.resources;
        let erased = erase(resource);
        let ghost table = resources@;
        proof {
            lemma_push(resources.slots@, key, erased);
            lemma_stores::<T>(table, erased);
        }
        assert(table == self.table());
        resources.slots.push(Slot { key, value: erased });
        let index = resources.slots.len() - 1;
        let r = OccupiedEntry { resources, index, _phantom: PhantomData };
        assert(r.table() == table.insert(key, erased));
        r
    }
}

/// A value stored for a type is what a lookup of that type then gives back.
pub proof fn law_insert_then_get<T>(
    before: Map<TypeId, ErasedResource>,
    after: Map<TypeId, ErasedResource>,
    value: T,
)
    requires
        stores::<T>(before, after, value),
    ensures
        stored::<T>(after) == Some(value),
{
}

/// Storing a value of one type leaves the value of every type with another
/// id as it was: the store holds values of several types side by side.
pub proof fn law_insert_keeps_other_types<T, U>(
    before: Map<TypeId, ErasedResource>,
    after: Map<TypeId, ErasedResource>,
    value: T,
)
    requires
        stores::<T>(before, after, value),
        key_of::<U>() != key_of::<T>(),
    ensures
        stored::<U>(after) == stored::<U>(before),
{
    let k = key_of::<U>();
    assert(after.remove(key_of::<T>()).contains_key(k) == after.contains_key(k));
    assert(before.remove(key_of::<T>()).contains_key(k) == before.contains_key(k));
    if after.contains_key(k) {
        assert(after.remove(key_of::<T>())[k] == after[k]);
        assert(before.remove(key_of::<T>())[k] == before[k]);
    }
}

/// Storing a value of a type that was absent, then removing that type's
/// value, gives back the store as it was.
pub proof fn law_insert_then_remove<T>(
    before: Map<TypeId, ErasedResource>,
    after: Map<TypeId, ErasedResource>,
    value: T,
)
    requires
        stores::<T>(before, after, value),
        stored::<T>(before) is None,
    ensures
        after.remove(key_of::<T>()) == before,
{
    assert(before.remove(key_of::<T>()) =~= before);
}

/// Storing a value of a type that is already stored adds no key; storing one
/// of a type that is absent adds exactly that type's key.
pub proof fn law_insert_keys<T>(
    before: Map<TypeId, ErasedResource>,
    after: Map<TypeId, ErasedResource>,
    value: T,
)
    requires
        stores::<T>(before, after, value),
    ensures
        after.dom() == before.dom().insert(key_of::<T>()),
{
    let key = key_of::<T>();
    assert forall|k: TypeId| after.dom().contains(k) == before.dom().insert(key).contains(k) by {
        if k != key {
            assert(after.remove(key).dom().contains(k) == after.dom().contains(k));
            assert(before.remove(key).dom().contains(k) == before.dom().contains(k));
        }
    }
    assert(after.dom() =~= before.dom().insert(key));
}

} // verus!
