//! The stub registry: a mapping from resolved names to type-erased stub
//! payloads, with insertion, producer-based insertion, and type-recovering
//! retrieval.
//!
//! A payload is a boxed thunk that manufactures one boxed value per
//! invocation: for a stored value, a fresh duplicate each time; for a stored
//! producer, whatever the producer returns. The thunk's value is recovered
//! at retrieval time as the type the caller expects; the registry itself
//! never knows the concrete type. Verus cannot look through that erasure, so
//! the payload type is opaque to the verifier and the registry's view tracks
//! which name maps to which payload, not what a payload will produce.

use core::cmp::Ordering;
use vstd::prelude::*;

use crate::name::StubbyName;

verus! {

/// The type-erased payload of one registry slot. Held opaque: `dyn` is
/// outside what the verifier can follow, so payloads are created and invoked
/// only through the trusted helpers below.
#[verifier::external_body]
pub struct StubbyFunction {
    thunk: Box<dyn Fn() -> Box<dyn core::any::Any> + Send + Sync>,
}

/// Relies on `Box::new` and `T::clone`: the returned payload's thunk hands
/// out one fresh duplicate of `obj` per invocation, boxed as `dyn Any`.
#[verifier::external_body]
fn cloneable_into_stubby_function<T: Clone + Send + Sync + 'static>(obj: T) -> StubbyFunction {
    StubbyFunction { thunk: Box::new(move || Box::new(obj.clone())) }
}

/// Relies on `Box::new`: the returned payload's thunk invokes `producer`
/// afresh on each invocation, boxing whatever value it returns as `dyn Any`.
#[verifier::external_body]
fn producer_into_stubby_function<T: 'static, F: Fn() -> T + Send + Sync + 'static>(
    producer: F,
) -> StubbyFunction {
    StubbyFunction { thunk: Box::new(move || Box::new(producer())) }
}

/// Relies on `Box::<dyn Any>::downcast`: invokes the payload's thunk and
/// recovers the produced value as `T`. A stored type other than `T` is a
/// programming error: the call then aborts, carrying `name` in its message,
/// and does not return.
#[verifier::external_body]
fn produce_stub<T: 'static>(stubby_fn: &StubbyFunction, name: &str) -> T {
    match (stubby_fn.thunk)().downcast::<T>() {
        Ok(value) => *value,
        Err(_) => {
            let message = format!("incorrect type supplied for {}", name);
            Option::<T>::None.expect(&message)
        },
    }
}

/// Whether some entry of `s` carries the name text `k`.
spec fn has_name(s: Seq<(StubbyName, StubbyFunction)>, k: Seq<char>) -> bool {
    exists|i: int| 0 <= i < s.len() && s[i].0@ == k
}

/// The index of the entry of `s` carrying the name text `k`.
spec fn index_of_name(s: Seq<(StubbyName, StubbyFunction)>, k: Seq<char>) -> int {
    choose|i: int| 0 <= i < s.len() && s[i].0@ == k
}

/// The mapping that a sequence of entries represents.
spec fn entries_map(s: Seq<(StubbyName, StubbyFunction)>) -> Map<Seq<char>, StubbyFunction> {
    Map::new(|k: Seq<char>| has_name(s, k), |k: Seq<char>| s[index_of_name(s, k)].1)
}

/// No two entries carry the same name text.
spec fn distinct_names(s: Seq<(StubbyName, StubbyFunction)>) -> bool {
    forall|i: int, j: int|
        #![trigger s[i].0, s[j].0]
        0 <= i < j < s.len() ==> s[i].0@ != s[j].0@
}

proof fn lemma_entry_value(s: Seq<(StubbyName, StubbyFunction)>, i: int)
    requires
        distinct_names(s),
        0 <= i < s.len(),
    ensures
        entries_map(s).contains_key(s[i].0@),
        entries_map(s)[s[i].0@] == s[i].1,
{
    assert(has_name(s, s[i].0@));
    let j = index_of_name(s, s[i].0@);
    assert(0 <= j < s.len() && s[j].0@ == s[i].0@);
    if i < j {
        assert(s[i].0@ != s[j].0@);
    } else if j < i {
        assert(s[j].0@ != s[i].0@);
    }
}

proof fn lemma_remove_entry(s: Seq<(StubbyName, StubbyFunction)>, i: int)
    requires
        distinct_names(s),
        0 <= i < s.len(),
    ensures
        distinct_names(s.remove(i)),
        !has_name(s.remove(i), s[i].0@),
        forall|k: Seq<char>| k != s[i].0@ ==> has_name(s.remove(i), k) == has_name(s, k),
        forall|k: Seq<char>|
            k != s[i].0@ && has_name(s, k) ==> entries_map(s.remove(i))[k] == entries_map(s)[k],
{
    let t = s.remove(i);
    s.remove_ensures(i);
    assert forall|p: int, q: int| 0 <= p < q < t.len() implies t[p].0@ != t[q].0@ by {
        let p2: int = if p < i { p } else { p + 1 };
        let q2: int = if q < i { q } else { q + 1 };
        assert(t[p] == s[p2] && t[q] == s[q2]);
    }
    assert forall|j: int| 0 <= j < t.len() implies t[j].0@ != s[i].0@ by {
        if j < i {
            assert(t[j] == s[j]);
        } else {
            assert(t[j] == s[j + 1]);
        }
    }
    assert forall|k: Seq<char>| k != s[i].0@ implies has_name(t, k) == has_name(s, k) by {
        if has_name(t, k) {
            let j = choose|j: int| 0 <= j < t.len() && t[j].0@ == k;
            let j2: int = if j < i { j } else { j + 1 };
            assert(s[j2].0@ == k);
        }
        if has_name(s, k) {
            let j = choose|j: int| 0 <= j < s.len() && s[j].0@ == k;
            let j2: int = if j < i { j } else { j - 1 };
            assert(t[j2].0@ == k);
        }
    }
    assert forall|k: Seq<char>| k != s[i].0@ && has_name(s, k) implies entries_map(t)[k]
        == entries_map(s)[k] by {
        let j = index_of_name(t, k);
        assert(0 <= j < t.len() && t[j].0@ == k);
        lemma_entry_value(t, j);
        let j2: int = if j < i { j } else { j + 1 };
        assert(t[j] == s[j2]);
        lemma_entry_value(s, j2);
    }
}

proof fn lemma_push_entry(s: Seq<(StubbyName, StubbyFunction)>, e: (StubbyName, StubbyFunction))
    requires
        distinct_names(s),
        !has_name(s, e.0@),
    ensures
        distinct_names(s.push(e)),
        entries_map(s.push(e)) == entries_map(s).insert(e.0@, e.1),
{
    let t = s.push(e);
    assert forall|p: int, q: int| 0 <= p < q < t.len() implies t[p].0@ != t[q].0@ by {
        if q < s.len() {
            assert(t[p] == s[p] && t[q] == s[q]);
        } else {
            assert(t[p] == s[p] && t[q] == e);
        }
    }
    assert(entries_map(t) =~= entries_map(s).insert(e.0@, e.1)) by {
        assert forall|k: Seq<char>| has_name(t, k) == (k == e.0@ || has_name(s, k)) by {
            if has_name(t, k) {
                let j = choose|j: int| 0 <= j < t.len() && t[j].0@ == k;
                if j < s.len() {
                    assert(s[j].0@ == k);
                }
            }
            if has_name(s, k) {
                let j = choose|j: int| 0 <= j < s.len() && s[j].0@ == k;
                assert(t[j].0@ == k);
            }
            assert(t[s.len() as int].0@ == e.0@);
        }
        lemma_entry_value(t, s.len() as int);
        assert forall|k: Seq<char>| k != e.0@ && has_name(s, k) implies entries_map(t)[k]
            == entries_map(s)[k] by {
            let j = index_of_name(s, k);
            assert(0 <= j < s.len() && s[j].0@ == k);
            lemma_entry_value(s, j);
            assert(t[j] == s[j]);
            lemma_entry_value(t, j);
        }
    }
}

/// Stores stub information: the per-test registry from resolved name to
/// payload. Initialise with [`StubbyState::new`] or `StubbyState::default`.
///
/// The registry is deliberately invisible to the derived comparison
/// semantics of any structure embedding it: equality is constant, ordering
/// compares as equal, and duplication yields a fresh empty registry, so
/// stubs never travel with duplicated production-shaped values.
pub struct StubbyState {
    entries: Vec<(StubbyName, StubbyFunction)>,
}

impl View for StubbyState {
    type V = Map<Seq<char>, StubbyFunction>;

    closed spec fn view(&self) -> Map<Seq<char>, StubbyFunction> {
        entries_map(self.entries@)
    }
}

impl StubbyState {
    #[verifier::type_invariant]
    spec fn wf(self) -> bool {
        distinct_names(self.entries@)
    }

    /// Creates a new, empty registry.
    pub fn new() -> (r: StubbyState)
        ensures
            r@ == Map::<Seq<char>, StubbyFunction>::empty(),
    {
        let r = StubbyState { entries: Vec::new() };
        proof {
            assert(r@ =~= Map::<Seq<char>, StubbyFunction>::empty());
        }
        r
    }

    /// The index of the entry for `name`, if one exists.
    fn find_name(entries: &Vec<(StubbyName, StubbyFunction)>, name: &StubbyName) -> (r: Option<
        usize,
    >)
        ensures
            match r {
                Some(i) => i < entries@.len() && entries@[i as int].0@ == name@,
                None => !has_name(entries@, name@),
            },
    {
        let mut i: usize = 0;
        while i < entries.len()
            invariant
                i <= entries@.len(),
                forall|j: int| 0 <= j < i ==> entries@[j].0@ != name@,
            decreases entries@.len() - i,
        {
            if entries[i].0.is_same(name) {
                return Some(i);
            }
            i = i + 1;
        }
        None
    }

    /// Replaces whatever entry exists for `name` with the given payload.
    fn insert_function(&mut self, name: StubbyName, stubby_fn: StubbyFunction)
        ensures
            final(self)@ == old(self)@.insert(name@, stubby_fn),
    {
        proof {
            use_type_invariant(&*self);
        }
        let ghost m0 = self@;
        let mut entries: Vec<(StubbyName, StubbyFunction)> = Vec::new();
        core::mem::swap(&mut entries, &mut self.entries);
        match Self::find_name(&entries, &name) {
            Some(i) => {
                proof {
                    lemma_remove_entry(entries@, i as int);
                }
                entries.remove(i);
            },
            None => {},
        }
        proof {
            assert(!has_name(entries@, name@));
            lemma_push_entry(entries@, (name, stubby_fn));
        }
        entries.push((name, stubby_fn));
        self.entries = entries;
        proof {
            assert(self@ =~= m0.insert(name@, stubby_fn));
        }
    }

    /// Adds a stub for `name`, answered with a fresh duplicate of `obj` on
    /// each retrieval. Repeated insertions under one name overwrite, with no
    /// merge: afterwards `name` maps to the new payload and every other name
    /// to what it mapped to before.
    ///
    /// Nothing relates `obj`'s type to any earlier entry or to the stubbed
    /// method's real return type; a mismatch surfaces at retrieval time, not
    /// here. For payload types that cannot be duplicated, or are not
    /// cross-thread-safe, use [`StubbyState::insert_with`].
    pub fn insert<T: Clone + Send + Sync + 'static>(&mut self, name: StubbyName, obj: T)
        ensures
            final(self)@.contains_key(name@),
            final(self)@.dom() == old(self)@.dom().insert(name@),
            forall|k: Seq<char>|
                old(self)@.contains_key(k) && k != name@ ==> final(self)@[k] == old(self)@[k],
    {
        let stubby_fn = cloneable_into_stubby_function(obj);
        self.insert_function(name, stubby_fn);
    }

    /// Adds a stub for `name`, answered by invoking `producer` afresh on
    /// each retrieval. Overwrite semantics are the same as for
    /// [`StubbyState::insert`].
    pub fn insert_with<T: 'static, F: Fn() -> T + Send + Sync + 'static>(
        &mut self,
        name: StubbyName,
        producer: F,
    )
        ensures
            final(self)@.contains_key(name@),
            final(self)@.dom() == old(self)@.dom().insert(name@),
            forall|k: Seq<char>|
                old(self)@.contains_key(k) && k != name@ ==> final(self)@[k] == old(self)@[k],
    {
        let stubby_fn = producer_into_stubby_function(producer);
        self.insert_function(name, stubby_fn);
    }

    /// Fetches the value stored for `name`, manufacturing it from the stored
    /// payload: a duplicate of a stored value, or a fresh product of a
    /// stored producer. Returns `None` when no entry for `name` exists.
    ///
    /// A present entry whose stored type is not `T` is a fatal programming
    /// error — the stub's registered type disagrees with the stubbed
    /// method's real return type — and the retrieval aborts rather than
    /// reporting a recoverable miss.
    pub fn get<T: 'static>(&self, name: StubbyName) -> (r: Option<T>)
        ensures
            r is Some <==> self@.contains_key(name@),
    {
        proof {
            use_type_invariant(&*self);
        }
        match Self::find_name(&self.entries, &name) {
            Some(i) => {
                proof {
                    assert(has_name(self.entries@, name@));
                }
                let entry = &self.entries[i];
                Some(produce_stub::<T>(&entry.1, name.as_str()))
            },
            None => None,
        }
    }
}

impl Clone for StubbyState {
    /// Duplicating a registry deliberately yields a fresh, empty registry,
    /// never a copy of the entries: stubs are call-site- and test-local, and
    /// must not leak into duplicated production-shaped values.
    fn clone(&self) -> (r: Self)
        ensures
            r@ == Map::<Seq<char>, StubbyFunction>::empty(),
    {
        StubbyState::new()
    }
}

impl Default for StubbyState {
    /// Creates a new, empty registry.
    fn default() -> (r: Self)
        ensures
            r@ == Map::<Seq<char>, StubbyFunction>::empty(),
    {
        StubbyState::new()
    }
}

impl PartialEq for StubbyState {
    /// Always returns `true`: a registry is deliberately invisible to the
    /// structural equality of whatever embeds it.
    fn eq(&self, _other: &StubbyState) -> (r: bool)
        ensures
            r,
    {
        true
    }
}

impl vstd::std_specs::cmp::PartialEqSpecImpl for StubbyState {
    open spec fn obeys_eq_spec() -> bool {
        true
    }

    open spec fn eq_spec(&self, _other: &StubbyState) -> bool {
        true
    }
}

impl Eq for StubbyState {}

impl PartialOrd for StubbyState {
    /// Always `Some(Ordering::Equal)`: a registry is deliberately invisible
    /// to the ordering of whatever embeds it.
    fn partial_cmp(&self, _other: &StubbyState) -> (r: Option<Ordering>)
        ensures
            r == Some(Ordering::Equal),
    {
        Some(Ordering::Equal)
    }
}

impl vstd::std_specs::cmp::PartialOrdSpecImpl for StubbyState {
    open spec fn obeys_partial_cmp_spec() -> bool {
        true
    }

    open spec fn partial_cmp_spec(&self, _other: &StubbyState) -> Option<Ordering> {
        Some(Ordering::Equal)
    }
}

} // verus!
