//! The lifecycle of a namespace: a table of names that is built up, frozen
//! exactly once, and read ever after.

use crate::entries::{distinct_keys, has_key, is_first_index, lookup, put, put_all};
use crate::entries::{lemma_first_index, lemma_put, position_of};
use crate::error::{BridgeError, ErrorView};
use crate::value::{HostCallableRef, Value, ValueView};
use vstd::prelude::*;

verus! {

/// The table that the entries stand for.
pub open spec fn table_view(entries: Seq<(String, Value)>) -> Seq<(Seq<char>, ValueView)> {
    Seq::new(entries.len(), |i: int| (entries[i].0@, entries[i].1@))
}

/// The view of a value that was looked up.
pub open spec fn found_view(found: Option<&Value>) -> Option<ValueView> {
    match found {
        Some(v) => Some(v@),
        None => None,
    }
}

/// The place of the entry with the name.
fn find_name(entries: &Vec<(String, Value)>, name: &String) -> (r: Option<usize>)
    ensures
        match r {
            Some(i) => is_first_index(table_view(entries@), name@, i as int),
            None => !has_key(table_view(entries@), name@),
        },
{
    let r = position_of(entries, name);
    proof {
        let table = table_view(entries@);
        assert forall|j: int| 0 <= j < table.len() implies (#[trigger] table[j]).0 == entries[j].0@ by {}
    }
    r
}

fn find_value<'a>(entries: &'a Vec<(String, Value)>, name: &str) -> (r: Option<&'a Value>)
    ensures
        found_view(r) == lookup(table_view(entries@), name@),
{
    let key = name.to_owned();
    match find_name(entries, &key) {
        Some(i) => {
            proof {
                lemma_first_index(table_view(entries@), name@, i as int);
            }
            Some(&entries[i].1)
        },
        None => None,
    }
}

/// A namespace that is being built: the only state in which names can be
/// set. Whoever holds it exclusively is the one who may change it.
#[derive(Debug)]
pub struct Namespace {
    entries: Vec<(String, Value)>,
}

/// A namespace that was frozen: it never changes again, and can be shared
/// and read without further care.
#[derive(Debug, PartialEq)]
pub struct FrozenNamespace {
    entries: Vec<(String, Value)>,
}

impl View for Namespace {
    type V = Seq<(Seq<char>, ValueView)>;

    /// The names with their values, in the order in which the names were
    /// first set.
    closed spec fn view(&self) -> Seq<(Seq<char>, ValueView)> {
        table_view(self.entries@)
    }
}

impl View for FrozenNamespace {
    type V = Seq<(Seq<char>, ValueView)>;

    closed spec fn view(&self) -> Seq<(Seq<char>, ValueView)> {
        table_view(self.entries@)
    }
}

impl Namespace {
    /// No name is bound twice.
    #[verifier::type_invariant]
    pub closed spec fn wf(self) -> bool {
        distinct_keys(table_view(self.entries@))
    }

    /// A namespace with no names, ready to be built.
    pub fn new() -> (r: Namespace)
        ensures
            r@ == Seq::<(Seq<char>, ValueView)>::empty(),
            r.wf(),
    {
        let r = Namespace { entries: Vec::new() };
        assert(r@ =~= Seq::<(Seq<char>, ValueView)>::empty());
        r
    }

    /// The value that the name is bound to, if it is bound.
    pub fn get(&self, name: &str) -> (r: Option<&Value>)
        ensures
            found_view(r) == lookup(self@, name@),
    {
        find_value(&self.entries, name)
    }

    /// Binds the name to the value. A name that is bound already takes the
    /// new value; every other name stays as it is.
    pub fn set(&mut self, name: &str, value: Value) -> (r: Result<(), BridgeError>)
        ensures
            r is Ok,
            final(self)@ == put(old(self)@, name@, value@),
            final(self).wf(),
    {
        proof {
            use_type_invariant(&*self);
            lemma_put(self@, name@, value@);
        }
        let key = name.to_owned();
        let ghost before = self@;
        let mut entries: Vec<(String, Value)> = Vec::new();
        std::mem::swap(&mut self.entries, &mut entries);
        match find_name(&entries, &key) {
            Some(i) => {
                proof {
                    lemma_first_index(before, name@, i as int);
                }
                entries.set(i, (key, value));
                assert(table_view(entries@) =~= before.update(i as int, (name@, value@)));
            },
            None => {
                entries.push((key, value));
                assert(table_view(entries@) =~= before.push((name@, value@)));
            },
        }
        self.entries = entries;
        Ok(())
    }

    /// Binds the name to a function of the host, so that the embedded
    /// language can call it.
    pub fn add_callable(&mut self, name: &str, callable: HostCallableRef)
        ensures
            final(self)@ == put(old(self)@, name@, ValueView::Callable(callable.handle)),
            final(self).wf(),
    {
        let _ = self.set(name, Value::Callable(callable));
    }

    /// Takes up the bindings that an evaluation left behind, in their
    /// order: each is set as `set` would set it.
    pub fn absorb(&mut self, bindings: Vec<(String, Value)>)
        ensures
            final(self)@ == put_all(old(self)@, table_view(bindings@)),
            final(self).wf(),
    {
        let ghost all = table_view(bindings@);
        let mut rest = bindings;
        let mut done: usize = 0;
        let total = rest.len();
        proof {
            use_type_invariant(&*self);
            assert(all.take(0) =~= Seq::<(Seq<char>, ValueView)>::empty());
            assert(all.skip(0) =~= all);
        }
        while rest.len() > 0
            invariant
                done + rest.len() == total,
                total == all.len(),
                table_view(rest@) == all.skip(done as int),
                self@ == put_all(old(self)@, all.take(done as int)),
                self.wf(),
            decreases rest.len(),
        {
            let ghost waiting = rest@;
            let (name, value) = rest.remove(0);
            proof {
                assert(table_view(waiting)[0] == (name@, value@));
                assert(all.skip(done as int)[0] == all[done as int]);
                assert(all.take(done + 1).drop_last() =~= all.take(done as int));
                assert(all.take(done + 1).last() == all[done as int]);
                assert forall|j: int| 0 <= j < rest@.len() implies table_view(rest@)[j] == all.skip(
                    done + 1,
                )[j] by {
                    assert(rest@[j] == waiting[j + 1]);
                    assert(table_view(waiting)[j + 1] == all.skip(done as int)[j + 1]);
                }
                assert(table_view(rest@) =~= all.skip(done + 1));
            }
            let _ = self.set(name.as_str(), value);
            done += 1;
        }
        assert(all.take(done as int) =~= all);
    }

    /// Freezes what was built. The frozen namespace takes the names with
    /// their values, and this namespace is empty again and can be built
    /// anew: nothing that happens to it later reaches the frozen one.
    pub fn freeze(&mut self) -> (r: FrozenNamespace)
        ensures
            r@ == old(self)@,
            r.wf(),
            final(self)@ == Seq::<(Seq<char>, ValueView)>::empty(),
            final(self).wf(),
    {
        proof {
            use_type_invariant(&*self);
        }
        let mut taken: Vec<(String, Value)> = Vec::new();
        std::mem::swap(&mut self.entries, &mut taken);
        assert(self@ =~= Seq::<(Seq<char>, ValueView)>::empty());
        FrozenNamespace { entries: taken }
    }

    /// The number of names.
    pub fn len(&self) -> (r: usize)
        ensures
            r == self@.len(),
    {
        self.entries.len()
    }

    /// The name at a place.
    pub fn name_at(&self, i: usize) -> (r: &String)
        requires
            i < self@.len(),
        ensures
            r@ == self@[i as int].0,
    {
        &self.entries[i].0
    }

    /// The value at a place.
    pub fn value_at(&self, i: usize) -> (r: &Value)
        requires
            i < self@.len(),
        ensures
            r@ == self@[i as int].1,
    {
        &self.entries[i].1
    }
}

impl FrozenNamespace {
    /// No name is bound twice.
    #[verifier::type_invariant]
    pub closed spec fn wf(self) -> bool {
        distinct_keys(table_view(self.entries@))
    }

    /// The value that the name is bound to, if it is bound.
    pub fn get(&self, name: &str) -> (r: Option<&Value>)
        ensures
            found_view(r) == lookup(self@, name@),
    {
        find_value(&self.entries, name)
    }

    /// A frozen namespace takes no binding: the request fails and nothing
    /// changes.
    pub fn set(&self, name: &str, value: Value) -> (r: Result<(), BridgeError>)
        ensures
            r matches Err(e) && e@ == ErrorView::FrozenViolation,
    {
        Err(BridgeError::FrozenViolation)
    }

    /// The number of names.
    pub fn len(&self) -> (r: usize)
        ensures
            r == self@.len(),
    {
        self.entries.len()
    }

    /// The name at a place.
    pub fn name_at(&self, i: usize) -> (r: &String)
        requires
            i < self@.len(),
        ensures
            r@ == self@[i as int].0,
    {
        &self.entries[i].0
    }

    /// The value at a place.
    pub fn value_at(&self, i: usize) -> (r: &Value)
        requires
            i < self@.len(),
        ensures
            r@ == self@[i as int].1,
    {
        &self.entries[i].1
    }
}

/// Freezing isolates: the namespace that a freeze leaves behind is empty,
/// so a name that is set in it afterwards is found there with its value,
/// and no other name is; the frozen namespace is a value of its own, which
/// no later binding reaches.
pub proof fn lemma_freeze_isolates(name: Seq<char>, value: ValueView)
    ensures
        lookup(put(Seq::<(Seq<char>, ValueView)>::empty(), name, value), name) == Some(value),
        forall|other: Seq<char>|
            other != name ==> lookup(
                put(Seq::<(Seq<char>, ValueView)>::empty(), name, value),
                other,
            ) is None,
{
    let fresh = Seq::<(Seq<char>, ValueView)>::empty();
    lemma_put(fresh, name, value);
    assert forall|other: Seq<char>| other != name implies lookup(put(fresh, name, value), other) is None by {
        assert(!has_key(fresh, other));
    }
}

} // verus!
