//! The callable bridge: how a call of a host function from the embedded
//! language goes out to the host and comes back.
//!
//! The call itself is the host's. The bridge prepares what is handed to it
//! and takes up what it hands back.

use crate::codec::{canonical_entries, canonical_items, encode, encoded_items, gathered};
use crate::codec::{from_canonical, items_to_canonical, to_canonical, decode, find_key};
use crate::codec::{lemma_gathered_err, lemma_gathered_ok, CanonicalValue, CanonicalView};
use crate::entries::{collected, lemma_first_index};
use crate::error::{BridgeError, ErrorView};
use crate::namespace::table_view;
use crate::value::{outcome_view, view_items, HostCallableRef, Value, ValueView};
use vstd::prelude::*;

verus! {

/// A call that is ready for the host: the function, its positional
/// arguments as an ordered tuple, and its named arguments as a mapping with
/// string keys.
#[derive(Debug, PartialEq)]
pub struct HostCall {
    pub callable: HostCallableRef,
    pub args: Vec<CanonicalValue>,
    pub kwargs: Vec<(String, CanonicalValue)>,
}

/// What a `HostCall` holds.
pub struct HostCallView {
    pub handle: u64,
    pub args: Seq<CanonicalView>,
    pub kwargs: Seq<(Seq<char>, CanonicalView)>,
}

impl View for HostCall {
    type V = HostCallView;

    open spec fn view(&self) -> HostCallView {
        HostCallView {
            handle: self.callable.handle,
            args: canonical_items(self.args@),
            kwargs: canonical_entries(self.kwargs@),
        }
    }
}

/// The outcome of converting each named argument.
pub open spec fn encoded_named(named: Seq<(Seq<char>, ValueView)>) -> Seq<
    Result<(Seq<char>, CanonicalView), ErrorView>,
> {
    Seq::new(
        named.len(),
        |i: int|
            match encode(named[i].1) {
                Ok(c) => Ok((named[i].0, c)),
                Err(e) => Err(e),
            },
    )
}

/// The call that the arguments make: every positional argument converted,
/// in order, then every named one. The first argument without a canonical
/// form fails the call before the host sees it.
pub open spec fn prepared(
    handle: u64,
    positional: Seq<ValueView>,
    named: Seq<(Seq<char>, ValueView)>,
) -> Result<HostCallView, ErrorView> {
    match gathered(encoded_items(positional)) {
        Ok(args) => match gathered(encoded_named(named)) {
            Ok(pairs) => Ok(HostCallView { handle, args, kwargs: collected(pairs) }),
            Err(e) => Err(e),
        },
        Err(e) => Err(e),
    }
}

/// What comes back from the host: its result converted into a value of the
/// embedded language, or its exception with the message it carried.
pub open spec fn completed(returned: Result<CanonicalView, Seq<char>>) -> Result<
    ValueView,
    ErrorView,
> {
    match returned {
        Ok(c) => decode(c),
        Err(message) => Err(ErrorView::Host { message }),
    }
}

/// The view of what the host handed back.
pub open spec fn returned_view(returned: Result<CanonicalValue, String>) -> Result<
    CanonicalView,
    Seq<char>,
> {
    match returned {
        Ok(c) => Ok(c@),
        Err(message) => Err(message@),
    }
}

impl HostCallableRef {
    /// Prepares the call of this function with the arguments of the
    /// embedded language.
    pub fn prepare_call(&self, positional: &Vec<Value>, named: &Vec<(String, Value)>) -> (r: Result<
        HostCall,
        BridgeError,
    >)
        ensures
            match r {
                Ok(call) => prepared(self.handle, view_items(positional@), table_view(named@))
                    == Ok::<HostCallView, ErrorView>(call@),
                Err(e) => prepared(self.handle, view_items(positional@), table_view(named@))
                    == Err::<HostCallView, ErrorView>(e@),
            },
    {
        let args = match items_to_canonical(positional) {
            Ok(args) => args,
            Err(e) => {
                return Err(e);
            },
        };
        let ghost results = encoded_named(table_view(named@));
        let ghost mut pairs: Seq<(Seq<char>, CanonicalView)> = Seq::empty();
        let mut kwargs: Vec<(String, CanonicalValue)> = Vec::new();
        let mut i: usize = 0;
        while i < named.len()
            invariant
                i <= named.len(),
                pairs.len() == i,
                results == encoded_named(table_view(named@)),
                forall|j: int| 0 <= j < i ==> (#[trigger] results[j]) == Ok::<(Seq<char>, CanonicalView), ErrorView>(pairs[j]),
                canonical_entries(kwargs@) == collected(pairs),
                gathered(encoded_items(view_items(positional@))) == Ok::<Seq<CanonicalView>, ErrorView>(
                    canonical_items(args@),
                ),
            decreases named.len() - i,
        {
            let value = match to_canonical(&named[i].1) {
                Ok(c) => c,
                Err(e) => {
                    proof {
                        assert(results[i as int] == Err::<(Seq<char>, CanonicalView), ErrorView>(e@));
                        lemma_gathered_err(results, i as int);
                    }
                    return Err(e);
                },
            };
            let key: String = named[i].0.clone();
            let ghost before = canonical_entries(kwargs@);
            let ghost pair = (key@, value@);
            proof {
                assert(results[i as int] == Ok::<(Seq<char>, CanonicalView), ErrorView>(pair));
                assert(pairs.push(pair).drop_last() =~= pairs);
            }
            match find_key(&kwargs, &key) {
                Some(j) => {
                    proof {
                        lemma_first_index(before, pair.0, j as int);
                    }
                    kwargs.set(j, (key, value));
                    assert(canonical_entries(kwargs@) =~= before.update(j as int, pair));
                },
                None => {
                    kwargs.push((key, value));
                    assert(canonical_entries(kwargs@) =~= before.push(pair));
                },
            }
            proof {
                pairs = pairs.push(pair);
            }
            i += 1;
        }
        proof {
            lemma_gathered_ok(results, pairs);
        }
        Ok(HostCall { callable: *self, args, kwargs })
    }

    /// Takes up what the host handed back from a call.
    pub fn complete_call(returned: Result<CanonicalValue, String>) -> (r: Result<Value, BridgeError>)
        ensures
            outcome_view(r) == completed(returned_view(returned)),
    {
        match returned {
            Ok(c) => from_canonical(&c),
            Err(message) => Err(BridgeError::Host { message }),
        }
    }
}

} // verus!
