//! The canonical value codec: values of the embedded language to and from a
//! language-neutral form that the host can take apart.

use crate::entries::{collected, distinct_keys, first_index, has_key, is_first_index, put};
use crate::entries::{lemma_collected_distinct, lemma_collected_keys};
use crate::entries::{lemma_first_index, lemma_has_first_index, position_of};
use crate::error::{BridgeError, ErrorView};
use crate::text::{int_text, int_to_text};
use crate::value::{kind_name, outcome_view, view_entries, view_items, Value, ValueView};
use vstd::prelude::*;

verus! {

/// A value in the canonical form.
#[derive(Debug, PartialEq)]
pub enum CanonicalValue {
    Null,
    Bool(bool),
    Int(i128),
    /// A double, held as its IEEE-754 bit pattern.
    Float(u64),
    Str(String),
    Sequence(Vec<CanonicalValue>),
    /// The entries in insertion order.
    Mapping(Vec<(String, CanonicalValue)>),
}

/// What a `CanonicalValue` holds.
pub enum CanonicalView {
    Null,
    Bool(bool),
    Int(int),
    Float(u64),
    Str(Seq<char>),
    Sequence(Seq<CanonicalView>),
    Mapping(Seq<(Seq<char>, CanonicalView)>),
}

impl View for CanonicalValue {
    type V = CanonicalView;

    open spec fn view(&self) -> CanonicalView
        decreases self,
    {
        match self {
            CanonicalValue::Null => CanonicalView::Null,
            CanonicalValue::Bool(b) => CanonicalView::Bool(*b),
            CanonicalValue::Int(n) => CanonicalView::Int(*n as int),
            CanonicalValue::Float(bits) => CanonicalView::Float(*bits),
            CanonicalValue::Str(s) => CanonicalView::Str(s@),
            CanonicalValue::Sequence(items) => CanonicalView::Sequence(canonical_items(items@)),
            CanonicalValue::Mapping(entries) => CanonicalView::Mapping(
                canonical_entries(entries@),
            ),
        }
    }
}

/// The views of `items`, in order.
pub open spec fn canonical_items(items: Seq<CanonicalValue>) -> Seq<CanonicalView>
    decreases items,
{
    Seq::new(
        items.len(),
        |i: int|
            if 0 <= i < items.len() {
                items[i]@
            } else {
                CanonicalView::Null
            },
    )
}

/// The views of `entries`, in order.
pub open spec fn canonical_entries(entries: Seq<(String, CanonicalValue)>) -> Seq<
    (Seq<char>, CanonicalView),
>
    decreases entries,
{
    Seq::new(
        entries.len(),
        |i: int|
            if 0 <= i < entries.len() {
                (entries[i].0@, entries[i].1@)
            } else {
                (Seq::empty(), CanonicalView::Null)
            },
    )
}

/// The view of an outcome that is a canonical value or an error.
pub open spec fn canonical_outcome_view(r: Result<CanonicalValue, BridgeError>) -> Result<
    CanonicalView,
    ErrorView,
> {
    match r {
        Ok(c) => Ok(c@),
        Err(e) => Err(e@),
    }
}

/// Whether `i` is the place of the first failure among the outcomes.
pub open spec fn is_first_failure<B>(results: Seq<Result<B, ErrorView>>, i: int) -> bool {
    &&& 0 <= i < results.len()
    &&& results[i] is Err
    &&& forall|j: int| 0 <= j < i ==> (#[trigger] results[j]) is Ok
}

/// The outcomes of converting the items of a container one by one, taken
/// together: all the results in order, or the first failure.
pub open spec fn gathered<B>(results: Seq<Result<B, ErrorView>>) -> Result<Seq<B>, ErrorView> {
    if forall|i: int| 0 <= i < results.len() ==> (#[trigger] results[i]) is Ok {
        Ok(Seq::new(results.len(), |i: int| results[i]->Ok_0))
    } else {
        Err(results[choose|i: int| is_first_failure(results, i)]->Err_0)
    }
}

/// Outcomes that all succeeded gather to their results.
pub proof fn lemma_gathered_ok<B>(results: Seq<Result<B, ErrorView>>, values: Seq<B>)
    requires
        values.len() == results.len(),
        forall|i: int| 0 <= i < results.len() ==> (#[trigger] results[i]) == Ok::<B, ErrorView>(values[i]),
    ensures
        gathered(results) == Ok::<Seq<B>, ErrorView>(values),
{
    assert(Seq::new(results.len(), |i: int| results[i]->Ok_0) =~= values);
}

/// Outcomes gather to their first failure.
pub proof fn lemma_gathered_err<B>(results: Seq<Result<B, ErrorView>>, i: int)
    requires
        is_first_failure(results, i),
    ensures
        gathered(results) == Err::<Seq<B>, ErrorView>(results[i]->Err_0),
{
    let k = choose|k: int| is_first_failure(results, k);
    assert(is_first_failure(results, k));
    if k < i {
        assert(results[k] is Ok);
    }
    if i < k {
        assert(results[i] is Ok);
    }
}

/// What `serde_json` makes of the integer `n` taken as a double: the bit
/// pattern of the double, or `None` where it has none for it.
pub uninterp spec fn integer_as_float(n: int) -> Option<u64>;

/// `Number::as_f64` of `serde_json`, on the number that `Number::from`
/// makes of `n`. Claims that the outcome is `integer_as_float` of `n`, the
/// double taken by its bit pattern.
#[verifier::external_body]
fn number_as_float(n: i64) -> (r: Option<u64>)
    ensures
        r == integer_as_float(n as int),
{
    match serde_json::Number::from(n).as_f64() {
        Some(x) => Some(x.to_bits()),
        None => None,
    }
}

/// The error of an integer that the canonical form does not carry.
pub open spec fn number_error(n: int) -> ErrorView {
    ErrorView::UnrepresentableNumber { text: int_text(n) }
}

/// What a canonical integer becomes: an integer where 64 unsigned bits hold
/// it, a double where it is a negative number of 64 bits, and an error
/// beyond that.
pub open spec fn decode_int(n: int) -> Result<ValueView, ErrorView> {
    if 0 <= n <= u64::MAX {
        Ok(ValueView::Int(n))
    } else if i64::MIN <= n < 0 {
        match integer_as_float(n) {
            Some(bits) => Ok(ValueView::Float(bits)),
            None => Err(number_error(n)),
        }
    } else {
        Err(number_error(n))
    }
}

/// What a canonical value becomes in the embedded language. Containers
/// convert item by item, in order; a mapping becomes a dictionary with
/// string keys, in which a key that comes again takes the later value at
/// the earlier place.
pub open spec fn decode(c: CanonicalView) -> Result<ValueView, ErrorView>
    decreases c,
{
    match c {
        CanonicalView::Null => Ok(ValueView::NoneValue),
        CanonicalView::Bool(b) => Ok(ValueView::Bool(b)),
        CanonicalView::Int(n) => decode_int(n),
        CanonicalView::Float(bits) => Ok(ValueView::Float(bits)),
        CanonicalView::Str(s) => Ok(ValueView::Str(s)),
        CanonicalView::Sequence(items) => match gathered(decoded_items(items)) {
            Ok(values) => Ok(ValueView::List(values)),
            Err(e) => Err(e),
        },
        CanonicalView::Mapping(entries) => match gathered(decoded_entries(entries)) {
            Ok(pairs) => Ok(ValueView::Dict(collected(pairs))),
            Err(e) => Err(e),
        },
    }
}

/// The outcome of decoding each item.
pub open spec fn decoded_items(items: Seq<CanonicalView>) -> Seq<Result<ValueView, ErrorView>>
    decreases items,
{
    Seq::new(
        items.len(),
        |i: int|
            if 0 <= i < items.len() {
                decode(items[i])
            } else {
                Ok(ValueView::NoneValue)
            },
    )
}

/// The outcome of decoding each entry: the key as a string of the embedded
/// language, with the decoded value.
pub open spec fn decoded_entries(entries: Seq<(Seq<char>, CanonicalView)>) -> Seq<
    Result<(ValueView, ValueView), ErrorView>,
>
    decreases entries,
{
    Seq::new(
        entries.len(),
        |i: int|
            if 0 <= i < entries.len() {
                match decode(entries[i].1) {
                    Ok(v) => Ok((ValueView::Str(entries[i].0), v)),
                    Err(e) => Err(e),
                }
            } else {
                Ok((ValueView::NoneValue, ValueView::NoneValue))
            },
    )
}

/// The place of the first entry whose key is the string `key`.
fn find_str_key(entries: &Vec<(Value, Value)>, key: &String) -> (r: Option<usize>)
    ensures
        match r {
            Some(i) => is_first_index(view_entries(entries@), ValueView::Str(key@), i as int),
            None => !has_key(view_entries(entries@), ValueView::Str(key@)),
        },
{
    let mut i: usize = 0;
    while i < entries.len()
        invariant
            i <= entries.len(),
            forall|j: int| 0 <= j < i ==> (#[trigger] view_entries(entries@)[j]).0 != ValueView::Str(key@),
        decreases entries.len() - i,
    {
        let found = match &entries[i].0 {
            Value::Str(s) => *s == *key,
            _ => false,
        };
        if found {
            return Some(i);
        }
        i += 1;
    }
    None
}

fn decode_int_value(n: i128) -> (r: Result<Value, BridgeError>)
    ensures
        outcome_view(r) == decode_int(n as int),
{
    if 0 <= n && n <= 0xffff_ffff_ffff_ffff {
        Ok(Value::Int(n))
    } else if -0x8000_0000_0000_0000 <= n && n < 0 {
        match number_as_float(n as i64) {
            Some(bits) => Ok(Value::Float(bits)),
            None => Err(BridgeError::UnrepresentableNumber { text: int_to_text(n) }),
        }
    } else {
        Err(BridgeError::UnrepresentableNumber { text: int_to_text(n) })
    }
}

/// The value of the embedded language that a canonical value stands for.
pub fn from_canonical(c: &CanonicalValue) -> (r: Result<Value, BridgeError>)
    ensures
        outcome_view(r) == decode(c@),
    decreases c,
{
    match c {
        CanonicalValue::Null => Ok(Value::NoneValue),
        CanonicalValue::Bool(b) => Ok(Value::Bool(*b)),
        CanonicalValue::Int(n) => decode_int_value(*n),
        CanonicalValue::Float(bits) => Ok(Value::Float(*bits)),
        CanonicalValue::Str(s) => Ok(Value::Str(s.clone())),
        CanonicalValue::Sequence(items) => {
            let ghost results = decoded_items(canonical_items(items@));
            let mut out: Vec<Value> = Vec::new();
            let mut i: usize = 0;
            while i < items.len()
                invariant
                    i <= items.len(),
                    out.len() == i,
                    results == decoded_items(canonical_items(items@)),
                    forall|j: int| 0 <= j < i ==> (#[trigger] results[j]) == Ok::<ValueView, ErrorView>(out[j]@),
                    *c == CanonicalValue::Sequence(*items),
                decreases items.len() - i,
            {
                match from_canonical(&items[i]) {
                    Ok(v) => {
                        out.push(v);
                    },
                    Err(e) => {
                        proof {
                            assert(results[i as int] == Err::<ValueView, ErrorView>(e@));
                            lemma_gathered_err(results, i as int);
                        }
                        return Err(e);
                    },
                }
                i += 1;
            }
            proof {
                lemma_gathered_ok(results, view_items(out@));
            }
            Ok(Value::List(out))
        },
        CanonicalValue::Mapping(entries) => {
            let ghost results = decoded_entries(canonical_entries(entries@));
            let ghost mut pairs: Seq<(ValueView, ValueView)> = Seq::empty();
            let mut out: Vec<(Value, Value)> = Vec::new();
            let mut i: usize = 0;
            while i < entries.len()
                invariant
                    i <= entries.len(),
                    pairs.len() == i,
                    results == decoded_entries(canonical_entries(entries@)),
                    forall|j: int| 0 <= j < i ==> (#[trigger] results[j]) == Ok::<(ValueView, ValueView), ErrorView>(pairs[j]),
                    view_entries(out@) == collected(pairs),
                    *c == CanonicalValue::Mapping(*entries),
                decreases entries.len() - i,
            {
                let value = match from_canonical(&entries[i].1) {
                    Ok(v) => v,
                    Err(e) => {
                        proof {
                            assert(results[i as int] == Err::<(ValueView, ValueView), ErrorView>(e@));
                            lemma_gathered_err(results, i as int);
                        }
                        return Err(e);
                    },
                };
                let key: String = entries[i].0.clone();
                let ghost before = view_entries(out@);
                let ghost pair = (ValueView::Str(key@), value@);
                proof {
                    assert(results[i as int] == Ok::<(ValueView, ValueView), ErrorView>(pair));
                    assert(pairs.push(pair).drop_last() =~= pairs);
                }
                match find_str_key(&out, &key) {
                    Some(j) => {
                        proof {
                            lemma_first_index(before, pair.0, j as int);
                        }
                        out.set(j, (Value::Str(key), value));
                        assert(view_entries(out@) =~= before.update(j as int, pair));
                    },
                    None => {
                        out.push((Value::Str(key), value));
                        assert(view_entries(out@) =~= before.push(pair));
                    },
                }
                proof {
                    pairs = pairs.push(pair);
                }
                i += 1;
            }
            proof {
                lemma_gathered_ok(results, pairs);
            }
            Ok(Value::Dict(out))
        },
    }
}

/// Whether the bit pattern is that of a finite double: neither an infinity
/// nor a NaN.
pub open spec fn is_finite(bits: u64) -> bool {
    (bits >> 52u64) & 0x7ffu64 != 0x7ffu64
}

/// The error of a value that has no canonical form.
pub open spec fn unrepresentable(v: ValueView) -> ErrorView {
    ErrorView::Unrepresentable { kind: kind_name(v) }
}

/// The string that a dictionary key becomes in a mapping: a string is
/// itself, an integer its base-10 text, a boolean `true` or `false`. No
/// other value is a key of a mapping.
pub open spec fn encode_key(k: ValueView) -> Result<Seq<char>, ErrorView> {
    match k {
        ValueView::Str(s) => Ok(s),
        ValueView::Int(n) => Ok(int_text(n)),
        ValueView::Bool(b) => Ok(
            if b {
                "true"@
            } else {
                "false"@
            },
        ),
        _ => Err(unrepresentable(k)),
    }
}

/// The canonical form of a value of the embedded language. Lists and tuples
/// become sequences and dictionaries mappings, item by item and in order; a
/// double that is not finite becomes null. A decimal, a callable and a
/// value of any other type have no canonical form.
pub open spec fn encode(v: ValueView) -> Result<CanonicalView, ErrorView>
    decreases v,
{
    match v {
        ValueView::NoneValue => Ok(CanonicalView::Null),
        ValueView::Bool(b) => Ok(CanonicalView::Bool(b)),
        ValueView::Int(n) => Ok(CanonicalView::Int(n)),
        ValueView::Float(bits) => Ok(
            if is_finite(bits) {
                CanonicalView::Float(bits)
            } else {
                CanonicalView::Null
            },
        ),
        ValueView::Str(s) => Ok(CanonicalView::Str(s)),
        ValueView::List(items) => match gathered(encoded_items(items)) {
            Ok(converted) => Ok(CanonicalView::Sequence(converted)),
            Err(e) => Err(e),
        },
        ValueView::Tuple(items) => match gathered(encoded_items(items)) {
            Ok(converted) => Ok(CanonicalView::Sequence(converted)),
            Err(e) => Err(e),
        },
        ValueView::Dict(entries) => match gathered(encoded_entries(entries)) {
            Ok(pairs) => Ok(CanonicalView::Mapping(collected(pairs))),
            Err(e) => Err(e),
        },
        ValueView::Decimal(_) => Err(unrepresentable(v)),
        ValueView::Callable(_) => Err(unrepresentable(v)),
        ValueView::Other(_) => Err(unrepresentable(v)),
    }
}

/// The outcome of encoding each item.
pub open spec fn encoded_items(items: Seq<ValueView>) -> Seq<Result<CanonicalView, ErrorView>>
    decreases items,
{
    Seq::new(
        items.len(),
        |i: int|
            if 0 <= i < items.len() {
                encode(items[i])
            } else {
                Ok(CanonicalView::Null)
            },
    )
}

/// The outcome of encoding one entry: the key first, then the value.
pub open spec fn encoded_entry(key: Result<Seq<char>, ErrorView>, value: Result<CanonicalView, ErrorView>) -> Result<
    (Seq<char>, CanonicalView),
    ErrorView,
> {
    match key {
        Ok(k) => match value {
            Ok(c) => Ok((k, c)),
            Err(e) => Err(e),
        },
        Err(e) => Err(e),
    }
}

/// The outcome of encoding each entry.
pub open spec fn encoded_entries(entries: Seq<(ValueView, ValueView)>) -> Seq<
    Result<(Seq<char>, CanonicalView), ErrorView>,
>
    decreases entries,
{
    Seq::new(
        entries.len(),
        |i: int|
            if 0 <= i < entries.len() {
                encoded_entry(encode_key(entries[i].0), encode(entries[i].1))
            } else {
                Ok((Seq::empty(), CanonicalView::Null))
            },
    )
}

/// The place of the first entry with the key.
pub fn find_key(entries: &Vec<(String, CanonicalValue)>, key: &String) -> (r: Option<usize>)
    ensures
        match r {
            Some(i) => is_first_index(canonical_entries(entries@), key@, i as int),
            None => !has_key(canonical_entries(entries@), key@),
        },
{
    let r = position_of(entries, key);
    proof {
        let table = canonical_entries(entries@);
        assert forall|j: int| 0 <= j < table.len() implies (#[trigger] table[j]).0 == entries[j].0@ by {}
    }
    r
}

fn unrepresentable_value(v: &Value) -> (e: BridgeError)
    ensures
        e@ == unrepresentable(v@),
{
    BridgeError::Unrepresentable { kind: v.get_type() }
}

fn key_to_text(k: &Value) -> (r: Result<String, BridgeError>)
    ensures
        match r {
            Ok(s) => encode_key(k@) == Ok::<Seq<char>, ErrorView>(s@),
            Err(e) => encode_key(k@) == Err::<Seq<char>, ErrorView>(e@),
        },
{
    match k {
        Value::Str(s) => Ok(s.clone()),
        Value::Int(n) => Ok(int_to_text(*n)),
        Value::Bool(b) => Ok(
            if *b {
                "true".to_owned()
            } else {
                "false".to_owned()
            },
        ),
        _ => Err(unrepresentable_value(k)),
    }
}

/// Whether the double with this bit pattern is finite.
pub fn float_is_finite(bits: u64) -> (r: bool)
    ensures
        r == is_finite(bits),
{
    (bits >> 52u64) & 0x7ffu64 != 0x7ffu64
}

/// The canonical forms of the items, in order, or the first failure.
pub fn items_to_canonical(items: &Vec<Value>) -> (r: Result<Vec<CanonicalValue>, BridgeError>)
    ensures
        match r {
            Ok(converted) => gathered(encoded_items(view_items(items@))) == Ok::<
                Seq<CanonicalView>,
                ErrorView,
            >(canonical_items(converted@)),
            Err(e) => gathered(encoded_items(view_items(items@))) == Err::<
                Seq<CanonicalView>,
                ErrorView,
            >(e@),
        },
    decreases items,
{
    let ghost results = encoded_items(view_items(items@));
    let mut out: Vec<CanonicalValue> = Vec::new();
    let mut i: usize = 0;
    while i < items.len()
        invariant
            i <= items.len(),
            out.len() == i,
            results == encoded_items(view_items(items@)),
            forall|j: int| 0 <= j < i ==> (#[trigger] results[j]) == Ok::<CanonicalView, ErrorView>(out[j]@),
        decreases items.len() - i,
    {
        match to_canonical(&items[i]) {
            Ok(c) => {
                out.push(c);
            },
            Err(e) => {
                proof {
                    assert(results[i as int] == Err::<CanonicalView, ErrorView>(e@));
                    lemma_gathered_err(results, i as int);
                }
                return Err(e);
            },
        }
        i += 1;
    }
    proof {
        lemma_gathered_ok(results, canonical_items(out@));
    }
    Ok(out)
}

/// The canonical form of a value of the embedded language.
pub fn to_canonical(v: &Value) -> (r: Result<CanonicalValue, BridgeError>)
    ensures
        canonical_outcome_view(r) == encode(v@),
    decreases v,
{
    match v {
        Value::NoneValue => Ok(CanonicalValue::Null),
        Value::Bool(b) => Ok(CanonicalValue::Bool(*b)),
        Value::Int(n) => Ok(CanonicalValue::Int(*n)),
        Value::Float(bits) => if float_is_finite(*bits) {
            Ok(CanonicalValue::Float(*bits))
        } else {
            Ok(CanonicalValue::Null)
        },
        Value::Str(s) => Ok(CanonicalValue::Str(s.clone())),
        Value::List(items) => match items_to_canonical(items) {
            Ok(converted) => Ok(CanonicalValue::Sequence(converted)),
            Err(e) => Err(e),
        },
        Value::Tuple(items) => match items_to_canonical(items) {
            Ok(converted) => Ok(CanonicalValue::Sequence(converted)),
            Err(e) => Err(e),
        },
        Value::Dict(entries) => {
            let ghost results = encoded_entries(view_entries(entries@));
            let ghost mut pairs: Seq<(Seq<char>, CanonicalView)> = Seq::empty();
            let mut out: Vec<(String, CanonicalValue)> = Vec::new();
            let mut i: usize = 0;
            while i < entries.len()
                invariant
                    i <= entries.len(),
                    pairs.len() == i,
                    results == encoded_entries(view_entries(entries@)),
                    forall|j: int| 0 <= j < i ==> (#[trigger] results[j]) == Ok::<(Seq<char>, CanonicalView), ErrorView>(pairs[j]),
                    canonical_entries(out@) == collected(pairs),
                    *v == Value::Dict(*entries),
                decreases entries.len() - i,
            {
                let key = match key_to_text(&entries[i].0) {
                    Ok(key) => key,
                    Err(e) => {
                        proof {
                            assert(results[i as int] == Err::<(Seq<char>, CanonicalView), ErrorView>(e@));
                            lemma_gathered_err(results, i as int);
                        }
                        return Err(e);
                    },
                };
                let value = match to_canonical(&entries[i].1) {
                    Ok(c) => c,
                    Err(e) => {
                        proof {
                            assert(results[i as int] == Err::<(Seq<char>, CanonicalView), ErrorView>(e@));
                            lemma_gathered_err(results, i as int);
                        }
                        return Err(e);
                    },
                };
                let ghost before = canonical_entries(out@);
                let ghost pair = (key@, value@);
                proof {
                    assert(results[i as int] == Ok::<(Seq<char>, CanonicalView), ErrorView>(pair));
                    assert(pairs.push(pair).drop_last() =~= pairs);
                }
                match find_key(&out, &key) {
                    Some(j) => {
                        proof {
                            lemma_first_index(before, pair.0, j as int);
                        }
                        out.set(j, (key, value));
                        assert(canonical_entries(out@) =~= before.update(j as int, pair));
                    },
                    None => {
                        out.push((key, value));
                        assert(canonical_entries(out@) =~= before.push(pair));
                    },
                }
                proof {
                    pairs = pairs.push(pair);
                }
                i += 1;
            }
            proof {
                lemma_gathered_ok(results, pairs);
            }
            Ok(CanonicalValue::Mapping(out))
        },
        Value::Decimal(_) => Err(unrepresentable_value(v)),
        Value::Callable(_) => Err(unrepresentable_value(v)),
        Value::Other(_) => Err(unrepresentable_value(v)),
    }
}

/// Whether a canonical value is one that the neutral form can write down:
/// every double finite, and no mapping with a key twice.
pub open spec fn well_formed(c: CanonicalView) -> bool
    decreases c,
{
    match c {
        CanonicalView::Float(bits) => is_finite(bits),
        CanonicalView::Sequence(items) => forall|i: int|
            0 <= i < items.len() ==> well_formed(#[trigger] items[i]),
        CanonicalView::Mapping(entries) => distinct_keys(entries) && forall|i: int|
            0 <= i < entries.len() ==> well_formed((#[trigger] entries[i]).1),
        _ => true,
    }
}

/// Whether a canonical value crosses the boundary unchanged: it is well
/// formed, and every integer in it fits 64 unsigned bits.
pub open spec fn transports_exactly(c: CanonicalView) -> bool
    decreases c,
{
    match c {
        CanonicalView::Int(n) => 0 <= n <= u64::MAX,
        CanonicalView::Float(bits) => is_finite(bits),
        CanonicalView::Sequence(items) => forall|i: int|
            0 <= i < items.len() ==> transports_exactly(#[trigger] items[i]),
        CanonicalView::Mapping(entries) => distinct_keys(entries) && forall|i: int|
            0 <= i < entries.len() ==> transports_exactly((#[trigger] entries[i]).1),
        _ => true,
    }
}

/// Round trip: a canonical value that transports exactly decodes to a value
/// of the embedded language whose canonical form is the value again, so
/// that decoding that form gives the same value once more.
pub proof fn lemma_round_trip(c: CanonicalView)
    requires
        transports_exactly(c),
    ensures
        decode(c) is Ok,
        encode(decode(c)->Ok_0) == Ok::<CanonicalView, ErrorView>(c),
        decode(encode(decode(c)->Ok_0)->Ok_0) == decode(c),
    decreases c,
{
    match c {
        CanonicalView::Sequence(items) => {
            let results = decoded_items(items);
            assert forall|i: int| 0 <= i < items.len() implies (#[trigger] results[i]) is Ok && encode(
                results[i]->Ok_0,
            ) == Ok::<CanonicalView, ErrorView>(items[i]) by {
                assert(transports_exactly(items[i]));
                lemma_round_trip(items[i]);
            }
            let values = Seq::new(items.len(), |i: int| results[i]->Ok_0);
            lemma_gathered_ok(results, values);
            let back = encoded_items(values);
            assert forall|i: int| 0 <= i < back.len() implies (#[trigger] back[i]) == Ok::<
                CanonicalView,
                ErrorView,
            >(items[i]) by {
                assert(results[i] is Ok);
            }
            lemma_gathered_ok(back, items);
        },
        CanonicalView::Mapping(entries) => {
            let results = decoded_entries(entries);
            assert forall|i: int| 0 <= i < entries.len() implies (#[trigger] results[i]) is Ok
                && results[i]->Ok_0.0 == ValueView::Str(entries[i].0) && encode(results[i]->Ok_0.1)
                == Ok::<CanonicalView, ErrorView>(entries[i].1) by {
                assert(transports_exactly(entries[i].1));
                lemma_round_trip(entries[i].1);
            }
            let pairs = Seq::new(entries.len(), |i: int| results[i]->Ok_0);
            lemma_gathered_ok(results, pairs);
            assert(distinct_keys(pairs)) by {
                assert forall|i: int, j: int| 0 <= i < j < pairs.len() implies (#[trigger] pairs[i]).0 != (
                #[trigger] pairs[j]).0 by {
                    assert(results[i] is Ok);
                    assert(results[j] is Ok);
                    assert(entries[i].0 != entries[j].0);
                }
            }
            lemma_collected_distinct(pairs);
            let back = encoded_entries(pairs);
            assert forall|i: int| 0 <= i < back.len() implies (#[trigger] back[i]) == Ok::<
                (Seq<char>, CanonicalView),
                ErrorView,
            >(entries[i]) by {
                assert(results[i] is Ok);
            }
            lemma_gathered_ok(back, entries);
            lemma_collected_distinct(entries);
        },
        _ => {},
    }
}

/// The canonical form of a value is always well formed.
pub proof fn lemma_encode_well_formed(v: ValueView)
    ensures
        encode(v) matches Ok(c) ==> well_formed(c),
    decreases v,
{
    match v {
        ValueView::List(items) => {
            lemma_encoded_items_well_formed(items);
        },
        ValueView::Tuple(items) => {
            lemma_encoded_items_well_formed(items);
        },
        ValueView::Dict(entries) => {
            let results = encoded_entries(entries);
            if gathered(results) is Ok {
                let pairs = gathered(results)->Ok_0;
                assert forall|i: int| 0 <= i < pairs.len() implies well_formed((#[trigger] pairs[i]).1) by {
                    assert(results[i] is Ok);
                    lemma_encode_well_formed(entries[i].1);
                }
                lemma_collected_keys(pairs);
                lemma_collected_values(pairs);
            }
        },
        _ => {},
    }
}

proof fn lemma_encoded_items_well_formed(items: Seq<ValueView>)
    ensures
        gathered(encoded_items(items)) matches Ok(converted) ==> forall|i: int|
            0 <= i < converted.len() ==> well_formed(#[trigger] converted[i]),
    decreases items,
{
    let results = encoded_items(items);
    if gathered(results) is Ok {
        let converted = gathered(results)->Ok_0;
        assert forall|i: int| 0 <= i < converted.len() implies well_formed(#[trigger] converted[i]) by {
            assert(results[i] is Ok);
            lemma_encode_well_formed(items[i]);
        }
    }
}

/// Every value of a table that was put together is one of the pairs'.
proof fn lemma_collected_values(pairs: Seq<(Seq<char>, CanonicalView)>)
    requires
        forall|i: int| 0 <= i < pairs.len() ==> well_formed((#[trigger] pairs[i]).1),
    ensures
        forall|i: int| 0 <= i < collected(pairs).len() ==> well_formed((#[trigger] collected(pairs)[i]).1),
    decreases pairs.len(),
{
    if pairs.len() > 0 {
        let front = pairs.drop_last();
        assert forall|i: int| 0 <= i < front.len() implies well_formed((#[trigger] front[i]).1) by {
            assert(front[i] == pairs[i]);
        }
        lemma_collected_values(front);
        let table = collected(front);
        let after = put(table, pairs.last().0, pairs.last().1);
        assert forall|i: int| 0 <= i < after.len() implies well_formed((#[trigger] after[i]).1) by {
            if has_key(table, pairs.last().0) {
                lemma_has_first_index(table, pairs.last().0);
                if i != first_index(table, pairs.last().0) {
                    assert(after[i] == table[i]);
                }
            } else {
                if i < table.len() {
                    assert(after[i] == table[i]);
                }
            }
        }
    }
}

} // verus!
