//! The library's model of the schema-validated generic value the upstream
//! validator hands over: strings, integers, numbers, booleans, the absent
//! value, arrays and ordered-key objects, all as plain values.

use vstd::prelude::*;

use crate::error::StateChartError;
use crate::error::StateChartErrorV;
use crate::text::str_eq;

verus! {

/// A schema-validated generic value. `Number` carries the bit pattern of a
/// 64-bit IEEE-754 value; `Object` is an ordered list of key-value pairs,
/// looked up by first match.
#[derive(Debug)]
pub enum ValidatedValue {
    String(String),
    Integer(i64),
    Number(u64),
    Bool(bool),
    Null,
    Array(Vec<ValidatedValue>),
    Object(Vec<(String, ValidatedValue)>),
}

/// The mathematical view of a validated value.
pub enum ValidatedValueV {
    String(Seq<char>),
    Integer(int),
    Number(u64),
    Bool(bool),
    Null,
    Array(Seq<ValidatedValueV>),
    Object(Seq<(Seq<char>, ValidatedValueV)>),
}

/// The view of a validated value, element by element.
pub open spec fn vv_view(v: ValidatedValue) -> ValidatedValueV
    decreases v,
{
    match v {
        ValidatedValue::String(s) => ValidatedValueV::String(s@),
        ValidatedValue::Integer(i) => ValidatedValueV::Integer(i as int),
        ValidatedValue::Number(b) => ValidatedValueV::Number(b),
        ValidatedValue::Bool(b) => ValidatedValueV::Bool(b),
        ValidatedValue::Null => ValidatedValueV::Null,
        ValidatedValue::Array(a) => ValidatedValueV::Array(vv_views(a@)),
        ValidatedValue::Object(o) => ValidatedValueV::Object(pairs_view(o@)),
    }
}

/// The views of the elements of an array.
pub open spec fn vv_views(s: Seq<ValidatedValue>) -> Seq<ValidatedValueV>
    decreases s,
{
    if s.len() == 0 {
        Seq::empty()
    } else {
        seq![vv_view(s[0])] + vv_views(s.skip(1))
    }
}

/// The view of an object's pair list.
pub open spec fn pairs_view(s: Seq<(String, ValidatedValue)>) -> Seq<(Seq<char>, ValidatedValueV)>
    decreases s,
{
    if s.len() == 0 {
        Seq::empty()
    } else {
        seq![(s[0].0@, vv_view(s[0].1))] + pairs_view(s.skip(1))
    }
}

pub broadcast proof fn lemma_vv_views_len(s: Seq<ValidatedValue>)
    ensures
        (#[trigger] vv_views(s)).len() == s.len(),
    decreases s.len(),
{
    if s.len() > 0 {
        lemma_vv_views_len(s.skip(1));
    }
}

pub broadcast proof fn lemma_vv_views_index(s: Seq<ValidatedValue>, i: int)
    requires
        0 <= i < s.len(),
    ensures
        #[trigger] vv_views(s)[i] == vv_view(s[i]),
    decreases s.len(),
{
    lemma_vv_views_len(s);
    if i > 0 {
        lemma_vv_views_index(s.skip(1), i - 1);
    }
}

pub broadcast proof fn lemma_pairs_view_len(s: Seq<(String, ValidatedValue)>)
    ensures
        (#[trigger] pairs_view(s)).len() == s.len(),
    decreases s.len(),
{
    if s.len() > 0 {
        lemma_pairs_view_len(s.skip(1));
    }
}

pub broadcast proof fn lemma_pairs_view_index(s: Seq<(String, ValidatedValue)>, i: int)
    requires
        0 <= i < s.len(),
    ensures
        #[trigger] pairs_view(s)[i] == (s[i].0@, vv_view(s[i].1)),
    decreases s.len(),
{
    lemma_pairs_view_len(s);
    if i > 0 {
        lemma_pairs_view_index(s.skip(1), i - 1);
    }
}

/// The broadcast group of the view lemmas of this module.
pub broadcast group group_value_views {
    lemma_vv_views_len,
    lemma_vv_views_index,
    lemma_pairs_view_len,
    lemma_pairs_view_index,
}

impl View for ValidatedValue {
    type V = ValidatedValueV;

    open spec fn view(&self) -> ValidatedValueV {
        vv_view(*self)
    }
}

/// The value stored under `key`, or the error naming the missing attribute.
pub open spec fn spec_mandatory(
    pairs: Seq<(Seq<char>, ValidatedValueV)>,
    key: Seq<char>,
) -> Result<ValidatedValueV, StateChartErrorV> {
    match spec_lookup(pairs, key) {
        Some(v) => Ok(v),
        None => Err(StateChartErrorV::MandatoryAttributeMissing(key)),
    }
}

/// Coerces a generic value to text; anything but a string is rejected.
pub open spec fn spec_string(v: ValidatedValueV) -> Result<Seq<char>, StateChartErrorV> {
    match v {
        ValidatedValueV::String(s) => Ok(s),
        _ => Err(StateChartErrorV::UnexpectedType),
    }
}

/// Coerces a generic value to the raw text of a node id, without validating
/// the address; anything but a string is rejected.
pub open spec fn spec_raw_node_id(v: ValidatedValueV) -> Result<Seq<char>, StateChartErrorV> {
    spec_string(v)
}

/// Coerces a borrowed generic value to owned text.
pub fn string_of(v: &ValidatedValue) -> (r: Result<String, StateChartError>)
    ensures
        match spec_string(v@) {
            Ok(s) => r matches Ok(x) && x@ == s,
            Err(e) => r matches Err(x) && x@ == e,
        },
{
    match v {
        ValidatedValue::String(s) => Ok(s.clone()),
        _ => Err(StateChartError::UnexpectedType),
    }
}

/// The first value stored under `key`, if any.
pub open spec fn spec_lookup(pairs: Seq<(Seq<char>, ValidatedValueV)>, key: Seq<char>) -> Option<
    ValidatedValueV,
>
    decreases pairs.len(),
{
    if pairs.len() == 0 {
        None
    } else if pairs[0].0 == key {
        Some(pairs[0].1)
    } else {
        spec_lookup(pairs.skip(1), key)
    }
}

/// If no key among the first `i` pairs matches, the lookup is decided by the
/// remaining pairs.
pub proof fn lemma_lookup_skip(pairs: Seq<(Seq<char>, ValidatedValueV)>, key: Seq<char>, i: int)
    requires
        0 <= i <= pairs.len(),
        forall|j: int| 0 <= j < i ==> pairs[j].0 != key,
    ensures
        spec_lookup(pairs, key) == spec_lookup(pairs.skip(i), key),
    decreases i,
{
    if i == 0 {
        assert(pairs.skip(0) =~= pairs);
    } else {
        lemma_lookup_skip(pairs, key, i - 1);
        assert(pairs.skip(i - 1)[0] == pairs[i - 1]);
        assert(pairs.skip(i - 1).skip(1) =~= pairs.skip(i));
    }
}

/// Looks up the first value stored under `name` in an object's pair list.
pub fn get<'a>(attributes: &'a Vec<(String, ValidatedValue)>, name: &str) -> (r: Option<
    &'a ValidatedValue,
>)
    ensures
        match r {
            Some(v) => spec_lookup(pairs_view(attributes@), name@) == Some(v@),
            None => spec_lookup(pairs_view(attributes@), name@) is None,
        },
        r matches Some(v) ==> exists|i: int|
            0 <= i < attributes@.len() && *v == attributes@[i].1,
{
    let ghost pv = pairs_view(attributes@);
    proof {
        lemma_pairs_view_len(attributes@);
    }
    let n = attributes.len();
    let mut i: usize = 0;
    while i < n
        invariant
            0 <= i <= n,
            n == attributes@.len(),
            pv == pairs_view(attributes@),
            pv.len() == n,
            forall|j: int| 0 <= j < i ==> pv[j].0 != name@,
        decreases n - i,
    {
        let p = &attributes[i];
        proof {
            lemma_pairs_view_index(attributes@, i as int);
        }
        if str_eq(p.0.as_str(), name) {
            proof {
                lemma_lookup_skip(pv, name@, i as int);
                assert(pv.skip(i as int)[0] == pv[i as int]);
                assert(p.1 == attributes@[i as int].1);
            }
            return Some(&p.1);
        }
        i += 1;
    }
    proof {
        lemma_lookup_skip(pv, name@, n as int);
        assert(pv.skip(n as int).len() == 0);
    }
    None
}

} // verus!

