//! What a structure holds, read by key and by tag.
//!
//! A property is found by its key and a child by its tag; where a key or a
//! tag occurs more than once, the first counts. The values of a structure
//! are the data of its first child, the data structure that it wraps.

use vstd::prelude::*;
use crate::error::{AssemblyError, ErrorView};
use crate::scalar::Scalar;
use crate::text::text_eq;
use crate::tree::{lemma_children_view, Datum, DatumView, PropertyView, Structure, StructureView};

verus! {

/// The failure of a structure that lacks what its type requires.
pub open spec fn malformed(s: StructureView) -> ErrorView {
    ErrorView::MalformedStructure { tag: s.tag }
}

/// The value of the first property with this key, from a position on.
pub open spec fn property_from(properties: Seq<PropertyView>, key: Seq<char>, from: int) -> Option<
    DatumView,
>
    decreases properties.len() - from,
{
    if from < 0 || from >= properties.len() {
        None
    } else if properties[from].key == key {
        Some(properties[from].value)
    } else {
        property_from(properties, key, from + 1)
    }
}

/// The value of the property with this key.
pub open spec fn property_of(s: StructureView, key: Seq<char>) -> Option<DatumView> {
    property_from(s.properties, key, 0)
}

/// The text of a property, where the structure has the property.
pub open spec fn text_property(s: StructureView, key: Seq<char>) -> Result<
    Option<Seq<char>>,
    ErrorView,
> {
    match property_of(s, key) {
        None => Ok(None),
        Some(DatumView::Text(t)) => Ok(Some(t)),
        Some(_) => Err(malformed(s)),
    }
}

/// The truth value of a property, where the structure has the property.
pub open spec fn bool_property(s: StructureView, key: Seq<char>) -> Result<Option<bool>, ErrorView> {
    match property_of(s, key) {
        None => Ok(None),
        Some(DatumView::Bool(b)) => Ok(Some(b)),
        Some(_) => Err(malformed(s)),
    }
}

/// The number of a property, where the structure has the property.
pub open spec fn number_property(s: StructureView, key: Seq<char>) -> Result<
    Option<Scalar>,
    ErrorView,
> {
    match property_of(s, key) {
        None => Ok(None),
        Some(DatumView::Number(v)) => Ok(Some(v)),
        Some(_) => Err(malformed(s)),
    }
}

/// The index that a property holds, or `absent` where the structure lacks
/// the property.
pub open spec fn index_property(s: StructureView, key: Seq<char>, absent: u32) -> Result<
    u32,
    ErrorView,
> {
    match property_of(s, key) {
        None => Ok(absent),
        Some(DatumView::Number(v)) => match v.index() {
            Some(index) => Ok(index),
            None => Err(malformed(s)),
        },
        Some(_) => Err(malformed(s)),
    }
}

/// The first child with this tag, from a position on.
pub open spec fn child_from(children: Seq<StructureView>, tag: Seq<char>, from: int) -> Option<
    StructureView,
>
    decreases children.len() - from,
{
    if from < 0 || from >= children.len() {
        None
    } else if children[from].tag == tag {
        Some(children[from])
    } else {
        child_from(children, tag, from + 1)
    }
}

/// The first child with this tag.
pub open spec fn child_of(s: StructureView, tag: Seq<char>) -> Option<StructureView> {
    child_from(s.children, tag, 0)
}

/// The numbers that the first `n` data are, if all of them are numbers.
pub open spec fn numbers_in(data: Seq<DatumView>, n: int) -> Option<Seq<Scalar>>
    decreases n,
{
    if n <= 0 || n > data.len() {
        Some(Seq::empty())
    } else {
        match numbers_in(data, n - 1) {
            None => None,
            Some(before) => match data[n - 1] {
                DatumView::Number(v) => Some(before.push(v)),
                _ => None,
            },
        }
    }
}

/// The numbers that a structure holds: those of its first child, all of
/// whose data are numbers. A structure without children holds none.
pub open spec fn values_of(s: StructureView) -> Result<Seq<Scalar>, ErrorView> {
    if s.children.len() == 0 {
        Ok(Seq::empty())
    } else {
        match numbers_in(s.children[0].data, s.children[0].data.len() as int) {
            Some(values) => Ok(values),
            None => Err(malformed(s)),
        }
    }
}

/// The first datum that a structure holds: that of its first child.
pub open spec fn first_datum(s: StructureView) -> Option<DatumView> {
    if s.children.len() > 0 && s.children[0].data.len() > 0 {
        Some(s.children[0].data[0])
    } else {
        None
    }
}

/// The text that a structure holds.
pub open spec fn text_of(s: StructureView) -> Result<Seq<char>, ErrorView> {
    match first_datum(s) {
        Some(DatumView::Text(t)) => Ok(t),
        _ => Err(malformed(s)),
    }
}

/// The name that a structure refers to.
pub open spec fn reference_of(s: StructureView) -> Result<Seq<char>, ErrorView> {
    match first_datum(s) {
        Some(DatumView::Reference(r)) => Ok(r),
        _ => Err(malformed(s)),
    }
}

/// The failure of a structure that lacks what its type requires.
pub fn malformed_structure(s: &Structure) -> (e: AssemblyError)
    ensures
        e@ == malformed(s@),
{
    AssemblyError::MalformedStructure { tag: s.tag.clone() }
}

/// The value of the property with this key.
pub fn property<'a>(s: &'a Structure, key: &str) -> (value: Option<&'a Datum>)
    ensures
        match value {
            Some(d) => property_of(s@, key@) == Some(d@),
            None => property_of(s@, key@) is None,
        },
{
    let mut i: usize = 0;
    while i < s.properties.len()
        invariant
            i <= s.properties.len(),
            property_of(s@, key@) == property_from(s@.properties, key@, i as int),
        decreases s.properties.len() - i,
    {
        if text_eq(s.properties[i].key.as_str(), key) {
            return Some(&s.properties[i].value);
        }
        i += 1;
    }
    None
}

/// The first child with this tag.
pub fn child<'a>(s: &'a Structure, tag: &str) -> (found: Option<&'a Structure>)
    ensures
        match found {
            Some(c) => child_of(s@, tag@) == Some(c@),
            None => child_of(s@, tag@) is None,
        },
{
    proof {
        lemma_children_view(*s);
    }
    let mut i: usize = 0;
    while i < s.children.len()
        invariant
            i <= s.children.len(),
            s@.children == crate::tree::forest_view(s.children@),
            child_of(s@, tag@) == child_from(s@.children, tag@, i as int),
        decreases s.children.len() - i,
    {
        if text_eq(s.children[i].tag.as_str(), tag) {
            return Some(&s.children[i]);
        }
        i += 1;
    }
    None
}

/// The text of a property.
pub fn property_text<'a>(s: &'a Structure, key: &str) -> (r: Result<Option<&'a String>, AssemblyError>)
    ensures
        match r {
            Ok(Some(t)) => text_property(s@, key@) == Ok::<Option<Seq<char>>, ErrorView>(Some(t@)),
            Ok(None) => text_property(s@, key@) == Ok::<Option<Seq<char>>, ErrorView>(None),
            Err(e) => text_property(s@, key@) == Err::<Option<Seq<char>>, ErrorView>(e@),
        },
{
    match property(s, key) {
        None => Ok(None),
        Some(Datum::Text(t)) => Ok(Some(t)),
        Some(_) => Err(malformed_structure(s)),
    }
}

/// The truth value of a property.
pub fn property_bool(s: &Structure, key: &str) -> (r: Result<Option<bool>, AssemblyError>)
    ensures
        match r {
            Ok(b) => bool_property(s@, key@) == Ok::<Option<bool>, ErrorView>(b),
            Err(e) => bool_property(s@, key@) == Err::<Option<bool>, ErrorView>(e@),
        },
{
    match property(s, key) {
        None => Ok(None),
        Some(Datum::Bool(b)) => Ok(Some(*b)),
        Some(_) => Err(malformed_structure(s)),
    }
}

/// The number of a property.
pub fn property_number(s: &Structure, key: &str) -> (r: Result<Option<Scalar>, AssemblyError>)
    ensures
        match r {
            Ok(v) => number_property(s@, key@) == Ok::<Option<Scalar>, ErrorView>(v),
            Err(e) => number_property(s@, key@) == Err::<Option<Scalar>, ErrorView>(e@),
        },
{
    match property(s, key) {
        None => Ok(None),
        Some(Datum::Number(v)) => Ok(Some(*v)),
        Some(_) => Err(malformed_structure(s)),
    }
}

/// The index that a property holds, or `absent` where the structure lacks
/// the property.
pub fn property_index(s: &Structure, key: &str, absent: u32) -> (r: Result<u32, AssemblyError>)
    ensures
        match r {
            Ok(index) => index_property(s@, key@, absent) == Ok::<u32, ErrorView>(index),
            Err(e) => index_property(s@, key@, absent) == Err::<u32, ErrorView>(e@),
        },
{
    match property(s, key) {
        None => Ok(absent),
        Some(Datum::Number(v)) => match v.as_index() {
            Some(index) => Ok(index),
            None => Err(malformed_structure(s)),
        },
        Some(_) => Err(malformed_structure(s)),
    }
}

/// The numbers that a structure holds.
pub fn values(s: &Structure) -> (r: Result<Vec<Scalar>, AssemblyError>)
    ensures
        match r {
            Ok(v) => values_of(s@) == Ok::<Seq<Scalar>, ErrorView>(v@),
            Err(e) => values_of(s@) == Err::<Seq<Scalar>, ErrorView>(e@),
        },
{
    proof {
        lemma_children_view(*s);
    }
    let mut found: Vec<Scalar> = Vec::new();
    if s.children.len() == 0 {
        return Ok(found);
    }
    let data = &s.children[0].data;
    let ghost model = s@.children[0].data;
    assert(model == data@.map_values(|d: Datum| d@));
    let mut i: usize = 0;
    while i < data.len()
        invariant
            i <= data.len(),
            model == data@.map_values(|d: Datum| d@),
            s@.children.len() > 0,
            model == s@.children[0].data,
            numbers_in(model, i as int) == Some(found@),
        decreases data.len() - i,
    {
        match &data[i] {
            Datum::Number(v) => {
                found.push(*v);
            },
            _ => {
                proof {
                    assert(model.len() == data.len());
                    assert(model[i as int] == data@[i as int]@);
                    assert(numbers_in(model, i + 1) is None);
                    lemma_numbers_stay_none(model, i + 1, model.len() as int);
                }
                return Err(malformed_structure(s));
            },
        }
        i += 1;
    }
    Ok(found)
}

/// Once a datum is no number, no longer prefix is all numbers.
pub proof fn lemma_numbers_stay_none(data: Seq<DatumView>, n: int, m: int)
    requires
        0 < n <= m <= data.len(),
        numbers_in(data, n) is None,
    ensures
        numbers_in(data, m) is None,
    decreases m - n,
{
    if n < m {
        lemma_numbers_stay_none(data, n, m - 1);
    }
}

fn datum<'a>(s: &'a Structure) -> (found: Option<&'a Datum>)
    ensures
        match found {
            Some(d) => first_datum(s@) == Some(d@),
            None => first_datum(s@) is None,
        },
{
    proof {
        lemma_children_view(*s);
    }
    if s.children.len() > 0 && s.children[0].data.len() > 0 {
        Some(&s.children[0].data[0])
    } else {
        None
    }
}

/// The text that a structure holds.
pub fn text<'a>(s: &'a Structure) -> (r: Result<&'a String, AssemblyError>)
    ensures
        match r {
            Ok(t) => text_of(s@) == Ok::<Seq<char>, ErrorView>(t@),
            Err(e) => text_of(s@) == Err::<Seq<char>, ErrorView>(e@),
        },
{
    match datum(s) {
        Some(Datum::Text(t)) => Ok(t),
        _ => Err(malformed_structure(s)),
    }
}

/// The name that a structure refers to.
pub fn reference<'a>(s: &'a Structure) -> (r: Result<&'a String, AssemblyError>)
    ensures
        match r {
            Ok(t) => reference_of(s@) == Ok::<Seq<char>, ErrorView>(t@),
            Err(e) => reference_of(s@) == Err::<Seq<char>, ErrorView>(e@),
        },
{
    match datum(s) {
        Some(Datum::Reference(t)) => Ok(t),
        _ => Err(malformed_structure(s)),
    }
}

} // verus!
