//! The token stream that a forest of structures is written as, and the
//! proof that reading undoes writing and writing undoes reading.

use vstd::prelude::*;
use crate::error::ErrorView;
use crate::tree::{
    data_from, datum_at, forest_of, properties_from, property_at, starts_at, structure_at,
    structures_from, text_at, DatumView, PropertyView, StructureView, TokenView,
};

verus! {

/// The token that a value is written as.
pub open spec fn datum_token(d: DatumView) -> TokenView {
    match d {
        DatumView::Bool(b) => TokenView::Bool("flag"@, b),
        DatumView::Number(v) => TokenView::Number("number"@, v),
        DatumView::Text(t) => TokenView::Text("text"@, t),
        DatumView::Reference(r) => TokenView::Text("ref"@, r),
    }
}

/// The tokens that a property is written as.
pub open spec fn property_tokens(p: PropertyView) -> Seq<TokenView> {
    seq![
        TokenView::StartNode("property"@),
        TokenView::Text("key"@, p.key),
        datum_token(p.value),
        TokenView::EndNode("property"@),
    ]
}

/// The tokens that the first `n` properties of a list are written as.
pub open spec fn properties_tokens(properties: Seq<PropertyView>, n: int) -> Seq<TokenView>
    decreases n,
{
    if n <= 0 || n > properties.len() {
        Seq::empty()
    } else {
        properties_tokens(properties, n - 1) + property_tokens(properties[n - 1])
    }
}

/// The tokens that the first `n` values of a list are written as.
pub open spec fn data_tokens(data: Seq<DatumView>, n: int) -> Seq<TokenView>
    decreases n,
{
    if n <= 0 || n > data.len() {
        Seq::empty()
    } else {
        data_tokens(data, n - 1).push(datum_token(data[n - 1]))
    }
}

/// The tokens that the name of a structure is written as.
pub open spec fn name_tokens(name: Option<Seq<char>>) -> Seq<TokenView> {
    match name {
        Some(n) => seq![TokenView::Text("name"@, n)],
        None => Seq::empty(),
    }
}

/// The tokens that a structure is written as: its start, its tag, its name,
/// its properties, its data, its children, and its end.
pub open spec fn structure_tokens(s: StructureView) -> Seq<TokenView>
    decreases s, 0int,
{
    seq![TokenView::StartNode("structure"@), TokenView::Text("tag"@, s.tag)] + name_tokens(s.name)
        + properties_tokens(s.properties, s.properties.len() as int) + data_tokens(
        s.data,
        s.data.len() as int,
    ) + forest_tokens(s.children, s.children.len() as int) + seq![
        TokenView::EndNode("structure"@),
    ]
}

/// The tokens that the first `n` structures of a list are written as.
pub open spec fn forest_tokens(forest: Seq<StructureView>, n: int) -> Seq<TokenView>
    decreases forest, n,
{
    if n <= 0 || n > forest.len() {
        Seq::empty()
    } else {
        forest_tokens(forest, n - 1) + structure_tokens(forest[n - 1])
    }
}

/// The tokens of the first properties of a list depend on those properties
/// alone.
pub proof fn lemma_properties_tokens_prefix(a: Seq<PropertyView>, b: Seq<PropertyView>, n: int)
    requires
        0 <= n <= a.len(),
        n <= b.len(),
        forall|i: int| 0 <= i < n ==> a[i] == b[i],
    ensures
        properties_tokens(a, n) == properties_tokens(b, n),
    decreases n,
{
    if n > 0 {
        lemma_properties_tokens_prefix(a, b, n - 1);
    }
}

/// The tokens of the first values of a list depend on those values alone.
pub proof fn lemma_data_tokens_prefix(a: Seq<DatumView>, b: Seq<DatumView>, n: int)
    requires
        0 <= n <= a.len(),
        n <= b.len(),
        forall|i: int| 0 <= i < n ==> a[i] == b[i],
    ensures
        data_tokens(a, n) == data_tokens(b, n),
    decreases n,
{
    if n > 0 {
        lemma_data_tokens_prefix(a, b, n - 1);
    }
}

/// The tokens of the first structures of a list depend on those structures
/// alone.
pub proof fn lemma_forest_tokens_prefix(a: Seq<StructureView>, b: Seq<StructureView>, n: int)
    requires
        0 <= n <= a.len(),
        n <= b.len(),
        forall|i: int| 0 <= i < n ==> a[i] == b[i],
    ensures
        forest_tokens(a, n) == forest_tokens(b, n),
    decreases n,
{
    if n > 0 {
        lemma_forest_tokens_prefix(a, b, n - 1);
    }
}

/// A property that was read stands in the stream as it is written.
pub proof fn lemma_property_sound(tokens: Seq<TokenView>, pos: int)
    requires
        starts_at(tokens, pos, "property"@),
        property_at(tokens, pos) is Ok,
    ensures
        pos + 4 <= tokens.len(),
        tokens.subrange(pos, pos + 4) == property_tokens(property_at(tokens, pos)->Ok_0),
{
    let p = property_at(tokens, pos)->Ok_0;
    assert(tokens.subrange(pos, pos + 4) =~= property_tokens(p));
}

/// The properties that were read stand in the stream as they are written.
pub proof fn lemma_properties_sound(tokens: Seq<TokenView>, pos: int, found: Seq<PropertyView>)
    requires
        0 <= pos <= tokens.len(),
        properties_from(tokens, pos, found) is Ok,
    ensures
        pos <= properties_from(tokens, pos, found)->Ok_0.1 <= tokens.len(),
        properties_tokens(
            properties_from(tokens, pos, found)->Ok_0.0,
            properties_from(tokens, pos, found)->Ok_0.0.len() as int,
        ) == properties_tokens(found, found.len() as int) + tokens.subrange(
            pos,
            properties_from(tokens, pos, found)->Ok_0.1,
        ),
    decreases tokens.len() - pos,
{
    let (all, next) = properties_from(tokens, pos, found)->Ok_0;
    if starts_at(tokens, pos, "property"@) {
        let p = property_at(tokens, pos)->Ok_0;
        lemma_property_sound(tokens, pos);
        lemma_properties_sound(tokens, pos + 4, found.push(p));
        lemma_properties_tokens_prefix(found.push(p), found, found.len() as int);
        assert(tokens.subrange(pos, next) =~= tokens.subrange(pos, pos + 4) + tokens.subrange(
            pos + 4,
            next,
        ));
        assert(properties_tokens(all, all.len() as int) =~= properties_tokens(
            found,
            found.len() as int,
        ) + tokens.subrange(pos, next));
    } else {
        assert(tokens.subrange(pos, pos) =~= Seq::empty());
        assert(properties_tokens(found, found.len() as int) + Seq::empty() =~= properties_tokens(
            found,
            found.len() as int,
        ));
    }
}

/// The values that were read stand in the stream as they are written.
pub proof fn lemma_data_sound(tokens: Seq<TokenView>, pos: int, found: Seq<DatumView>)
    requires
        0 <= pos <= tokens.len(),
    ensures
        pos <= data_from(tokens, pos, found).1 <= tokens.len(),
        data_tokens(data_from(tokens, pos, found).0, data_from(tokens, pos, found).0.len() as int)
            == data_tokens(found, found.len() as int) + tokens.subrange(
            pos,
            data_from(tokens, pos, found).1,
        ),
    decreases tokens.len() - pos,
{
    let (all, next) = data_from(tokens, pos, found);
    match datum_at(tokens, pos) {
        Some(d) => {
            lemma_data_sound(tokens, pos + 1, found.push(d));
            lemma_data_tokens_prefix(found.push(d), found, found.len() as int);
            assert(tokens[pos] == datum_token(d));
            assert(tokens.subrange(pos, next) =~= seq![tokens[pos]] + tokens.subrange(
                pos + 1,
                next,
            ));
            assert(data_tokens(all, all.len() as int) =~= data_tokens(found, found.len() as int)
                + tokens.subrange(pos, next));
        },
        None => {
            assert(tokens.subrange(pos, pos) =~= Seq::empty());
            assert(data_tokens(found, found.len() as int) + Seq::empty() =~= data_tokens(
                found,
                found.len() as int,
            ));
        },
    }
}

/// A structure that was read stands in the stream as it is written.
pub proof fn lemma_structure_sound(tokens: Seq<TokenView>, pos: int)
    requires
        starts_at(tokens, pos, "structure"@),
        structure_at(tokens, pos) is Ok,
    ensures
        pos < structure_at(tokens, pos)->Ok_0.1 <= tokens.len(),
        tokens.subrange(pos, structure_at(tokens, pos)->Ok_0.1) == structure_tokens(
            structure_at(tokens, pos)->Ok_0.0,
        ),
    decreases tokens.len() - pos, 0int,
{
    let (s, next) = structure_at(tokens, pos)->Ok_0;
    let name = text_at(tokens, pos + 2, "name"@);
    let after_name = if name is Some {
        pos + 3
    } else {
        pos + 2
    };
    let (properties, after_properties) = properties_from(tokens, after_name, Seq::empty())->Ok_0;
    let (data, after_data) = data_from(tokens, after_properties, Seq::empty());
    let (children, after_children) = structures_from(tokens, after_data, Seq::empty())->Ok_0;
    lemma_properties_sound(tokens, after_name, Seq::empty());
    lemma_data_sound(tokens, after_properties, Seq::empty());
    lemma_structures_sound(tokens, after_data, Seq::empty());
    assert(tokens.subrange(pos, pos + 2) =~= seq![
        TokenView::StartNode("structure"@),
        TokenView::Text("tag"@, s.tag),
    ]);
    assert(tokens.subrange(pos + 2, after_name) =~= name_tokens(s.name));
    assert(tokens.subrange(after_name, after_properties) =~= properties_tokens(
        properties,
        properties.len() as int,
    ));
    assert(tokens.subrange(after_properties, after_data) =~= data_tokens(data, data.len() as int));
    assert(tokens.subrange(after_data, after_children) =~= forest_tokens(
        children,
        children.len() as int,
    ));
    assert(tokens.subrange(after_children, next) =~= seq![TokenView::EndNode("structure"@)]);
    assert(tokens.subrange(pos, next) =~= tokens.subrange(pos, pos + 2) + tokens.subrange(
        pos + 2,
        after_name,
    ) + tokens.subrange(after_name, after_properties) + tokens.subrange(
        after_properties,
        after_data,
    ) + tokens.subrange(after_data, after_children) + tokens.subrange(after_children, next));
}

/// The structures that were read stand in the stream as they are written.
pub proof fn lemma_structures_sound(tokens: Seq<TokenView>, pos: int, found: Seq<StructureView>)
    requires
        0 <= pos <= tokens.len(),
        structures_from(tokens, pos, found) is Ok,
    ensures
        pos <= structures_from(tokens, pos, found)->Ok_0.1 <= tokens.len(),
        forest_tokens(
            structures_from(tokens, pos, found)->Ok_0.0,
            structures_from(tokens, pos, found)->Ok_0.0.len() as int,
        ) == forest_tokens(found, found.len() as int) + tokens.subrange(
            pos,
            structures_from(tokens, pos, found)->Ok_0.1,
        ),
    decreases tokens.len() - pos, 1int,
{
    let (all, end) = structures_from(tokens, pos, found)->Ok_0;
    if starts_at(tokens, pos, "structure"@) {
        let (s, next) = structure_at(tokens, pos)->Ok_0;
        lemma_structure_sound(tokens, pos);
        lemma_structures_sound(tokens, next, found.push(s));
        lemma_forest_tokens_prefix(found.push(s), found, found.len() as int);
        assert(tokens.subrange(pos, end) =~= tokens.subrange(pos, next) + tokens.subrange(
            next,
            end,
        ));
        assert(forest_tokens(all, all.len() as int) =~= forest_tokens(found, found.len() as int)
            + tokens.subrange(pos, end));
    } else {
        assert(tokens.subrange(pos, pos) =~= Seq::empty());
        assert(forest_tokens(found, found.len() as int) + Seq::empty() =~= forest_tokens(
            found,
            found.len() as int,
        ));
    }
}

/// Writing undoes reading: the forest that is read from a stream is written
/// as that stream.
pub proof fn lemma_reading_is_sound(tokens: Seq<TokenView>)
    requires
        forest_of(tokens) is Ok,
    ensures
        forest_tokens(forest_of(tokens)->Ok_0, forest_of(tokens)->Ok_0.len() as int) == tokens,
{
    lemma_structures_sound(tokens, 0, Seq::empty());
    let forest = forest_of(tokens)->Ok_0;
    assert(tokens.subrange(0, tokens.len() as int) =~= tokens);
    assert(Seq::<TokenView>::empty() + tokens =~= tokens);
}

/// The tokens that the properties of a list from one position to another
/// are written as.
pub open spec fn properties_between(properties: Seq<PropertyView>, i: int, n: int) -> Seq<
    TokenView,
>
    decreases n - i,
{
    if i < 0 || i >= n || n > properties.len() {
        Seq::empty()
    } else {
        property_tokens(properties[i]) + properties_between(properties, i + 1, n)
    }
}

/// The tokens that the values of a list from one position to another are
/// written as.
pub open spec fn data_between(data: Seq<DatumView>, i: int, n: int) -> Seq<TokenView>
    decreases n - i,
{
    if i < 0 || i >= n || n > data.len() {
        Seq::empty()
    } else {
        seq![datum_token(data[i])] + data_between(data, i + 1, n)
    }
}

/// The tokens that the structures of a list from one position to another
/// are written as.
pub open spec fn forest_between(forest: Seq<StructureView>, i: int, n: int) -> Seq<TokenView>
    decreases n - i,
{
    if i < 0 || i >= n || n > forest.len() {
        Seq::empty()
    } else {
        structure_tokens(forest[i]) + forest_between(forest, i + 1, n)
    }
}

proof fn lemma_properties_between_last(properties: Seq<PropertyView>, i: int, n: int)
    requires
        0 <= i < n <= properties.len(),
    ensures
        properties_between(properties, i, n) == properties_between(properties, i, n - 1)
            + property_tokens(properties[n - 1]),
    decreases n - i,
{
    let first = property_tokens(properties[i]);
    let last = property_tokens(properties[n - 1]);
    if i + 1 < n {
        lemma_properties_between_last(properties, i + 1, n);
        let middle = properties_between(properties, i + 1, n - 1);
        assert(properties_between(properties, i, n - 1) == first + middle);
        assert(first + (middle + last) =~= (first + middle) + last);
    } else {
        assert(properties_between(properties, i + 1, n) =~= Seq::empty());
        assert(properties_between(properties, i, n - 1) =~= Seq::empty());
        assert(first + Seq::empty() =~= Seq::empty() + last);
    }
}

proof fn lemma_data_between_last(data: Seq<DatumView>, i: int, n: int)
    requires
        0 <= i < n <= data.len(),
    ensures
        data_between(data, i, n) == data_between(data, i, n - 1).push(datum_token(data[n - 1])),
    decreases n - i,
{
    let first = seq![datum_token(data[i])];
    let last = datum_token(data[n - 1]);
    if i + 1 < n {
        lemma_data_between_last(data, i + 1, n);
        let middle = data_between(data, i + 1, n - 1);
        assert(data_between(data, i, n - 1) == first + middle);
        assert(first + middle.push(last) =~= (first + middle).push(last));
    } else {
        assert(data_between(data, i + 1, n) =~= Seq::empty());
        assert(data_between(data, i, n - 1) =~= Seq::empty());
        assert(first + Seq::empty() =~= Seq::<TokenView>::empty().push(last));
    }
}

proof fn lemma_forest_between_last(forest: Seq<StructureView>, i: int, n: int)
    requires
        0 <= i < n <= forest.len(),
    ensures
        forest_between(forest, i, n) == forest_between(forest, i, n - 1) + structure_tokens(
            forest[n - 1],
        ),
    decreases n - i,
{
    let first = structure_tokens(forest[i]);
    let last = structure_tokens(forest[n - 1]);
    if i + 1 < n {
        lemma_forest_between_last(forest, i + 1, n);
        let middle = forest_between(forest, i + 1, n - 1);
        assert(forest_between(forest, i, n - 1) == first + middle);
        assert(first + (middle + last) =~= (first + middle) + last);
    } else {
        assert(forest_between(forest, i + 1, n) =~= Seq::empty());
        assert(forest_between(forest, i, n - 1) =~= Seq::empty());
        assert(first + Seq::empty() =~= Seq::empty() + last);
    }
}

/// The tokens of the first properties are the tokens from the first
/// property on.
pub proof fn lemma_properties_from_the_first(properties: Seq<PropertyView>, n: int)
    requires
        0 <= n <= properties.len(),
    ensures
        properties_tokens(properties, n) == properties_between(properties, 0, n),
    decreases n,
{
    if n > 0 {
        lemma_properties_from_the_first(properties, n - 1);
        lemma_properties_between_last(properties, 0, n);
    }
}

/// The tokens of the first values are the tokens from the first value on.
pub proof fn lemma_data_from_the_first(data: Seq<DatumView>, n: int)
    requires
        0 <= n <= data.len(),
    ensures
        data_tokens(data, n) == data_between(data, 0, n),
    decreases n,
{
    if n > 0 {
        lemma_data_from_the_first(data, n - 1);
        lemma_data_between_last(data, 0, n);
    }
}

/// The tokens of the first structures are the tokens from the first
/// structure on.
pub proof fn lemma_forest_from_the_first(forest: Seq<StructureView>, n: int)
    requires
        0 <= n <= forest.len(),
    ensures
        forest_tokens(forest, n) == forest_between(forest, 0, n),
    decreases n,
{
    if n > 0 {
        lemma_forest_from_the_first(forest, n - 1);
        lemma_forest_between_last(forest, 0, n);
    }
}

/// A part of a stream that is two sequences, one after the other, holds the
/// first where it starts and the second behind the first.
pub proof fn lemma_split(
    tokens: Seq<TokenView>,
    from: int,
    to: int,
    first: Seq<TokenView>,
    second: Seq<TokenView>,
)
    requires
        0 <= from <= to <= tokens.len(),
        tokens.subrange(from, to) == first + second,
    ensures
        from + first.len() + second.len() == to,
        tokens.subrange(from, from + first.len()) == first,
        tokens.subrange(from + first.len(), to) == second,
{
    let whole = tokens.subrange(from, to);
    assert(whole.len() == first.len() + second.len());
    assert forall|i: int| 0 <= i < first.len() implies tokens[from + i] == first[i] by {
        assert(whole[i] == first[i]);
    }
    assert forall|i: int| 0 <= i < second.len() implies tokens[from + first.len() + i]
        == second[i] by {
        assert(whole[first.len() + i] == second[i]);
    }
    assert(tokens.subrange(from, from + first.len()) =~= first);
    assert(tokens.subrange(from + first.len(), to) =~= second);
}

/// The names of the tokens differ where the reading tells them apart.
pub proof fn lemma_token_names_differ()
    ensures
        "property"@ != "structure"@,
        "text"@ != "ref"@,
        "text"@ != "name"@,
        "ref"@ != "name"@,
{
    reveal_strlit("property");
    reveal_strlit("structure");
    reveal_strlit("text");
    reveal_strlit("ref");
    reveal_strlit("name");
    assert("property"@.len() != "structure"@.len());
    assert("text"@.len() != "ref"@.len());
    assert("text"@[0] != "name"@[0]);
    assert("ref"@.len() != "name"@.len());
}

/// The token of a value is read as the value, and is no name.
pub proof fn lemma_datum_token_read(tokens: Seq<TokenView>, pos: int, d: DatumView)
    requires
        0 <= pos < tokens.len(),
        tokens[pos] == datum_token(d),
    ensures
        datum_at(tokens, pos) == Some(d),
        text_at(tokens, pos, "name"@) is None,
        !starts_at(tokens, pos, "property"@),
        !starts_at(tokens, pos, "structure"@),
{
    lemma_token_names_differ();
}

/// Properties that are written in a stream, with no property behind them,
/// are read as they are.
pub proof fn lemma_properties_complete(
    tokens: Seq<TokenView>,
    pos: int,
    end: int,
    all: Seq<PropertyView>,
    i: int,
)
    requires
        0 <= i <= all.len(),
        0 <= pos <= end <= tokens.len(),
        tokens.subrange(pos, end) == properties_between(all, i, all.len() as int),
        !starts_at(tokens, end, "property"@),
    ensures
        properties_from(tokens, pos, all.take(i)) == Ok::<(Seq<PropertyView>, int), ErrorView>(
            (all, end),
        ),
    decreases all.len() - i,
{
    if i < all.len() {
        let p = all[i];
        lemma_split(
            tokens,
            pos,
            end,
            property_tokens(p),
            properties_between(all, i + 1, all.len() as int),
        );
        let here = tokens.subrange(pos, pos + 4);
        assert(here[0] == tokens[pos]);
        assert(here[1] == tokens[pos + 1]);
        assert(here[2] == tokens[pos + 2]);
        assert(here[3] == tokens[pos + 3]);
        lemma_datum_token_read(tokens, pos + 2, p.value);
        assert(property_at(tokens, pos) == Ok::<PropertyView, ErrorView>(p));
        lemma_properties_complete(tokens, pos + 4, end, all, i + 1);
        assert(all.take(i).push(p) =~= all.take(i + 1));
    } else {
        assert(tokens.subrange(pos, end).len() == 0);
        assert(all.take(i) =~= all);
    }
}

/// Values that are written in a stream, with no value behind them, are read
/// as they are.
pub proof fn lemma_data_complete(
    tokens: Seq<TokenView>,
    pos: int,
    end: int,
    all: Seq<DatumView>,
    i: int,
)
    requires
        0 <= i <= all.len(),
        0 <= pos <= end <= tokens.len(),
        tokens.subrange(pos, end) == data_between(all, i, all.len() as int),
        datum_at(tokens, end) is None,
    ensures
        data_from(tokens, pos, all.take(i)) == (all, end),
    decreases all.len() - i,
{
    if i < all.len() {
        let d = all[i];
        lemma_split(
            tokens,
            pos,
            end,
            seq![datum_token(d)],
            data_between(all, i + 1, all.len() as int),
        );
        let here = tokens.subrange(pos, pos + 1);
        assert(here[0] == tokens[pos]);
        lemma_datum_token_read(tokens, pos, d);
        lemma_data_complete(tokens, pos + 1, end, all, i + 1);
        assert(all.take(i).push(d) =~= all.take(i + 1));
    } else {
        assert(tokens.subrange(pos, end).len() == 0);
        assert(all.take(i) =~= all);
    }
}

/// What follows the name of a structure, as far as its end.
pub open spec fn after_name_tokens(s: StructureView) -> Seq<TokenView> {
    properties_between(s.properties, 0, s.properties.len() as int) + after_properties_tokens(s)
}

/// What follows the properties of a structure, as far as its end.
pub open spec fn after_properties_tokens(s: StructureView) -> Seq<TokenView> {
    data_between(s.data, 0, s.data.len() as int) + after_data_tokens(s)
}

/// What follows the data of a structure, as far as its end.
pub open spec fn after_data_tokens(s: StructureView) -> Seq<TokenView> {
    forest_between(s.children, 0, s.children.len() as int) + seq![
        TokenView::EndNode("structure"@),
    ]
}

/// The tokens of a structure, part by part.
pub proof fn lemma_structure_tokens_parts(s: StructureView)
    ensures
        structure_tokens(s) == seq![
            TokenView::StartNode("structure"@),
            TokenView::Text("tag"@, s.tag),
        ] + (name_tokens(s.name) + after_name_tokens(s)),
{
    lemma_properties_from_the_first(s.properties, s.properties.len() as int);
    lemma_data_from_the_first(s.data, s.data.len() as int);
    lemma_forest_from_the_first(s.children, s.children.len() as int);
    assert(structure_tokens(s) =~= seq![
        TokenView::StartNode("structure"@),
        TokenView::Text("tag"@, s.tag),
    ] + (name_tokens(s.name) + after_name_tokens(s)));
}

/// What follows the data of a structure starts with no value.
pub proof fn lemma_after_data_first(s: StructureView)
    ensures
        after_data_tokens(s).len() > 0,
        after_data_tokens(s)[0] == TokenView::StartNode("structure"@) || after_data_tokens(s)[0]
            == TokenView::EndNode("structure"@),
{
    if s.children.len() > 0 {
        lemma_structure_tokens_parts(s.children[0]);
        assert(structure_tokens(s.children[0])[0] == TokenView::StartNode("structure"@));
        assert(after_data_tokens(s)[0] == structure_tokens(s.children[0])[0]);
    }
}

/// What follows the properties of a structure starts with no property and
/// with no name.
pub proof fn lemma_after_properties_first(s: StructureView)
    ensures
        after_properties_tokens(s).len() > 0,
        ({
            let first = after_properties_tokens(s)[0];
            ||| first == TokenView::StartNode("structure"@)
            ||| first == TokenView::EndNode("structure"@)
            ||| s.data.len() > 0 && first == datum_token(s.data[0])
        }),
{
    lemma_after_data_first(s);
    if s.data.len() > 0 {
        assert(after_properties_tokens(s)[0] == datum_token(s.data[0]));
    } else {
        assert(after_properties_tokens(s)[0] == after_data_tokens(s)[0]);
    }
}

/// What follows the name of a structure starts with no name.
pub proof fn lemma_after_name_first(s: StructureView)
    ensures
        after_name_tokens(s).len() > 0,
        ({
            let first = after_name_tokens(s)[0];
            ||| first == TokenView::StartNode("property"@)
            ||| first == TokenView::StartNode("structure"@)
            ||| first == TokenView::EndNode("structure"@)
            ||| s.data.len() > 0 && first == datum_token(s.data[0])
        }),
{
    lemma_after_properties_first(s);
    if s.properties.len() > 0 {
        assert(after_name_tokens(s)[0] == property_tokens(s.properties[0])[0]);
    } else {
        assert(after_name_tokens(s)[0] == after_properties_tokens(s)[0]);
    }
}

/// A structure that is written in a stream is read as it is.
pub proof fn lemma_structure_complete(tokens: Seq<TokenView>, pos: int, s: StructureView)
    requires
        0 <= pos,
        pos + structure_tokens(s).len() <= tokens.len(),
        tokens.subrange(pos, pos + structure_tokens(s).len()) == structure_tokens(s),
    ensures
        starts_at(tokens, pos, "structure"@),
        structure_at(tokens, pos) == Ok::<(StructureView, int), ErrorView>(
            (s, pos + structure_tokens(s).len()),
        ),
    decreases s, 0int,
{
    lemma_token_names_differ();
    let end = pos + structure_tokens(s).len();
    let head = seq![TokenView::StartNode("structure"@), TokenView::Text("tag"@, s.tag)];
    lemma_structure_tokens_parts(s);
    lemma_split(tokens, pos, end, head, name_tokens(s.name) + after_name_tokens(s));
    let here = tokens.subrange(pos, pos + 2);
    assert(here[0] == tokens[pos]);
    assert(here[1] == tokens[pos + 1]);
    lemma_split(tokens, pos + 2, end, name_tokens(s.name), after_name_tokens(s));
    let after_name = pos + 2 + name_tokens(s.name).len();
    lemma_after_name_first(s);
    lemma_after_properties_first(s);
    lemma_after_data_first(s);
    assert(tokens.subrange(after_name, end)[0] == tokens[after_name]);
    if s.name is Some {
        let named = tokens.subrange(pos + 2, pos + 3);
        assert(named[0] == tokens[pos + 2]);
    } else {
        if s.data.len() > 0 && tokens[after_name] == datum_token(s.data[0]) {
            lemma_datum_token_read(tokens, after_name, s.data[0]);
        }
    }
    assert(text_at(tokens, pos + 2, "name"@) == s.name);
    lemma_split(
        tokens,
        after_name,
        end,
        properties_between(s.properties, 0, s.properties.len() as int),
        after_properties_tokens(s),
    );
    let after_properties = after_name + properties_between(
        s.properties,
        0,
        s.properties.len() as int,
    ).len();
    assert(tokens.subrange(after_properties, end)[0] == tokens[after_properties]);
    if s.data.len() > 0 && tokens[after_properties] == datum_token(s.data[0]) {
        lemma_datum_token_read(tokens, after_properties, s.data[0]);
    }
    lemma_properties_complete(tokens, after_name, after_properties, s.properties, 0);
    assert(s.properties.take(0) =~= Seq::empty());
    lemma_split(
        tokens,
        after_properties,
        end,
        data_between(s.data, 0, s.data.len() as int),
        after_data_tokens(s),
    );
    let after_data = after_properties + data_between(s.data, 0, s.data.len() as int).len();
    assert(tokens.subrange(after_data, end)[0] == tokens[after_data]);
    lemma_data_complete(tokens, after_properties, after_data, s.data, 0);
    assert(s.data.take(0) =~= Seq::empty());
    lemma_split(
        tokens,
        after_data,
        end,
        forest_between(s.children, 0, s.children.len() as int),
        seq![TokenView::EndNode("structure"@)],
    );
    let after_children = end - 1;
    assert(tokens.subrange(after_children, end)[0] == tokens[after_children]);
    lemma_structures_complete(tokens, after_data, after_children, s.children, 0);
    assert(s.children.take(0) =~= Seq::empty());
}

/// Structures that are written in a stream, with no structure behind them,
/// are read as they are.
pub proof fn lemma_structures_complete(
    tokens: Seq<TokenView>,
    pos: int,
    end: int,
    all: Seq<StructureView>,
    i: int,
)
    requires
        0 <= i <= all.len(),
        0 <= pos <= end <= tokens.len(),
        tokens.subrange(pos, end) == forest_between(all, i, all.len() as int),
        !starts_at(tokens, end, "structure"@),
    ensures
        structures_from(tokens, pos, all.take(i)) == Ok::<(Seq<StructureView>, int), ErrorView>(
            (all, end),
        ),
    decreases all, all.len() - i,
{
    if i < all.len() {
        let s = all[i];
        lemma_split(
            tokens,
            pos,
            end,
            structure_tokens(s),
            forest_between(all, i + 1, all.len() as int),
        );
        lemma_structure_complete(tokens, pos, s);
        let next = pos + structure_tokens(s).len();
        lemma_structure_tokens_parts(s);
        lemma_structures_complete(tokens, next, end, all, i + 1);
        assert(all.take(i).push(s) =~= all.take(i + 1));
    } else {
        assert(tokens.subrange(pos, end).len() == 0);
        assert(all.take(i) =~= all);
    }
}

/// Reading undoes writing: the stream that a forest is written as is read
/// as that forest. With [`lemma_reading_is_sound`]: a stream is read as a
/// forest exactly if it is the stream of a forest, and then as that forest.
pub proof fn lemma_reading_is_complete(forest: Seq<StructureView>)
    ensures
        forest_of(forest_tokens(forest, forest.len() as int)) == Ok::<
            Seq<StructureView>,
            ErrorView,
        >(forest),
{
    let tokens = forest_tokens(forest, forest.len() as int);
    lemma_forest_from_the_first(forest, forest.len() as int);
    assert(tokens.subrange(0, tokens.len() as int) =~= tokens);
    lemma_structures_complete(tokens, 0, tokens.len() as int, forest, 0);
    assert(forest.take(0) =~= Seq::empty());
}

} // verus!
