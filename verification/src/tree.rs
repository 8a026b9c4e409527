//! The tree of structures that a document is, and its reading from the flat
//! token stream of the grammar engine.
//!
//! The stream nests: a structure starts with a `structure` node, states its
//! tag and, where it has one, its name, then holds its properties, its data
//! and its child structures, in this order, and ends. A property is a
//! `property` node with a key and one value.

use vstd::prelude::*;
use crate::error::{result_view, AssemblyError, ErrorView};
use crate::scalar::Scalar;
use crate::text::text_eq;

verus! {

/// One token of the stream, as the grammar engine delivers it.
#[derive(Clone, PartialEq, Eq, Debug)]
pub enum Token {
    /// A node starts.
    StartNode(String),
    /// A node ends.
    EndNode(String),
    /// A truth value under a name.
    Bool(String, bool),
    /// A number under a name.
    Number(String, Scalar),
    /// A text under a name.
    Text(String, String),
}

/// The mathematical value of a [`Token`].
pub enum TokenView {
    StartNode(Seq<char>),
    EndNode(Seq<char>),
    Bool(Seq<char>, bool),
    Number(Seq<char>, Scalar),
    Text(Seq<char>, Seq<char>),
}

impl View for Token {
    type V = TokenView;

    open spec fn view(&self) -> TokenView {
        match *self {
            Token::StartNode(name) => TokenView::StartNode(name@),
            Token::EndNode(name) => TokenView::EndNode(name@),
            Token::Bool(name, value) => TokenView::Bool(name@, value),
            Token::Number(name, value) => TokenView::Number(name@, value),
            Token::Text(name, value) => TokenView::Text(name@, value@),
        }
    }
}

/// One value of a property or of a data list.
#[derive(Clone, PartialEq, Eq, Debug)]
pub enum Datum {
    Bool(bool),
    Number(Scalar),
    Text(String),
    /// The name of another structure.
    Reference(String),
}

/// The mathematical value of a [`Datum`].
pub enum DatumView {
    Bool(bool),
    Number(Scalar),
    Text(Seq<char>),
    Reference(Seq<char>),
}

impl View for Datum {
    type V = DatumView;

    open spec fn view(&self) -> DatumView {
        match *self {
            Datum::Bool(b) => DatumView::Bool(b),
            Datum::Number(n) => DatumView::Number(n),
            Datum::Text(t) => DatumView::Text(t@),
            Datum::Reference(r) => DatumView::Reference(r@),
        }
    }
}

/// A property of a structure: a key and its value.
#[derive(Clone, PartialEq, Eq, Debug)]
pub struct Property {
    pub key: String,
    pub value: Datum,
}

/// The mathematical value of a [`Property`].
pub struct PropertyView {
    pub key: Seq<char>,
    pub value: DatumView,
}

impl View for Property {
    type V = PropertyView;

    open spec fn view(&self) -> PropertyView {
        PropertyView { key: self.key@, value: self.value@ }
    }
}

/// A structure of a document: a tagged node with its name, its properties,
/// its data and its child structures, each in the order of the document.
#[derive(PartialEq, Eq, Debug)]
pub struct Structure {
    pub tag: String,
    pub name: Option<String>,
    pub properties: Vec<Property>,
    pub data: Vec<Datum>,
    pub children: Vec<Structure>,
}

/// The mathematical value of a [`Structure`].
pub struct StructureView {
    pub tag: Seq<char>,
    pub name: Option<Seq<char>>,
    pub properties: Seq<PropertyView>,
    pub data: Seq<DatumView>,
    pub children: Seq<StructureView>,
}

impl View for Structure {
    type V = StructureView;

    open spec fn view(&self) -> StructureView
        decreases self, 0int,
    {
        StructureView {
            tag: self.tag@,
            name: match self.name {
                Some(n) => Some(n@),
                None => None,
            },
            properties: self.properties@.map_values(|p: Property| p@),
            data: self.data@.map_values(|d: Datum| d@),
            children: first_views(self.children@, self.children@.len() as int),
        }
    }
}

/// The values of the first `n` structures of a sequence.
pub open spec fn first_views(forest: Seq<Structure>, n: int) -> Seq<StructureView>
    decreases forest, n,
{
    if n <= 0 || n > forest.len() {
        Seq::empty()
    } else {
        first_views(forest, n - 1).push(forest[n - 1]@)
    }
}

/// The values of the structures of a sequence.
pub open spec fn forest_view(forest: Seq<Structure>) -> Seq<StructureView> {
    forest.map_values(|s: Structure| s@)
}

/// The values of the tokens of a sequence.
pub open spec fn token_views(tokens: Seq<Token>) -> Seq<TokenView> {
    tokens.map_values(|t: Token| t@)
}

/// Whether the lists of child structures in a structure, at every depth,
/// are no longer than a list in memory can be.
pub open spec fn fits(s: StructureView) -> bool
    decreases s, 0int,
{
    s.children.len() <= usize::MAX && all_fit(s.children, s.children.len() as int)
}

/// Whether the first `n` structures of a list fit.
pub open spec fn all_fit(forest: Seq<StructureView>, n: int) -> bool
    decreases forest, n,
{
    if n <= 0 || n > forest.len() {
        true
    } else {
        all_fit(forest, n - 1) && fits(forest[n - 1])
    }
}

/// The value of a structure in memory fits.
pub proof fn lemma_structure_fits(s: Structure)
    ensures
        fits(s@),
    decreases s, 0int,
{
    lemma_children_view(s);
    lemma_forest_fits(s.children@, s.children@.len() as int);
    assert(s.children@.len() == s.children.len());
    assert(s@.children.len() == s.children@.len());
}

/// The values of structures in memory fit.
pub proof fn lemma_forest_fits(forest: Seq<Structure>, n: int)
    requires
        0 <= n <= forest.len(),
    ensures
        all_fit(forest_view(forest), n),
    decreases forest, n,
{
    if n > 0 {
        lemma_forest_fits(forest, n - 1);
        lemma_structure_fits(forest[n - 1]);
    }
}

/// Whether the token at a position starts a node of this name.
pub open spec fn starts_at(tokens: Seq<TokenView>, pos: int, name: Seq<char>) -> bool {
    0 <= pos < tokens.len() && tokens[pos] == TokenView::StartNode(name)
}

/// Whether the token at a position ends a node of this name.
pub open spec fn ends_at(tokens: Seq<TokenView>, pos: int, name: Seq<char>) -> bool {
    0 <= pos < tokens.len() && tokens[pos] == TokenView::EndNode(name)
}

/// The text that stands under this name at a position.
pub open spec fn text_at(tokens: Seq<TokenView>, pos: int, name: Seq<char>) -> Option<Seq<char>> {
    if 0 <= pos < tokens.len() {
        match tokens[pos] {
            TokenView::Text(n, value) => if n == name {
                Some(value)
            } else {
                None
            },
            _ => None,
        }
    } else {
        None
    }
}

/// The value that a token is: a truth value under `flag`, a number under
/// `number`, a text under `text`, or a reference under `ref`.
pub open spec fn datum_of(token: TokenView) -> Option<DatumView> {
    match token {
        TokenView::Bool(n, b) => if n == "flag"@ {
            Some(DatumView::Bool(b))
        } else {
            None
        },
        TokenView::Number(n, v) => if n == "number"@ {
            Some(DatumView::Number(v))
        } else {
            None
        },
        TokenView::Text(n, t) => if n == "text"@ {
            Some(DatumView::Text(t))
        } else if n == "ref"@ {
            Some(DatumView::Reference(t))
        } else {
            None
        },
        _ => None,
    }
}

/// The value that stands at a position.
pub open spec fn datum_at(tokens: Seq<TokenView>, pos: int) -> Option<DatumView> {
    if 0 <= pos < tokens.len() {
        datum_of(tokens[pos])
    } else {
        None
    }
}

/// The failure at a position of the stream.
pub open spec fn unexpected(pos: int) -> ErrorView {
    ErrorView::UnexpectedToken { position: pos as usize }
}

/// The property that starts at a position: the start of a `property` node,
/// its key, its value and its end.
pub open spec fn property_at(tokens: Seq<TokenView>, pos: int) -> Result<PropertyView, ErrorView> {
    match text_at(tokens, pos + 1, "key"@) {
        None => Err(unexpected(pos + 1)),
        Some(key) => match datum_at(tokens, pos + 2) {
            None => Err(unexpected(pos + 2)),
            Some(value) => if ends_at(tokens, pos + 3, "property"@) {
                Ok(PropertyView { key, value })
            } else {
                Err(unexpected(pos + 3))
            },
        },
    }
}

/// The properties that follow each other from a position, after those of
/// `found`, and the position behind them.
pub open spec fn properties_from(
    tokens: Seq<TokenView>,
    pos: int,
    found: Seq<PropertyView>,
) -> Result<(Seq<PropertyView>, int), ErrorView>
    decreases tokens.len() - pos,
{
    if starts_at(tokens, pos, "property"@) {
        match property_at(tokens, pos) {
            Err(e) => Err(e),
            Ok(p) => properties_from(tokens, pos + 4, found.push(p)),
        }
    } else {
        Ok((found, pos))
    }
}

/// The values that follow each other from a position, after those of
/// `found`, and the position behind them.
pub open spec fn data_from(tokens: Seq<TokenView>, pos: int, found: Seq<DatumView>) -> (Seq<
    DatumView,
>, int)
    decreases tokens.len() - pos,
{
    match datum_at(tokens, pos) {
        Some(d) => data_from(tokens, pos + 1, found.push(d)),
        None => (found, pos),
    }
}

/// The structure that starts at a position, and the position behind it.
///
/// The two tests of progress never fail: what was read ends behind where it
/// started, and within the stream. They are here so that the definition is
/// well founded.
pub open spec fn structure_at(tokens: Seq<TokenView>, pos: int) -> Result<
    (StructureView, int),
    ErrorView,
>
    decreases tokens.len() - pos, 0int,
{
    match text_at(tokens, pos + 1, "tag"@) {
        None => Err(unexpected(pos + 1)),
        Some(tag) => {
            let name = text_at(tokens, pos + 2, "name"@);
            let after_name = if name is Some {
                pos + 3
            } else {
                pos + 2
            };
            match properties_from(tokens, after_name, Seq::empty()) {
                Err(e) => Err(e),
                Ok((properties, after_properties)) => {
                    let (data, after_data) = data_from(tokens, after_properties, Seq::empty());
                    if pos < after_data <= tokens.len() {
                        match structures_from(tokens, after_data, Seq::empty()) {
                            Err(e) => Err(e),
                            Ok((children, after_children)) => if ends_at(
                                tokens,
                                after_children,
                                "structure"@,
                            ) {
                                Ok(
                                    (
                                        StructureView { tag, name, properties, data, children },
                                        after_children + 1,
                                    ),
                                )
                            } else {
                                Err(unexpected(after_children))
                            },
                        }
                    } else {
                        Err(unexpected(pos))
                    }
                },
            }
        },
    }
}

/// The structures that follow each other from a position, after those of
/// `found`, and the position behind them.
pub open spec fn structures_from(
    tokens: Seq<TokenView>,
    pos: int,
    found: Seq<StructureView>,
) -> Result<(Seq<StructureView>, int), ErrorView>
    decreases tokens.len() - pos, 1int,
{
    if starts_at(tokens, pos, "structure"@) {
        match structure_at(tokens, pos) {
            Err(e) => Err(e),
            Ok((s, next)) => if pos < next <= tokens.len() {
                structures_from(tokens, next, found.push(s))
            } else {
                Err(unexpected(pos))
            },
        }
    } else {
        Ok((found, pos))
    }
}

/// The forest that a stream of tokens is: its structures, which fill the
/// stream from its first token to its last.
pub open spec fn forest_of(tokens: Seq<TokenView>) -> Result<Seq<StructureView>, ErrorView> {
    match structures_from(tokens, 0, Seq::empty()) {
        Err(e) => Err(e),
        Ok((forest, end)) => if end == tokens.len() {
            Ok(forest)
        } else {
            Err(unexpected(end))
        },
    }
}

/// The values of the first structures of a sequence are the first values of
/// the sequence.
pub proof fn lemma_first_views(forest: Seq<Structure>, n: int)
    requires
        0 <= n <= forest.len(),
    ensures
        first_views(forest, n) == forest_view(forest).take(n),
    decreases n,
{
    if n > 0 {
        lemma_first_views(forest, n - 1);
        assert(forest_view(forest)[n - 1] == forest[n - 1]@);
        assert(forest_view(forest).take(n - 1).push(forest[n - 1]@) =~= forest_view(forest).take(
            n,
        ));
    } else {
        assert(first_views(forest, n) =~= forest_view(forest).take(n));
    }
}

/// The children of a structure have the values that its value holds.
pub proof fn lemma_children_view(s: Structure)
    ensures
        s@.children == forest_view(s.children@),
{
    lemma_first_views(s.children@, s.children@.len() as int);
    assert(forest_view(s.children@).take(s.children@.len() as int) =~= forest_view(s.children@));
}

fn unexpected_token(pos: usize) -> (e: AssemblyError)
    ensures
        e@ == unexpected(pos as int),
{
    AssemblyError::UnexpectedToken { position: pos }
}

fn token_starts(tokens: &Vec<Token>, pos: usize, name: &str) -> (found: bool)
    ensures
        found == starts_at(token_views(tokens@), pos as int, name@),
{
    if pos >= tokens.len() {
        return false;
    }
    match &tokens[pos] {
        Token::StartNode(n) => text_eq(n.as_str(), name),
        _ => false,
    }
}

fn token_ends(tokens: &Vec<Token>, pos: usize, name: &str) -> (found: bool)
    ensures
        found == ends_at(token_views(tokens@), pos as int, name@),
{
    if pos >= tokens.len() {
        return false;
    }
    match &tokens[pos] {
        Token::EndNode(n) => text_eq(n.as_str(), name),
        _ => false,
    }
}

fn token_text(tokens: &Vec<Token>, pos: usize, name: &str) -> (text: Option<String>)
    ensures
        crate::table::name_text(text) == text_at(token_views(tokens@), pos as int, name@),
{
    if pos >= tokens.len() {
        return None;
    }
    match &tokens[pos] {
        Token::Text(n, value) => if text_eq(n.as_str(), name) {
            Some(value.clone())
        } else {
            None
        },
        _ => None,
    }
}

/// The value of a datum, where there is one.
pub open spec fn datum_view(datum: Option<Datum>) -> Option<DatumView> {
    match datum {
        Some(d) => Some(d@),
        None => None,
    }
}

fn token_datum(tokens: &Vec<Token>, pos: usize) -> (datum: Option<Datum>)
    ensures
        datum_view(datum) == datum_at(token_views(tokens@), pos as int),
{
    if pos >= tokens.len() {
        return None;
    }
    match &tokens[pos] {
        Token::Bool(n, b) => if text_eq(n.as_str(), "flag") {
            Some(Datum::Bool(*b))
        } else {
            None
        },
        Token::Number(n, v) => if text_eq(n.as_str(), "number") {
            Some(Datum::Number(*v))
        } else {
            None
        },
        Token::Text(n, t) => if text_eq(n.as_str(), "text") {
            Some(Datum::Text(t.clone()))
        } else if text_eq(n.as_str(), "ref") {
            Some(Datum::Reference(t.clone()))
        } else {
            None
        },
        _ => None,
    }
}

fn read_property(tokens: &Vec<Token>, pos: usize) -> (r: Result<Property, AssemblyError>)
    requires
        starts_at(token_views(tokens@), pos as int, "property"@),
    ensures
        result_view(r) == property_at(token_views(tokens@), pos as int),
        r is Ok ==> pos + 4 <= tokens.len(),
{
    assert(token_views(tokens@).len() == tokens@.len());
    assert(pos < tokens.len());
    let key = match token_text(tokens, pos + 1, "key") {
        Some(key) => key,
        None => {
            return Err(unexpected_token(pos + 1));
        },
    };
    let value = match token_datum(tokens, pos + 2) {
        Some(value) => value,
        None => {
            return Err(unexpected_token(pos + 2));
        },
    };
    if !token_ends(tokens, pos + 3, "property") {
        return Err(unexpected_token(pos + 3));
    }
    Ok(Property { key, value })
}

fn read_properties(tokens: &Vec<Token>, start: usize) -> (r: Result<
    (Vec<Property>, usize),
    AssemblyError,
>)
    requires
        start <= tokens.len(),
    ensures
        match r {
            Ok((properties, next)) => {
                &&& properties_from(token_views(tokens@), start as int, Seq::empty()) == Ok::<
                    (Seq<PropertyView>, int),
                    ErrorView,
                >((properties@.map_values(|p: Property| p@), next as int))
                &&& start <= next <= tokens.len()
            },
            Err(e) => properties_from(token_views(tokens@), start as int, Seq::empty()) == Err::<
                (Seq<PropertyView>, int),
                ErrorView,
            >(e@),
        },
{
    let mut properties: Vec<Property> = Vec::new();
    let mut pos = start;
    assert(properties@.map_values(|p: Property| p@) =~= Seq::empty());
    while token_starts(tokens, pos, "property")
        invariant
            start <= pos <= tokens.len(),
            properties_from(token_views(tokens@), start as int, Seq::empty()) == properties_from(
                token_views(tokens@),
                pos as int,
                properties@.map_values(|p: Property| p@),
            ),
        decreases tokens.len() - pos,
    {
        match read_property(tokens, pos) {
            Err(e) => {
                return Err(e);
            },
            Ok(p) => {
                proof {
                    let f = |p: Property| p@;
                    assert(properties@.push(p).map_values(f) =~= properties@.map_values(f).push(
                        p@,
                    ));
                }
                properties.push(p);
                pos += 4;
            },
        }
    }
    Ok((properties, pos))
}

fn read_data(tokens: &Vec<Token>, start: usize) -> (r: (Vec<Datum>, usize))
    requires
        start <= tokens.len(),
    ensures
        data_from(token_views(tokens@), start as int, Seq::empty()) == (
            r.0@.map_values(|d: Datum| d@),
            r.1 as int,
        ),
        start <= r.1 <= tokens.len(),
{
    let mut data: Vec<Datum> = Vec::new();
    let mut pos = start;
    assert(data@.map_values(|d: Datum| d@) =~= Seq::empty());
    loop
        invariant
            start <= pos <= tokens.len(),
            data_from(token_views(tokens@), start as int, Seq::empty()) == data_from(
                token_views(tokens@),
                pos as int,
                data@.map_values(|d: Datum| d@),
            ),
        decreases tokens.len() - pos,
    {
        match token_datum(tokens, pos) {
            None => {
                return (data, pos);
            },
            Some(d) => {
                proof {
                    let f = |d: Datum| d@;
                    assert(data@.push(d).map_values(f) =~= data@.map_values(f).push(d@));
                }
                data.push(d);
                pos += 1;
            },
        }
    }
}

fn read_structure(tokens: &Vec<Token>, pos: usize) -> (r: Result<(Structure, usize), AssemblyError>)
    requires
        starts_at(token_views(tokens@), pos as int, "structure"@),
    ensures
        match r {
            Ok((s, next)) => {
                &&& structure_at(token_views(tokens@), pos as int) == Ok::<
                    (StructureView, int),
                    ErrorView,
                >((s@, next as int))
                &&& pos < next <= tokens.len()
            },
            Err(e) => structure_at(token_views(tokens@), pos as int) == Err::<
                (StructureView, int),
                ErrorView,
            >(e@),
        },
    decreases tokens.len() - pos, 0int,
{
    assert(token_views(tokens@).len() == tokens@.len());
    assert(pos < tokens.len());
    let tag = match token_text(tokens, pos + 1, "tag") {
        Some(tag) => tag,
        None => {
            return Err(unexpected_token(pos + 1));
        },
    };
    let name = token_text(tokens, pos + 2, "name");
    let after_name = if name.is_some() {
        pos + 3
    } else {
        pos + 2
    };
    let (properties, after_properties) = match read_properties(tokens, after_name) {
        Ok(found) => found,
        Err(e) => {
            return Err(e);
        },
    };
    let (data, after_data) = read_data(tokens, after_properties);
    let (children, after_children) = match read_structures(tokens, after_data) {
        Ok(found) => found,
        Err(e) => {
            return Err(e);
        },
    };
    if !token_ends(tokens, after_children, "structure") {
        return Err(unexpected_token(after_children));
    }
    let s = Structure { tag, name, properties, data, children };
    proof {
        lemma_children_view(s);
    }
    Ok((s, after_children + 1))
}

fn read_structures(tokens: &Vec<Token>, start: usize) -> (r: Result<
    (Vec<Structure>, usize),
    AssemblyError,
>)
    requires
        start <= tokens.len(),
    ensures
        match r {
            Ok((forest, next)) => {
                &&& structures_from(token_views(tokens@), start as int, Seq::empty()) == Ok::<
                    (Seq<StructureView>, int),
                    ErrorView,
                >((forest_view(forest@), next as int))
                &&& start <= next <= tokens.len()
            },
            Err(e) => structures_from(token_views(tokens@), start as int, Seq::empty()) == Err::<
                (Seq<StructureView>, int),
                ErrorView,
            >(e@),
        },
    decreases tokens.len() - start, 1int,
{
    let mut forest: Vec<Structure> = Vec::new();
    let mut pos = start;
    assert(forest_view(forest@) =~= Seq::empty());
    while token_starts(tokens, pos, "structure")
        invariant
            start <= pos <= tokens.len(),
            structures_from(token_views(tokens@), start as int, Seq::empty()) == structures_from(
                token_views(tokens@),
                pos as int,
                forest_view(forest@),
            ),
        decreases tokens.len() - pos,
    {
        match read_structure(tokens, pos) {
            Err(e) => {
                return Err(e);
            },
            Ok((s, next)) => {
                proof {
                    assert(forest_view(forest@.push(s)) =~= forest_view(forest@).push(s@));
                }
                forest.push(s);
                pos = next;
            },
        }
    }
    Ok((forest, pos))
}

/// Reads the forest of structures that a stream of tokens is.
pub fn forest_from_tokens(tokens: &Vec<Token>) -> (r: Result<Vec<Structure>, AssemblyError>)
    ensures
        match r {
            Ok(forest) => forest_of(token_views(tokens@)) == Ok::<Seq<StructureView>, ErrorView>(
                forest_view(forest@),
            ),
            Err(e) => forest_of(token_views(tokens@)) == Err::<Seq<StructureView>, ErrorView>(e@),
        },
{
    match read_structures(tokens, 0) {
        Err(e) => Err(e),
        Ok((forest, end)) => if end == tokens.len() {
            Ok(forest)
        } else {
            Err(unexpected_token(end))
        },
    }
}

} // verus!
