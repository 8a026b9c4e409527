//! From the text of a document to its scene.
//!
//! The text is measured, and handed to the grammar engine together with the
//! syntax of OpenDDL, the language that OpenGEX documents are written in.
//! The engine answers with a stream of tokens, and the rest is the library's
//! own work: the forest of structures is read from the stream, and the scene
//! is assembled from the forest.

use vstd::prelude::*;
use piston_meta::MetaData;
use crate::error::{AssemblyError, ErrorView};
use crate::exponent::{exponents_within, longest_exponent_of, MAX_EXPONENT_DIGITS};
use crate::nesting::{nesting_of, nesting_within, MAX_NESTING};
use crate::scalar::Scalar;
use crate::scene::{assemble, scene_of, Scene, SceneView};
use crate::tree::{forest_from_tokens, forest_of, token_views, Token, TokenView};

verus! {

/// The syntax of OpenDDL, in the meta language of the grammar engine.
///
/// A structure is a tag, an optional array size, an optional name, an
/// optional list of properties in round brackets, and in curly brackets
/// either child structures or a list of data. Each structure becomes a
/// `structure` node, which holds the tag as `tag` and the name as `name`, and
/// each property a `property` node, which holds its key as `key`. A datum is
/// a number (`number`), a string (`text`), a reference (`ref`) or a truth
/// value (`flag`). Lists of lists of data are flattened.
pub const OPENDDL_SYNTAX: &'static str = r#"
_seps: "(){}[],=\"$%/"
_inner: "(){}[],=\"/"
0 block = ["/*" ..."*"? .r?([!"*/" "*" ..."*"?]) "*/"]
1 gap = .r?({.w! block ["//" ..."\n"?]})
2 name = [!!{"$" "%"} .._inner!:"name"]
3 reference = [!!{"$" "%"} .._inner!:"ref"]
4 datum = {reference "true":"flag" "false":!"flag" .t?:"text" .$:"number"}
5 item = {["{" gap list gap "}"] datum}
6 list = .s?.([gap "," gap] item)
7 property = [.._seps!:"key" gap "=" gap datum]
8 properties = ["(" gap .s?.([gap "," gap] property:"property") gap ")"]
9 structure = [.._seps!:"tag" gap ?["[" .$ "]" gap] ?[name gap]
  ?[properties gap] "{" gap {.r!([structure:"structure" gap]) list} gap "}"]
10 document = [gap .r?([structure:"structure" gap])]
"#;

/// `piston_meta::syntax` and `piston_meta::parse`: the syntax is read, and
/// the text is read by it. The answer is `None` where the engine reports an
/// error in either of them; else it holds the tokens of the engine one for
/// one, each with its name and its value, a number as its bit pattern.
/// Nothing is promised of the tokens: the engine computes the value of a
/// number in floating point.
///
/// Reading by the syntax of OpenDDL, the engine calls itself once for each
/// curly bracket that is open outside strings and comments. It sums the
/// digits of an exponent in a machine word of 64 bits, and multiplies the sum
/// by ten once more behind the last digit, whatever follows. So the nesting
/// of the text is bounded, and its exponents have at most eighteen digits.
#[verifier::external_body]
fn parse_text(syntax: &str, text: &str) -> (tokens: Option<Vec<Token>>)
    requires
        syntax@ == OPENDDL_SYNTAX@,
        nesting_of(text@) <= MAX_NESTING,
        longest_exponent_of(text@) <= MAX_EXPONENT_DIGITS,
{
    let rules = piston_meta::syntax(syntax).ok()?;
    let mut data = Vec::new();
    piston_meta::parse(&rules, text, &mut data).ok()?;
    Some(data.into_iter().map(|d| match d.data {
        MetaData::StartNode(n) => Token::StartNode(n.to_string()),
        MetaData::EndNode(n) => Token::EndNode(n.to_string()),
        MetaData::Bool(n, b) => Token::Bool(n.to_string(), b),
        MetaData::F64(n, v) => Token::Number(n.to_string(), Scalar { bits: v.to_bits() }),
        MetaData::String(n, s) => Token::Text(n.to_string(), s.to_string()),
    }).collect())
}

/// The scene that a stream of tokens is.
pub open spec fn scene_of_tokens(tokens: Seq<TokenView>) -> Result<SceneView, ErrorView> {
    match forest_of(tokens) {
        Err(e) => Err(e),
        Ok(forest) => scene_of(forest),
    }
}

/// Assembles the scene that a stream of tokens is.
pub fn scene_from_tokens(tokens: &Vec<Token>) -> (r: Result<Scene, AssemblyError>)
    ensures
        crate::error::result_view(r) == scene_of_tokens(token_views(tokens@)),
        r is Ok ==> r->Ok_0.wf() && r->Ok_0.sound(),
{
    match forest_from_tokens(tokens) {
        Err(e) => Err(e),
        Ok(forest) => assemble(&forest),
    }
}

/// Why a text was not read as a scene.
#[derive(Clone, PartialEq, Eq, Debug)]
pub enum ReadError {
    /// The curly brackets of the text nest deeper than [`MAX_NESTING`].
    TooDeep,
    /// An exponent of the text has more than [`MAX_EXPONENT_DIGITS`] digits.
    LongExponent,
    /// The grammar engine refused the text: it is no OpenDDL.
    Syntax,
    /// The text is OpenDDL, and its tokens are no scene.
    Assembly(AssemblyError),
}

/// Whether a text may be handed to the grammar engine.
pub open spec fn admissible(text: Seq<char>) -> bool {
    nesting_of(text) <= MAX_NESTING && longest_exponent_of(text) <= MAX_EXPONENT_DIGITS
}

/// Whether a scene is what some stream of tokens is assembled to.
pub open spec fn assembled(scene: SceneView) -> bool {
    exists|tokens: Seq<TokenView>|
        #[trigger] scene_of_tokens(tokens) == Ok::<SceneView, ErrorView>(scene)
}

/// Whether a failure is how the assembly of some stream of tokens fails.
pub open spec fn refused(error: ErrorView) -> bool {
    exists|tokens: Seq<TokenView>|
        #[trigger] scene_of_tokens(tokens) == Err::<SceneView, ErrorView>(error)
}

/// A scene that is assembled is the scene of a document: what is proved of
/// the scene of every forest holds of it.
pub proof fn lemma_assembled_from_a_document(scene: SceneView)
    requires
        assembled(scene),
    ensures
        exists|forest: Seq<crate::tree::StructureView>|
            #[trigger] scene_of(forest) == Ok::<SceneView, ErrorView>(scene),
{
    let tokens = choose|tokens: Seq<TokenView>|
        #[trigger] scene_of_tokens(tokens) == Ok::<SceneView, ErrorView>(scene);
    let forest = forest_of(tokens)->Ok_0;
    assert(scene_of(forest) == Ok::<SceneView, ErrorView>(scene));
}

/// Reads the scene of the text of an OpenGEX document, and tells why where
/// there is none.
///
/// What the grammar engine makes of a text is not known here, so the
/// contract says what holds whatever it answered: a text that may not be
/// handed over is refused for that reason and for no other, and a scene or
/// a failure of the assembly is that of the tokens that the engine gave.
pub fn scene_from_text(text: &str) -> (r: Result<Scene, ReadError>)
    ensures
        match r {
            Ok(scene) => admissible(text@) && assembled(scene@) && scene.wf() && scene.sound(),
            Err(ReadError::TooDeep) => nesting_of(text@) > MAX_NESTING,
            Err(ReadError::LongExponent) => nesting_of(text@) <= MAX_NESTING
                && longest_exponent_of(text@) > MAX_EXPONENT_DIGITS,
            Err(ReadError::Syntax) => admissible(text@),
            Err(ReadError::Assembly(e)) => admissible(text@) && refused(e@),
        },
{
    if !nesting_within(text, MAX_NESTING) {
        return Err(ReadError::TooDeep);
    }
    if !exponents_within(text, MAX_EXPONENT_DIGITS) {
        return Err(ReadError::LongExponent);
    }
    let tokens = match parse_text(OPENDDL_SYNTAX, text) {
        Some(tokens) => tokens,
        None => {
            return Err(ReadError::Syntax);
        },
    };
    match scene_from_tokens(&tokens) {
        Ok(scene) => Ok(scene),
        Err(e) => Err(ReadError::Assembly(e)),
    }
}

/// Generates a scene from the text of an OpenGEX document.
pub fn scene_from_src_string(ogex_src: String) -> (r: Result<Scene, ()>)
    ensures
        !admissible(ogex_src@) ==> r is Err,
        match r {
            Ok(scene) => admissible(ogex_src@) && assembled(scene@) && scene.wf() && scene.sound(),
            Err(_) => true,
        },
{
    match scene_from_text(ogex_src.as_str()) {
        Ok(scene) => Ok(scene),
        Err(_) => Err(()),
    }
}

} // verus!
