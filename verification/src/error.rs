//! The ways in which the assembly of a document fails.

use vstd::prelude::*;

verus! {

/// The categories of kind-tagged structures.
#[derive(Clone, Copy, PartialEq, Eq, Structural, Debug, Hash)]
pub enum Category {
    Translation,
    Rotation,
    Scale,
    Time,
    Value,
}

/// Why an assembly was abandoned. Every failure is final: the assembly is a
/// function of its input, and stops at the first failure it meets.
#[derive(Clone, PartialEq, Eq, Debug)]
pub enum AssemblyError {
    /// The kind tag is not one of its category.
    UnknownVariant { category: Category, kind: String },
    /// A structure holds the wrong number of values. For a variant of fixed
    /// size `expected` is that size; for a curve it is the number of values
    /// per key, of which `actual` is no multiple.
    ArityMismatch { expected: usize, actual: usize },
    /// A reference names an object that the document does not declare.
    UnresolvedReference { name: String },
    /// Two objects are declared under the same name, or two values of a
    /// structure under the same attribute.
    DuplicateObjectName { name: String },
    /// A track's target is no transformation or morph weight of its node.
    /// `node` is the path of the node: the position of each of its ancestors,
    /// and last its own, among the structures of its parent.
    InvalidTrackTarget { node: Vec<usize>, position: usize },
    /// Two morph weights of one geometry node have the same target index.
    DuplicateMorphTarget { index: usize },
    /// The geometry of a node uses a material slot that the node leaves empty.
    UnresolvedMaterialSlot { index: usize },
    /// The two curves of a track differ in their number of keys.
    KeyCountMismatch { time_keys: usize, value_keys: usize },
    /// A structure lacks content that its type requires, or holds a value
    /// where an index is required that is none or is above
    /// the largest index that a sparse map accepts.
    MalformedStructure { tag: String },
    /// A token stands where the grammar of structures allows none.
    UnexpectedToken { position: usize },
    /// A node holds the key of a shared object that is not in its table.
    DanglingReference,
}

/// The mathematical value of an [`AssemblyError`].
pub enum ErrorView {
    UnknownVariant { category: Category, kind: Seq<char> },
    ArityMismatch { expected: usize, actual: usize },
    UnresolvedReference { name: Seq<char> },
    DuplicateObjectName { name: Seq<char> },
    InvalidTrackTarget { node: Seq<usize>, position: usize },
    DuplicateMorphTarget { index: usize },
    UnresolvedMaterialSlot { index: usize },
    KeyCountMismatch { time_keys: usize, value_keys: usize },
    MalformedStructure { tag: Seq<char> },
    UnexpectedToken { position: usize },
    DanglingReference,
}

impl View for AssemblyError {
    type V = ErrorView;

    open spec fn view(&self) -> ErrorView {
        match *self {
            AssemblyError::UnknownVariant { category, kind } => ErrorView::UnknownVariant {
                category,
                kind: kind@,
            },
            AssemblyError::ArityMismatch { expected, actual } => ErrorView::ArityMismatch {
                expected,
                actual,
            },
            AssemblyError::UnresolvedReference { name } => ErrorView::UnresolvedReference {
                name: name@,
            },
            AssemblyError::DuplicateObjectName { name } => ErrorView::DuplicateObjectName {
                name: name@,
            },
            AssemblyError::InvalidTrackTarget { node, position } => ErrorView::InvalidTrackTarget {
                node: node@,
                position,
            },
            AssemblyError::DuplicateMorphTarget { index } => ErrorView::DuplicateMorphTarget {
                index,
            },
            AssemblyError::UnresolvedMaterialSlot { index } => ErrorView::UnresolvedMaterialSlot {
                index,
            },
            AssemblyError::KeyCountMismatch { time_keys, value_keys } => ErrorView::KeyCountMismatch {
                time_keys,
                value_keys,
            },
            AssemblyError::MalformedStructure { tag } => ErrorView::MalformedStructure { tag: tag@ },
            AssemblyError::UnexpectedToken { position } => ErrorView::UnexpectedToken { position },
            AssemblyError::DanglingReference => ErrorView::DanglingReference,
        }
    }
}

/// The value of a result whose two sides have values.
pub open spec fn result_view<T: View, E: View>(r: Result<T, E>) -> Result<T::V, E::V> {
    match r {
        Ok(t) => Ok(t@),
        Err(e) => Err(e@),
    }
}

} // verus!
