//! The transformations of a structure.
//!
//! The transformations of a node or of a texture are its Transform,
//! Translation, Rotation and Scale structures, in the order of the document:
//! the order in which they are applied.

use vstd::prelude::*;
use crate::classify::{
    classify_rotation, classify_scale, classify_transform, classify_translation, default_kind,
    default_kind_text, rotation_of, scale_of, transform_of, translation_of,
};
use crate::error::{AssemblyError, Category, ErrorView};
use crate::gather::{collect, lemma_collect_fails};
use crate::lookup::{
    malformed, malformed_structure, property_text, text_property, values, values_of,
};
use crate::structure::{transformation_views, Transformation, TransformationView};
use crate::text::text_eq;
use crate::tree::{forest_view, lemma_children_view, Structure, StructureView};

verus! {

/// The kind of a structure of a category: the one that it states, or the one
/// that the format defines for the category.
pub open spec fn kind_of(s: StructureView, category: Category) -> Result<Seq<char>, ErrorView> {
    match text_property(s, "kind"@) {
        Err(e) => Err(e),
        Ok(Some(kind)) => Ok(kind),
        Ok(None) => Ok(default_kind_text(category)),
    }
}

/// Whether a structure is a transformation.
pub open spec fn is_transformation(s: StructureView) -> bool {
    s.tag == "Transform"@ || s.tag == "Translation"@ || s.tag == "Rotation"@ || s.tag == "Scale"@
}

/// The transformation that a structure is. A structure of another tag is
/// none.
pub open spec fn transformation_of(s: StructureView) -> Result<TransformationView, ErrorView> {
    match values_of(s) {
        Err(e) => Err(e),
        Ok(args) => if s.tag == "Transform"@ {
            match transform_of(args) {
                Err(e) => Err(e),
                Ok(m) => Ok(TransformationView::Transform(m)),
            }
        } else if s.tag == "Translation"@ {
            match kind_of(s, Category::Translation) {
                Err(e) => Err(e),
                Ok(kind) => match translation_of(kind, args) {
                    Err(e) => Err(e),
                    Ok(t) => Ok(TransformationView::Translation(t)),
                },
            }
        } else if s.tag == "Rotation"@ {
            match kind_of(s, Category::Rotation) {
                Err(e) => Err(e),
                Ok(kind) => match rotation_of(kind, args) {
                    Err(e) => Err(e),
                    Ok(r) => Ok(TransformationView::Rotation(r)),
                },
            }
        } else if s.tag == "Scale"@ {
            match kind_of(s, Category::Scale) {
                Err(e) => Err(e),
                Ok(kind) => match scale_of(kind, args) {
                    Err(e) => Err(e),
                    Ok(s) => Ok(TransformationView::Scale(s)),
                },
            }
        } else {
            Err(malformed(s))
        },
    }
}

/// The children that are transformations.
pub open spec fn transformations_wanted() -> spec_fn(StructureView) -> bool {
    |c: StructureView| is_transformation(c)
}

/// How a transformation is read.
pub open spec fn transformation_reader() -> spec_fn(StructureView) -> Result<
    TransformationView,
    ErrorView,
> {
    |c: StructureView| transformation_of(c)
}

/// The transformations of a structure, in the order of the document.
pub open spec fn transformations_of(s: StructureView) -> Result<Seq<TransformationView>, ErrorView> {
    collect(
        s.children,
        s.children.len() as int,
        transformations_wanted(),
        transformation_reader(),
    )
}

/// The kind of a structure of a category.
pub fn read_kind(s: &Structure, category: Category) -> (r: Result<String, AssemblyError>)
    ensures
        match r {
            Ok(kind) => kind_of(s@, category) == Ok::<Seq<char>, ErrorView>(kind@),
            Err(e) => kind_of(s@, category) == Err::<Seq<char>, ErrorView>(e@),
        },
{
    match property_text(s, "kind") {
        Err(e) => Err(e),
        Ok(Some(kind)) => Ok(kind.clone()),
        Ok(None) => Ok(default_kind(category).to_owned()),
    }
}

/// Whether a structure is a transformation.
pub fn is_transformation_structure(s: &Structure) -> (b: bool)
    ensures
        b == is_transformation(s@),
{
    text_eq(s.tag.as_str(), "Transform") || text_eq(s.tag.as_str(), "Translation") || text_eq(
        s.tag.as_str(),
        "Rotation",
    ) || text_eq(s.tag.as_str(), "Scale")
}

/// Classifies a transformation structure.
pub fn read_transformation(s: &Structure) -> (r: Result<Transformation, AssemblyError>)
    ensures
        crate::error::result_view(r) == transformation_of(s@),
{
    let args = match values(s) {
        Ok(args) => args,
        Err(e) => {
            return Err(e);
        },
    };
    if text_eq(s.tag.as_str(), "Transform") {
        match classify_transform(args.as_slice()) {
            Err(e) => Err(e),
            Ok(m) => Ok(Transformation::Transform(m)),
        }
    } else if text_eq(s.tag.as_str(), "Translation") {
        let kind = match read_kind(s, Category::Translation) {
            Ok(kind) => kind,
            Err(e) => {
                return Err(e);
            },
        };
        match classify_translation(kind.as_str(), args.as_slice()) {
            Err(e) => Err(e),
            Ok(t) => Ok(Transformation::Translation(t)),
        }
    } else if text_eq(s.tag.as_str(), "Rotation") {
        let kind = match read_kind(s, Category::Rotation) {
            Ok(kind) => kind,
            Err(e) => {
                return Err(e);
            },
        };
        match classify_rotation(kind.as_str(), args.as_slice()) {
            Err(e) => Err(e),
            Ok(r) => Ok(Transformation::Rotation(r)),
        }
    } else if text_eq(s.tag.as_str(), "Scale") {
        let kind = match read_kind(s, Category::Scale) {
            Ok(kind) => kind,
            Err(e) => {
                return Err(e);
            },
        };
        match classify_scale(kind.as_str(), args.as_slice()) {
            Err(e) => Err(e),
            Ok(s) => Ok(Transformation::Scale(s)),
        }
    } else {
        Err(malformed_structure(s))
    }
}

/// Reads the transformations of a structure, in the order of the document.
pub fn read_transformations(s: &Structure) -> (r: Result<Vec<Transformation>, AssemblyError>)
    ensures
        match r {
            Ok(list) => transformations_of(s@) == Ok::<Seq<TransformationView>, ErrorView>(
                transformation_views(list@),
            ),
            Err(e) => transformations_of(s@) == Err::<Seq<TransformationView>, ErrorView>(e@),
        },
{
    proof {
        lemma_children_view(*s);
    }
    let mut list: Vec<Transformation> = Vec::new();
    let mut i: usize = 0;
    assert(transformation_views(list@) =~= Seq::empty());
    while i < s.children.len()
        invariant
            i <= s.children.len(),
            s@.children == forest_view(s.children@),
            collect(s@.children, i as int, transformations_wanted(), transformation_reader()) == Ok::<
                Seq<TransformationView>,
                ErrorView,
            >(transformation_views(list@)),
        decreases s.children.len() - i,
    {
        let c = &s.children[i];
        assert(s@.children[i as int] == c@);
        if is_transformation_structure(c) {
            match read_transformation(c) {
                Err(e) => {
                    proof {
                        lemma_collect_fails(
                            s@.children,
                            i + 1,
                            s@.children.len() as int,
                            transformations_wanted(),
                            transformation_reader(),
                        );
                    }
                    return Err(e);
                },
                Ok(t) => {
                    proof {
                        assert(transformation_views(list@.push(t)) =~= transformation_views(
                            list@,
                        ).push(t@));
                    }
                    list.push(t);
                },
            }
        }
        i += 1;
    }
    Ok(list)
}

} // verus!
