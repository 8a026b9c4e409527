//! The variant classifier: from the category of a structure, its kind tag and
//! its numbers to the variant that the structure is.
//!
//! The classifier is the one place that maps kind tags to variants and checks
//! the number of values. It converts nothing: a kind that is not of the
//! category is refused, and so is a number of values that the variant does
//! not take.

use vstd::prelude::*;
use vstd::slice::slice_to_vec;
use crate::error::{result_view, AssemblyError, Category, ErrorView};
use crate::scalar::Scalar;
use crate::structure::{
    Rotation, Scale, Time, TimeView, Transform, Translation, Value, ValueView,
};
use crate::text::text_eq;

verus! {

/// A classified structure of any category.
#[derive(Clone, PartialEq, Eq, Debug)]
pub enum Variant {
    Translation(Translation),
    Rotation(Rotation),
    Scale(Scale),
    Time(Time),
    Value(Value),
}

/// The mathematical value of a [`Variant`].
pub enum VariantView {
    Translation(Translation),
    Rotation(Rotation),
    Scale(Scale),
    Time(TimeView),
    Value(ValueView),
}

impl View for Variant {
    type V = VariantView;

    open spec fn view(&self) -> VariantView {
        match *self {
            Variant::Translation(t) => VariantView::Translation(t),
            Variant::Rotation(r) => VariantView::Rotation(r),
            Variant::Scale(s) => VariantView::Scale(s),
            Variant::Time(t) => VariantView::Time(t@),
            Variant::Value(v) => VariantView::Value(v@),
        }
    }
}

/// The result of a classification whose variant is a plain value.
pub open spec fn plain_result<T>(r: Result<T, AssemblyError>) -> Result<T, ErrorView> {
    match r {
        Ok(t) => Ok(t),
        Err(e) => Err(e@),
    }
}

/// The failure of a structure that holds `args` where `expected` values are
/// required.
pub open spec fn arity_mismatch(expected: usize, args: Seq<Scalar>) -> ErrorView {
    ErrorView::ArityMismatch { expected, actual: args.len() as usize }
}

/// The keys of a curve with three values per key. The values stand channel
/// by channel: first the first value of every key, then the second of every
/// key, then the third.
pub open spec fn triples(args: Seq<Scalar>) -> Seq<(Scalar, Scalar, Scalar)> {
    let n = (args.len() / 3) as int;
    Seq::new(n as nat, |i: int| (args[i], args[n + i], args[2 * n + i]))
}

/// The keys of a curve with four values per key, which stand channel by
/// channel.
pub open spec fn quadruples(args: Seq<Scalar>) -> Seq<(Scalar, Scalar, Scalar, Scalar)> {
    let n = (args.len() / 4) as int;
    Seq::new(n as nat, |i: int| (args[i], args[n + i], args[2 * n + i], args[3 * n + i]))
}

/// The values of keys with three values each, channel by channel.
pub open spec fn triple_args(keys: Seq<(Scalar, Scalar, Scalar)>) -> Seq<Scalar> {
    let n = keys.len() as int;
    Seq::new(
        (3 * n) as nat,
        |j: int|
            if j < n {
                keys[j].0
            } else if j < 2 * n {
                keys[j - n].1
            } else {
                keys[j - 2 * n].2
            },
    )
}

/// The values of keys with four values each, channel by channel.
pub open spec fn quadruple_args(keys: Seq<(Scalar, Scalar, Scalar, Scalar)>) -> Seq<Scalar> {
    let n = keys.len() as int;
    Seq::new(
        (4 * n) as nat,
        |j: int|
            if j < n {
                keys[j].0
            } else if j < 2 * n {
                keys[j - n].1
            } else if j < 3 * n {
                keys[j - 2 * n].2
            } else {
                keys[j - 3 * n].3
            },
    )
}

/// The translation that a kind and its values are.
pub open spec fn translation_of(kind: Seq<char>, args: Seq<Scalar>) -> Result<
    Translation,
    ErrorView,
> {
    if kind == "x"@ {
        if args.len() == 1 {
            Ok(Translation::X(args[0]))
        } else {
            Err(arity_mismatch(1, args))
        }
    } else if kind == "y"@ {
        if args.len() == 1 {
            Ok(Translation::Y(args[0]))
        } else {
            Err(arity_mismatch(1, args))
        }
    } else if kind == "z"@ {
        if args.len() == 1 {
            Ok(Translation::Z(args[0]))
        } else {
            Err(arity_mismatch(1, args))
        }
    } else if kind == "xyz"@ {
        if args.len() == 3 {
            Ok(Translation::Xyz(args[0], args[1], args[2]))
        } else {
            Err(arity_mismatch(3, args))
        }
    } else {
        Err(ErrorView::UnknownVariant { category: Category::Translation, kind })
    }
}

/// The rotation that a kind and its values are.
pub open spec fn rotation_of(kind: Seq<char>, args: Seq<Scalar>) -> Result<Rotation, ErrorView> {
    if kind == "x"@ {
        if args.len() == 1 {
            Ok(Rotation::X(args[0]))
        } else {
            Err(arity_mismatch(1, args))
        }
    } else if kind == "y"@ {
        if args.len() == 1 {
            Ok(Rotation::Y(args[0]))
        } else {
            Err(arity_mismatch(1, args))
        }
    } else if kind == "z"@ {
        if args.len() == 1 {
            Ok(Rotation::Z(args[0]))
        } else {
            Err(arity_mismatch(1, args))
        }
    } else if kind == "axis"@ {
        if args.len() == 4 {
            Ok(Rotation::Axis(args[0], args[1], args[2], args[3]))
        } else {
            Err(arity_mismatch(4, args))
        }
    } else if kind == "quaternion"@ {
        if args.len() == 4 {
            Ok(Rotation::Quaternion(args[0], args[1], args[2], args[3]))
        } else {
            Err(arity_mismatch(4, args))
        }
    } else {
        Err(ErrorView::UnknownVariant { category: Category::Rotation, kind })
    }
}

/// The scale that a kind and its values are.
pub open spec fn scale_of(kind: Seq<char>, args: Seq<Scalar>) -> Result<Scale, ErrorView> {
    if kind == "x"@ {
        if args.len() == 1 {
            Ok(Scale::X(args[0]))
        } else {
            Err(arity_mismatch(1, args))
        }
    } else if kind == "y"@ {
        if args.len() == 1 {
            Ok(Scale::Y(args[0]))
        } else {
            Err(arity_mismatch(1, args))
        }
    } else if kind == "z"@ {
        if args.len() == 1 {
            Ok(Scale::Z(args[0]))
        } else {
            Err(arity_mismatch(1, args))
        }
    } else if kind == "xyz"@ {
        if args.len() == 3 {
            Ok(Scale::Xyz(args[0], args[1], args[2]))
        } else {
            Err(arity_mismatch(3, args))
        }
    } else {
        Err(ErrorView::UnknownVariant { category: Category::Scale, kind })
    }
}

/// The time curve that a kind and its values are.
pub open spec fn time_of(kind: Seq<char>, args: Seq<Scalar>) -> Result<TimeView, ErrorView> {
    if kind == "linear"@ {
        Ok(TimeView::Linear(args))
    } else if kind == "bezier"@ {
        if args.len() % 3 == 0 {
            Ok(TimeView::Bezier(triples(args)))
        } else {
            Err(arity_mismatch(3, args))
        }
    } else {
        Err(ErrorView::UnknownVariant { category: Category::Time, kind })
    }
}

/// The value curve that a kind and its values are.
pub open spec fn value_of(kind: Seq<char>, args: Seq<Scalar>) -> Result<ValueView, ErrorView> {
    if kind == "constant"@ {
        Ok(ValueView::Constant(args))
    } else if kind == "linear"@ {
        Ok(ValueView::Linear(args))
    } else if kind == "bezier"@ {
        if args.len() % 3 == 0 {
            Ok(ValueView::Bezier(triples(args)))
        } else {
            Err(arity_mismatch(3, args))
        }
    } else if kind == "tcb"@ {
        if args.len() % 4 == 0 {
            Ok(ValueView::Tcb(quadruples(args)))
        } else {
            Err(arity_mismatch(4, args))
        }
    } else {
        Err(ErrorView::UnknownVariant { category: Category::Value, kind })
    }
}

/// The variant that a category, a kind and its values are.
pub open spec fn variant_of(category: Category, kind: Seq<char>, args: Seq<Scalar>) -> Result<
    VariantView,
    ErrorView,
> {
    match category {
        Category::Translation => match translation_of(kind, args) {
            Ok(t) => Ok(VariantView::Translation(t)),
            Err(e) => Err(e),
        },
        Category::Rotation => match rotation_of(kind, args) {
            Ok(r) => Ok(VariantView::Rotation(r)),
            Err(e) => Err(e),
        },
        Category::Scale => match scale_of(kind, args) {
            Ok(s) => Ok(VariantView::Scale(s)),
            Err(e) => Err(e),
        },
        Category::Time => match time_of(kind, args) {
            Ok(t) => Ok(VariantView::Time(t)),
            Err(e) => Err(e),
        },
        Category::Value => match value_of(kind, args) {
            Ok(v) => Ok(VariantView::Value(v)),
            Err(e) => Err(e),
        },
    }
}

/// The transformation matrix that sixteen values are.
pub open spec fn transform_of(args: Seq<Scalar>) -> Result<Seq<Scalar>, ErrorView> {
    if args.len() == 16 {
        Ok(args)
    } else {
        Err(arity_mismatch(16, args))
    }
}

/// The number of values of the Transform structure of a skeleton with this
/// number of bones: sixteen for each bone, as far as a length can be.
pub open spec fn bone_values(bones: usize) -> usize {
    if 16 * bones <= usize::MAX {
        (16 * bones) as usize
    } else {
        usize::MAX
    }
}

/// The transformation matrices that the values of a Transform structure of
/// a skeleton are: one for each bone, in the order of the bones. How many
/// values the structure takes depends on where it stands, not on its tag.
pub open spec fn bone_transforms_of(args: Seq<Scalar>, bones: usize) -> Result<
    Seq<Seq<Scalar>>,
    ErrorView,
> {
    if args.len() == 16 * bones {
        Ok(Seq::new(bones as nat, |i: int| args.subrange(16 * i, 16 * i + 16)))
    } else {
        Err(arity_mismatch(bone_values(bones), args))
    }
}

/// The kind that a structure of a category has where it states none, as the
/// format defines it: all three axes for a translation and for a scale, an
/// axis and an angle for a rotation, linear interpolation for both curves.
pub open spec fn default_kind_text(category: Category) -> Seq<char> {
    match category {
        Category::Translation => "xyz"@,
        Category::Rotation => "axis"@,
        Category::Scale => "xyz"@,
        Category::Time => "linear"@,
        Category::Value => "linear"@,
    }
}

impl Translation {
    /// The kind tag of the variant.
    pub open spec fn kind_text(self) -> Seq<char> {
        match self {
            Translation::X(_) => "x"@,
            Translation::Y(_) => "y"@,
            Translation::Z(_) => "z"@,
            Translation::Xyz(_, _, _) => "xyz"@,
        }
    }

    /// The values of the variant, in their order.
    pub open spec fn args(self) -> Seq<Scalar> {
        match self {
            Translation::X(x) => seq![x],
            Translation::Y(y) => seq![y],
            Translation::Z(z) => seq![z],
            Translation::Xyz(x, y, z) => seq![x, y, z],
        }
    }

    /// The kind tag of the variant.
    pub fn kind(&self) -> (kind: &'static str)
        ensures
            kind@ == self.kind_text(),
    {
        match self {
            Translation::X(_) => "x",
            Translation::Y(_) => "y",
            Translation::Z(_) => "z",
            Translation::Xyz(_, _, _) => "xyz",
        }
    }

    /// The number of values of the variant.
    pub fn arity(&self) -> (n: usize)
        ensures
            n == self.args().len(),
    {
        match self {
            Translation::Xyz(_, _, _) => 3,
            _ => 1,
        }
    }
}

impl Rotation {
    /// The kind tag of the variant.
    pub open spec fn kind_text(self) -> Seq<char> {
        match self {
            Rotation::X(_) => "x"@,
            Rotation::Y(_) => "y"@,
            Rotation::Z(_) => "z"@,
            Rotation::Axis(_, _, _, _) => "axis"@,
            Rotation::Quaternion(_, _, _, _) => "quaternion"@,
        }
    }

    /// The values of the variant, in their order.
    pub open spec fn args(self) -> Seq<Scalar> {
        match self {
            Rotation::X(x) => seq![x],
            Rotation::Y(y) => seq![y],
            Rotation::Z(z) => seq![z],
            Rotation::Axis(a, x, y, z) => seq![a, x, y, z],
            Rotation::Quaternion(x, y, z, w) => seq![x, y, z, w],
        }
    }

    /// The kind tag of the variant.
    pub fn kind(&self) -> (kind: &'static str)
        ensures
            kind@ == self.kind_text(),
    {
        match self {
            Rotation::X(_) => "x",
            Rotation::Y(_) => "y",
            Rotation::Z(_) => "z",
            Rotation::Axis(_, _, _, _) => "axis",
            Rotation::Quaternion(_, _, _, _) => "quaternion",
        }
    }

    /// The number of values of the variant.
    pub fn arity(&self) -> (n: usize)
        ensures
            n == self.args().len(),
    {
        match self {
            Rotation::Axis(_, _, _, _) => 4,
            Rotation::Quaternion(_, _, _, _) => 4,
            _ => 1,
        }
    }
}

impl Scale {
    /// The kind tag of the variant.
    pub open spec fn kind_text(self) -> Seq<char> {
        match self {
            Scale::X(_) => "x"@,
            Scale::Y(_) => "y"@,
            Scale::Z(_) => "z"@,
            Scale::Xyz(_, _, _) => "xyz"@,
        }
    }

    /// The values of the variant, in their order.
    pub open spec fn args(self) -> Seq<Scalar> {
        match self {
            Scale::X(x) => seq![x],
            Scale::Y(y) => seq![y],
            Scale::Z(z) => seq![z],
            Scale::Xyz(x, y, z) => seq![x, y, z],
        }
    }

    /// The kind tag of the variant.
    pub fn kind(&self) -> (kind: &'static str)
        ensures
            kind@ == self.kind_text(),
    {
        match self {
            Scale::X(_) => "x",
            Scale::Y(_) => "y",
            Scale::Z(_) => "z",
            Scale::Xyz(_, _, _) => "xyz",
        }
    }

    /// The number of values of the variant.
    pub fn arity(&self) -> (n: usize)
        ensures
            n == self.args().len(),
    {
        match self {
            Scale::Xyz(_, _, _) => 3,
            _ => 1,
        }
    }
}

impl TimeView {
    /// The kind tag of the variant.
    pub open spec fn kind_text(self) -> Seq<char> {
        match self {
            TimeView::Linear(_) => "linear"@,
            TimeView::Bezier(_) => "bezier"@,
        }
    }

    /// The values of the variant, channel by channel.
    pub open spec fn args(self) -> Seq<Scalar> {
        match self {
            TimeView::Linear(keys) => keys,
            TimeView::Bezier(keys) => triple_args(keys),
        }
    }
}

impl ValueView {
    /// The kind tag of the variant.
    pub open spec fn kind_text(self) -> Seq<char> {
        match self {
            ValueView::Constant(_) => "constant"@,
            ValueView::Linear(_) => "linear"@,
            ValueView::Bezier(_) => "bezier"@,
            ValueView::Tcb(_) => "tcb"@,
        }
    }

    /// The values of the variant, channel by channel.
    pub open spec fn args(self) -> Seq<Scalar> {
        match self {
            ValueView::Constant(keys) => keys,
            ValueView::Linear(keys) => keys,
            ValueView::Bezier(keys) => triple_args(keys),
            ValueView::Tcb(keys) => quadruple_args(keys),
        }
    }
}

impl VariantView {
    /// The category of the variant.
    pub open spec fn category(self) -> Category {
        match self {
            VariantView::Translation(_) => Category::Translation,
            VariantView::Rotation(_) => Category::Rotation,
            VariantView::Scale(_) => Category::Scale,
            VariantView::Time(_) => Category::Time,
            VariantView::Value(_) => Category::Value,
        }
    }

    /// The kind tag of the variant.
    pub open spec fn kind_text(self) -> Seq<char> {
        match self {
            VariantView::Translation(t) => t.kind_text(),
            VariantView::Rotation(r) => r.kind_text(),
            VariantView::Scale(s) => s.kind_text(),
            VariantView::Time(t) => t.kind_text(),
            VariantView::Value(v) => v.kind_text(),
        }
    }

    /// The values of the variant, in the order in which a structure holds
    /// them.
    pub open spec fn args(self) -> Seq<Scalar> {
        match self {
            VariantView::Translation(t) => t.args(),
            VariantView::Rotation(r) => r.args(),
            VariantView::Scale(s) => s.args(),
            VariantView::Time(t) => t.args(),
            VariantView::Value(v) => v.args(),
        }
    }
}

fn arity_error(expected: usize, args: &[Scalar]) -> (e: AssemblyError)
    ensures
        e@ == arity_mismatch(expected, args@),
{
    AssemblyError::ArityMismatch { expected, actual: args.len() }
}

fn unknown_variant(category: Category, kind: &str) -> (e: AssemblyError)
    ensures
        e@ == (ErrorView::UnknownVariant { category, kind: kind@ }),
{
    AssemblyError::UnknownVariant { category, kind: kind.to_owned() }
}

fn collect_triples(args: &[Scalar]) -> (keys: Vec<(Scalar, Scalar, Scalar)>)
    requires
        args@.len() % 3 == 0,
    ensures
        keys@ == triples(args@),
{
    let n: usize = args.len() / 3;
    let mut keys: Vec<(Scalar, Scalar, Scalar)> = Vec::new();
    let mut i: usize = 0;
    while i < n
        invariant
            i <= n,
            n == args@.len() / 3,
            args@.len() % 3 == 0,
            keys@.len() == i,
            forall|j: int| 0 <= j < i ==> keys@[j] == triples(args@)[j],
        decreases n - i,
    {
        keys.push((args[i], args[n + i], args[2 * n + i]));
        i += 1;
    }
    assert(keys@ =~= triples(args@));
    keys
}

fn collect_quadruples(args: &[Scalar]) -> (keys: Vec<(Scalar, Scalar, Scalar, Scalar)>)
    requires
        args@.len() % 4 == 0,
    ensures
        keys@ == quadruples(args@),
{
    let n: usize = args.len() / 4;
    let mut keys: Vec<(Scalar, Scalar, Scalar, Scalar)> = Vec::new();
    let mut i: usize = 0;
    while i < n
        invariant
            i <= n,
            n == args@.len() / 4,
            args@.len() % 4 == 0,
            keys@.len() == i,
            forall|j: int| 0 <= j < i ==> keys@[j] == quadruples(args@)[j],
        decreases n - i,
    {
        keys.push((args[i], args[n + i], args[2 * n + i], args[3 * n + i]));
        i += 1;
    }
    assert(keys@ =~= quadruples(args@));
    keys
}

/// Classifies a Translation structure.
pub fn classify_translation(kind: &str, args: &[Scalar]) -> (r: Result<Translation, AssemblyError>)
    ensures
        plain_result(r) == translation_of(kind@, args@),
{
    if text_eq(kind, "x") {
        if args.len() == 1 {
            Ok(Translation::X(args[0]))
        } else {
            Err(arity_error(1, args))
        }
    } else if text_eq(kind, "y") {
        if args.len() == 1 {
            Ok(Translation::Y(args[0]))
        } else {
            Err(arity_error(1, args))
        }
    } else if text_eq(kind, "z") {
        if args.len() == 1 {
            Ok(Translation::Z(args[0]))
        } else {
            Err(arity_error(1, args))
        }
    } else if text_eq(kind, "xyz") {
        if args.len() == 3 {
            Ok(Translation::Xyz(args[0], args[1], args[2]))
        } else {
            Err(arity_error(3, args))
        }
    } else {
        Err(unknown_variant(Category::Translation, kind))
    }
}

/// Classifies a Rotation structure.
pub fn classify_rotation(kind: &str, args: &[Scalar]) -> (r: Result<Rotation, AssemblyError>)
    ensures
        plain_result(r) == rotation_of(kind@, args@),
{
    if text_eq(kind, "x") {
        if args.len() == 1 {
            Ok(Rotation::X(args[0]))
        } else {
            Err(arity_error(1, args))
        }
    } else if text_eq(kind, "y") {
        if args.len() == 1 {
            Ok(Rotation::Y(args[0]))
        } else {
            Err(arity_error(1, args))
        }
    } else if text_eq(kind, "z") {
        if args.len() == 1 {
            Ok(Rotation::Z(args[0]))
        } else {
            Err(arity_error(1, args))
        }
    } else if text_eq(kind, "axis") {
        if args.len() == 4 {
            Ok(Rotation::Axis(args[0], args[1], args[2], args[3]))
        } else {
            Err(arity_error(4, args))
        }
    } else if text_eq(kind, "quaternion") {
        if args.len() == 4 {
            Ok(Rotation::Quaternion(args[0], args[1], args[2], args[3]))
        } else {
            Err(arity_error(4, args))
        }
    } else {
        Err(unknown_variant(Category::Rotation, kind))
    }
}

/// Classifies a Scale structure.
pub fn classify_scale(kind: &str, args: &[Scalar]) -> (r: Result<Scale, AssemblyError>)
    ensures
        plain_result(r) == scale_of(kind@, args@),
{
    if text_eq(kind, "x") {
        if args.len() == 1 {
            Ok(Scale::X(args[0]))
        } else {
            Err(arity_error(1, args))
        }
    } else if text_eq(kind, "y") {
        if args.len() == 1 {
            Ok(Scale::Y(args[0]))
        } else {
            Err(arity_error(1, args))
        }
    } else if text_eq(kind, "z") {
        if args.len() == 1 {
            Ok(Scale::Z(args[0]))
        } else {
            Err(arity_error(1, args))
        }
    } else if text_eq(kind, "xyz") {
        if args.len() == 3 {
            Ok(Scale::Xyz(args[0], args[1], args[2]))
        } else {
            Err(arity_error(3, args))
        }
    } else {
        Err(unknown_variant(Category::Scale, kind))
    }
}

/// Classifies the Time structure of a track.
pub fn classify_time(kind: &str, args: &[Scalar]) -> (r: Result<Time, AssemblyError>)
    ensures
        result_view(r) == time_of(kind@, args@),
{
    if text_eq(kind, "linear") {
        Ok(Time::Linear(slice_to_vec(args)))
    } else if text_eq(kind, "bezier") {
        if args.len() % 3 == 0 {
            Ok(Time::Bezier(collect_triples(args)))
        } else {
            Err(arity_error(3, args))
        }
    } else {
        Err(unknown_variant(Category::Time, kind))
    }
}

/// Classifies the Value structure of a track.
pub fn classify_value(kind: &str, args: &[Scalar]) -> (r: Result<Value, AssemblyError>)
    ensures
        result_view(r) == value_of(kind@, args@),
{
    if text_eq(kind, "constant") {
        Ok(Value::Constant(slice_to_vec(args)))
    } else if text_eq(kind, "linear") {
        Ok(Value::Linear(slice_to_vec(args)))
    } else if text_eq(kind, "bezier") {
        if args.len() % 3 == 0 {
            Ok(Value::Bezier(collect_triples(args)))
        } else {
            Err(arity_error(3, args))
        }
    } else if text_eq(kind, "tcb") {
        if args.len() % 4 == 0 {
            Ok(Value::Tcb(collect_quadruples(args)))
        } else {
            Err(arity_error(4, args))
        }
    } else {
        Err(unknown_variant(Category::Value, kind))
    }
}

/// Classifies a structure of any category.
pub fn classify(category: Category, kind: &str, args: &[Scalar]) -> (r: Result<
    Variant,
    AssemblyError,
>)
    ensures
        result_view(r) == variant_of(category, kind@, args@),
{
    match category {
        Category::Translation => match classify_translation(kind, args) {
            Ok(t) => Ok(Variant::Translation(t)),
            Err(e) => Err(e),
        },
        Category::Rotation => match classify_rotation(kind, args) {
            Ok(r) => Ok(Variant::Rotation(r)),
            Err(e) => Err(e),
        },
        Category::Scale => match classify_scale(kind, args) {
            Ok(s) => Ok(Variant::Scale(s)),
            Err(e) => Err(e),
        },
        Category::Time => match classify_time(kind, args) {
            Ok(t) => Ok(Variant::Time(t)),
            Err(e) => Err(e),
        },
        Category::Value => match classify_value(kind, args) {
            Ok(v) => Ok(Variant::Value(v)),
            Err(e) => Err(e),
        },
    }
}

/// Reads the matrix of a Transform structure of a node.
pub fn classify_transform(args: &[Scalar]) -> (r: Result<Transform, AssemblyError>)
    ensures
        match r {
            Ok(t) => transform_of(args@) == Ok::<Seq<Scalar>, ErrorView>(t.0@),
            Err(e) => transform_of(args@) == Err::<Seq<Scalar>, ErrorView>(e@),
        },
{
    if args.len() == 16 {
        let m: [Scalar; 16] = [
            args[0],
            args[1],
            args[2],
            args[3],
            args[4],
            args[5],
            args[6],
            args[7],
            args[8],
            args[9],
            args[10],
            args[11],
            args[12],
            args[13],
            args[14],
            args[15],
        ];
        assert(m@ =~= args@);
        Ok(Transform(m))
    } else {
        Err(arity_error(16, args))
    }
}

/// The matrices of a list of transforms.
pub open spec fn matrices(list: Seq<Transform>) -> Seq<Seq<Scalar>> {
    list.map_values(|t: Transform| t.0@)
}

/// Reads the matrices of the Transform structure of a skeleton, one for each
/// of its bones.
pub fn classify_bone_transforms(args: &[Scalar], bones: usize) -> (r: Result<
    Vec<Transform>,
    AssemblyError,
>)
    ensures
        match r {
            Ok(list) => bone_transforms_of(args@, bones) == Ok::<Seq<Seq<Scalar>>, ErrorView>(
                matrices(list@),
            ),
            Err(e) => bone_transforms_of(args@, bones) == Err::<Seq<Seq<Scalar>>, ErrorView>(e@),
        },
{
    let expected = match bones.checked_mul(16) {
        Some(expected) => expected,
        None => {
            assert(args@.len() == args.len());
            return Err(arity_error(usize::MAX, args));
        },
    };
    if args.len() != expected {
        return Err(arity_error(expected, args));
    }
    let mut list: Vec<Transform> = Vec::new();
    let mut i: usize = 0;
    while i < bones
        invariant
            i <= bones,
            args@.len() == 16 * bones,
            16 * bones <= usize::MAX,
            list@.len() == i,
            forall|j: int| 0 <= j < i ==> (#[trigger] list@[j]).0@ == args@.subrange(16 * j, 16 * j + 16),
        decreases bones - i,
    {
        let at = 16 * i;
        let m: [Scalar; 16] = [
            args[at],
            args[at + 1],
            args[at + 2],
            args[at + 3],
            args[at + 4],
            args[at + 5],
            args[at + 6],
            args[at + 7],
            args[at + 8],
            args[at + 9],
            args[at + 10],
            args[at + 11],
            args[at + 12],
            args[at + 13],
            args[at + 14],
            args[at + 15],
        ];
        assert(m@ =~= args@.subrange(16 * i, 16 * i + 16));
        list.push(Transform(m));
        i += 1;
    }
    assert(matrices(list@) =~= Seq::new(
        bones as nat,
        |i: int| args@.subrange(16 * i, 16 * i + 16),
    ));
    Ok(list)
}

/// The kind that a structure of a category has where it states none.
pub fn default_kind(category: Category) -> (kind: &'static str)
    ensures
        kind@ == default_kind_text(category),
{
    match category {
        Category::Translation => "xyz",
        Category::Rotation => "axis",
        Category::Scale => "xyz",
        Category::Time => "linear",
        Category::Value => "linear",
    }
}

impl Variant {
    /// The category of the variant.
    pub fn category(&self) -> (category: Category)
        ensures
            category == self@.category(),
    {
        match self {
            Variant::Translation(_) => Category::Translation,
            Variant::Rotation(_) => Category::Rotation,
            Variant::Scale(_) => Category::Scale,
            Variant::Time(_) => Category::Time,
            Variant::Value(_) => Category::Value,
        }
    }

    /// The kind tag of the variant.
    pub fn kind(&self) -> (kind: &'static str)
        ensures
            kind@ == self@.kind_text(),
    {
        match self {
            Variant::Translation(t) => t.kind(),
            Variant::Rotation(r) => r.kind(),
            Variant::Scale(s) => s.kind(),
            Variant::Time(Time::Linear(_)) => "linear",
            Variant::Time(Time::Bezier(_)) => "bezier",
            Variant::Value(Value::Constant(_)) => "constant",
            Variant::Value(Value::Linear(_)) => "linear",
            Variant::Value(Value::Bezier(_)) => "bezier",
            Variant::Value(Value::Tcb(_)) => "tcb",
        }
    }

    /// The number of values that a structure holds for the variant, where
    /// that number fits.
    pub fn arity(&self) -> (n: Option<usize>)
        ensures
            match n {
                Some(n) => n == self@.args().len(),
                None => self@.args().len() > usize::MAX,
            },
    {
        match self {
            Variant::Translation(t) => Some(t.arity()),
            Variant::Rotation(r) => Some(r.arity()),
            Variant::Scale(s) => Some(s.arity()),
            Variant::Time(Time::Linear(keys)) => Some(keys.len()),
            Variant::Time(Time::Bezier(keys)) => keys.len().checked_mul(3),
            Variant::Value(Value::Constant(keys)) => Some(keys.len()),
            Variant::Value(Value::Linear(keys)) => Some(keys.len()),
            Variant::Value(Value::Bezier(keys)) => keys.len().checked_mul(3),
            Variant::Value(Value::Tcb(keys)) => keys.len().checked_mul(4),
        }
    }
}

/// Classification loses nothing: the category, the kind tag and the values
/// of a variant that the classifier produced are those it was produced from,
/// and so is their number.
pub proof fn lemma_classification_round_trip(
    category: Category,
    kind: Seq<char>,
    args: Seq<Scalar>,
)
    requires
        variant_of(category, kind, args) is Ok,
    ensures
        variant_of(category, kind, args)->Ok_0.category() == category,
        variant_of(category, kind, args)->Ok_0.kind_text() == kind,
        variant_of(category, kind, args)->Ok_0.args() == args,
        variant_of(category, kind, args)->Ok_0.args().len() == args.len(),
{
    let v = variant_of(category, kind, args)->Ok_0;
    assert(v.args() =~= args);
}

/// The kind tags of one category differ from each other, so at most one
/// variant of the category has the kind of a structure.
pub proof fn lemma_kinds_differ()
    ensures
        "x"@ != "y"@,
        "x"@ != "z"@,
        "y"@ != "z"@,
        "x"@ != "xyz"@,
        "y"@ != "xyz"@,
        "z"@ != "xyz"@,
        "x"@ != "axis"@,
        "y"@ != "axis"@,
        "z"@ != "axis"@,
        "x"@ != "quaternion"@,
        "y"@ != "quaternion"@,
        "z"@ != "quaternion"@,
        "axis"@ != "quaternion"@,
        "linear"@ != "bezier"@,
        "constant"@ != "linear"@,
        "constant"@ != "bezier"@,
        "constant"@ != "tcb"@,
        "linear"@ != "tcb"@,
        "bezier"@ != "tcb"@,
{
    reveal_strlit("x");
    reveal_strlit("y");
    reveal_strlit("z");
    reveal_strlit("xyz");
    reveal_strlit("axis");
    reveal_strlit("quaternion");
    reveal_strlit("linear");
    reveal_strlit("bezier");
    reveal_strlit("constant");
    reveal_strlit("tcb");
    assert("x"@[0] != "y"@[0]);
    assert("x"@[0] != "z"@[0]);
    assert("y"@[0] != "z"@[0]);
    assert("x"@.len() != "xyz"@.len());
    assert("axis"@.len() != "quaternion"@.len());
    assert("linear"@[0] != "bezier"@[0]);
    assert("constant"@[0] != "linear"@[0]);
    assert("constant"@[0] != "bezier"@[0]);
    assert("constant"@[0] != "tcb"@[0]);
    assert("linear"@[0] != "tcb"@[0]);
    assert("bezier"@[0] != "tcb"@[0]);
}

} // verus!
