//! The animations of a node: their tracks, the curves of each track, and the
//! target that each track animates.
//!
//! A track names its target by position: the transformations and the morph
//! weights of a node, taken together in the order of the document, are its
//! targets, and a track holds the position of one of them.

use vstd::prelude::*;
use vstd::slice::slice_to_vec;
use crate::classify::{
    arity_mismatch, classify_time, classify_value, default_kind, default_kind_text, time_of,
    value_of,
};
use crate::error::{AssemblyError, Category, ErrorView};
use crate::gather::{collect, lemma_collect_fails, tagged};
use crate::lookup::{
    child, child_of, index_property, malformed, malformed_structure, number_property, property,
    property_index, property_number, property_of, property_text, text_property, values, values_of,
};
use crate::scalar::Scalar;
use crate::structure::{
    animation_views, Animation, AnimationView, Time, TimeView, Track, TrackTarget, TrackView,
    Value, ValueView,
};
use crate::text::text_eq;
use crate::transformations::{is_transformation, is_transformation_structure};
use crate::tree::{forest_view, lemma_children_view, Structure, StructureView};

verus! {

/// The targets among the first `n` children of a node: each transformation
/// and, where the node has morph weights, each morph weight, with its
/// position among those of its sort.
pub open spec fn targets_among(children: Seq<StructureView>, n: int, morphs: bool) -> Seq<
    TrackTarget,
>
    decreases n,
{
    if n <= 0 || n > children.len() {
        Seq::empty()
    } else {
        let before = targets_among(children, n - 1, morphs);
        if is_transformation(children[n - 1]) {
            before.push(
                TrackTarget::Transformation(transformations_among(children, n - 1) as usize),
            )
        } else if morphs && children[n - 1].tag == "MorphWeight"@ {
            before.push(TrackTarget::MorphWeight(morph_weights_among(children, n - 1) as usize))
        } else {
            before
        }
    }
}

/// The number of transformations among the first `n` children.
pub open spec fn transformations_among(children: Seq<StructureView>, n: int) -> nat
    decreases n,
{
    if n <= 0 || n > children.len() {
        0
    } else if is_transformation(children[n - 1]) {
        transformations_among(children, n - 1) + 1
    } else {
        transformations_among(children, n - 1)
    }
}

/// The number of morph weights among the first `n` children.
pub open spec fn morph_weights_among(children: Seq<StructureView>, n: int) -> nat
    decreases n,
{
    if n <= 0 || n > children.len() {
        0
    } else if !is_transformation(children[n - 1]) && children[n - 1].tag == "MorphWeight"@ {
        morph_weights_among(children, n - 1) + 1
    } else {
        morph_weights_among(children, n - 1)
    }
}

/// The targets of a node.
pub open spec fn targets_of(s: StructureView, morphs: bool) -> Seq<TrackTarget> {
    targets_among(s.children, s.children.len() as int, morphs)
}

/// The channels of a curve: how many Key structures it has, how many values
/// each of them holds, and the values of all of them, one Key after the
/// other.
pub struct Channels {
    pub count: nat,
    pub keys: nat,
    pub values: Seq<Scalar>,
}

/// The channels among the first `n` children of a curve. Every Key holds as
/// many values as the first.
pub open spec fn channels_among(children: Seq<StructureView>, n: int) -> Result<
    Channels,
    ErrorView,
>
    decreases n,
{
    if n <= 0 || n > children.len() {
        Ok(Channels { count: 0, keys: 0, values: Seq::empty() })
    } else {
        match channels_among(children, n - 1) {
            Err(e) => Err(e),
            Ok(before) => if children[n - 1].tag == "Key"@ {
                match values_of(children[n - 1]) {
                    Err(e) => Err(e),
                    Ok(v) => if before.count == 0 {
                        Ok(Channels { count: 1, keys: v.len(), values: v })
                    } else if v.len() == before.keys {
                        Ok(
                            Channels {
                                count: before.count + 1,
                                keys: before.keys,
                                values: before.values + v,
                            },
                        )
                    } else {
                        Err(arity_mismatch(before.keys as usize, v))
                    },
                }
            } else {
                Ok(before)
            },
        }
    }
}

/// The channels of a curve.
pub open spec fn channels_of(s: StructureView) -> Result<Channels, ErrorView> {
    channels_among(s.children, s.children.len() as int)
}

/// The kind of a curve: the one that it states, or the one that the format
/// defines.
pub open spec fn curve_kind_of(s: StructureView, category: Category) -> Result<
    Seq<char>,
    ErrorView,
> {
    match text_property(s, "curve"@) {
        Err(e) => Err(e),
        Ok(Some(kind)) => Ok(kind),
        Ok(None) => Ok(default_kind_text(category)),
    }
}

impl TimeView {
    /// The number of values that the curve holds for each key.
    pub open spec fn channels(self) -> nat {
        match self {
            TimeView::Linear(_) => 1,
            TimeView::Bezier(_) => 3,
        }
    }
}

impl ValueView {
    /// The number of values that the curve holds for each key.
    pub open spec fn channels(self) -> nat {
        match self {
            ValueView::Constant(_) => 1,
            ValueView::Linear(_) => 1,
            ValueView::Bezier(_) => 3,
            ValueView::Tcb(_) => 4,
        }
    }
}

/// The failure of a curve that has `count` Key structures where its kind
/// takes `expected`.
pub open spec fn channel_mismatch(expected: nat, count: nat) -> ErrorView {
    ErrorView::ArityMismatch { expected: expected as usize, actual: count as usize }
}

/// The time curve that a Time structure is.
pub open spec fn time_curve_of(s: StructureView) -> Result<TimeView, ErrorView> {
    match channels_of(s) {
        Err(e) => Err(e),
        Ok(channels) => match curve_kind_of(s, Category::Time) {
            Err(e) => Err(e),
            Ok(kind) => match time_of(kind, channels.values) {
                Err(e) => Err(e),
                Ok(curve) => if channels.count == curve.channels() {
                    Ok(curve)
                } else {
                    Err(channel_mismatch(curve.channels(), channels.count))
                },
            },
        },
    }
}

/// The value curve that a Value structure is.
pub open spec fn value_curve_of(s: StructureView) -> Result<ValueView, ErrorView> {
    match channels_of(s) {
        Err(e) => Err(e),
        Ok(channels) => match curve_kind_of(s, Category::Value) {
            Err(e) => Err(e),
            Ok(kind) => match value_of(kind, channels.values) {
                Err(e) => Err(e),
                Ok(curve) => if channels.count == curve.channels() {
                    Ok(curve)
                } else {
                    Err(channel_mismatch(curve.channels(), channels.count))
                },
            },
        },
    }
}

/// The position that a track states for its target.
pub open spec fn target_position_of(s: StructureView) -> Result<u32, ErrorView> {
    if property_of(s, "target"@) is None {
        Err(malformed(s))
    } else {
        index_property(s, "target"@, 0)
    }
}

/// The track that a Track structure of a node is. `targets` are the targets
/// of the node and `path` is its path.
pub open spec fn track_of(s: StructureView, targets: Seq<TrackTarget>, path: Seq<usize>) -> Result<
    TrackView,
    ErrorView,
> {
    match target_position_of(s) {
        Err(e) => Err(e),
        Ok(position) => if position >= targets.len() {
            Err(ErrorView::InvalidTrackTarget { node: path, position: position as usize })
        } else {
            match child_of(s, "Time"@) {
                None => Err(malformed(s)),
                Some(time_structure) => match time_curve_of(time_structure) {
                    Err(e) => Err(e),
                    Ok(time) => match child_of(s, "Value"@) {
                        None => Err(malformed(s)),
                        Some(value_structure) => match value_curve_of(value_structure) {
                            Err(e) => Err(e),
                            Ok(value) => if time.key_count() == value.key_count() {
                                Ok(TrackView { target: targets[position as int], time, value })
                            } else {
                                Err(
                                    ErrorView::KeyCountMismatch {
                                        time_keys: time.key_count() as usize,
                                        value_keys: value.key_count() as usize,
                                    },
                                )
                            },
                        },
                    },
                },
            }
        },
    }
}

/// How the tracks of a node are read.
pub open spec fn track_reader(targets: Seq<TrackTarget>, path: Seq<usize>) -> spec_fn(
    StructureView,
) -> Result<TrackView, ErrorView> {
    |c: StructureView| track_of(c, targets, path)
}

/// The animation that an Animation structure of a node is.
pub open spec fn animation_of(
    s: StructureView,
    targets: Seq<TrackTarget>,
    path: Seq<usize>,
) -> Result<AnimationView, ErrorView> {
    match index_property(s, "clip"@, 0) {
        Err(e) => Err(e),
        Ok(clip) => match number_property(s, "begin"@) {
            Err(e) => Err(e),
            Ok(begin) => match number_property(s, "end"@) {
                Err(e) => Err(e),
                Ok(end) => match collect(
                    s.children,
                    s.children.len() as int,
                    tagged("Track"@),
                    track_reader(targets, path),
                ) {
                    Err(e) => Err(e),
                    Ok(tracks) => Ok(AnimationView { clip, begin, end, tracks }),
                },
            },
        },
    }
}

/// How the animations of a node are read.
pub open spec fn animation_reader(targets: Seq<TrackTarget>, path: Seq<usize>) -> spec_fn(
    StructureView,
) -> Result<AnimationView, ErrorView> {
    |c: StructureView| animation_of(c, targets, path)
}

/// The animations of a node, in the order of the document.
pub open spec fn animations_of(
    s: StructureView,
    targets: Seq<TrackTarget>,
    path: Seq<usize>,
) -> Result<Seq<AnimationView>, ErrorView> {
    collect(
        s.children,
        s.children.len() as int,
        tagged("Animation"@),
        animation_reader(targets, path),
    )
}

/// Every track of an animation that was read is balanced, and its target is
/// one of the targets of its node.
pub proof fn lemma_tracks_sound(
    s: StructureView,
    targets: Seq<TrackTarget>,
    path: Seq<usize>,
    n: int,
    k: int,
)
    requires
        0 <= n <= s.children.len(),
        collect(s.children, n, tagged("Track"@), track_reader(targets, path)) is Ok,
        0 <= k < collect(s.children, n, tagged("Track"@), track_reader(targets, path))->Ok_0.len(),
    ensures
        collect(s.children, n, tagged("Track"@), track_reader(targets, path))->Ok_0[k].balanced(),
        targets.contains(
            collect(s.children, n, tagged("Track"@), track_reader(targets, path))->Ok_0[k].target,
        ),
    decreases n,
{
    let tracks = collect(s.children, n, tagged("Track"@), track_reader(targets, path))->Ok_0;
    let before = collect(s.children, n - 1, tagged("Track"@), track_reader(targets, path))->Ok_0;
    if k < before.len() {
        lemma_tracks_sound(s, targets, path, n - 1, k);
    } else {
        let position = target_position_of(s.children[n - 1])->Ok_0;
        assert(tracks[k].target == targets[position as int]);
    }
}

/// The targets of a node, counted.
pub fn read_targets(s: &Structure, morphs: bool) -> (targets: Vec<TrackTarget>)
    ensures
        targets@ == targets_of(s@, morphs),
{
    proof {
        lemma_children_view(*s);
    }
    let mut targets: Vec<TrackTarget> = Vec::new();
    let mut transformations: usize = 0;
    let mut morph_weights: usize = 0;
    let mut i: usize = 0;
    while i < s.children.len()
        invariant
            i <= s.children.len(),
            s@.children == forest_view(s.children@),
            targets@ == targets_among(s@.children, i as int, morphs),
            transformations == transformations_among(s@.children, i as int),
            morph_weights == morph_weights_among(s@.children, i as int),
            transformations + morph_weights <= i,
        decreases s.children.len() - i,
    {
        let c = &s.children[i];
        assert(s@.children[i as int] == c@);
        if is_transformation_structure(c) {
            targets.push(TrackTarget::Transformation(transformations));
            transformations += 1;
        } else if text_eq(c.tag.as_str(), "MorphWeight") {
            if morphs {
                targets.push(TrackTarget::MorphWeight(morph_weights));
            }
            morph_weights += 1;
        }
        i += 1;
    }
    targets
}

/// The kind of a curve.
pub fn read_curve_kind(s: &Structure, category: Category) -> (r: Result<String, AssemblyError>)
    ensures
        match r {
            Ok(kind) => curve_kind_of(s@, category) == Ok::<Seq<char>, ErrorView>(kind@),
            Err(e) => curve_kind_of(s@, category) == Err::<Seq<char>, ErrorView>(e@),
        },
{
    match property_text(s, "curve") {
        Err(e) => Err(e),
        Ok(Some(kind)) => Ok(kind.clone()),
        Ok(None) => Ok(default_kind(category).to_owned()),
    }
}

/// The channels of a curve: the number of its Key structures, and their
/// values.
pub fn read_channels(s: &Structure) -> (r: Result<(usize, Vec<Scalar>), AssemblyError>)
    ensures
        match r {
            Ok((count, joined)) => {
                &&& channels_of(s@) is Ok
                &&& channels_of(s@)->Ok_0.count == count
                &&& channels_of(s@)->Ok_0.values == joined@
            },
            Err(e) => channels_of(s@) == Err::<Channels, ErrorView>(e@),
        },
{
    proof {
        lemma_children_view(*s);
    }
    let mut count: usize = 0;
    let mut keys: usize = 0;
    let mut joined: Vec<Scalar> = Vec::new();
    let mut i: usize = 0;
    while i < s.children.len()
        invariant
            i <= s.children.len(),
            s@.children == forest_view(s.children@),
            count <= i,
            channels_among(s@.children, i as int) == Ok::<Channels, ErrorView>(
                Channels { count: count as nat, keys: keys as nat, values: joined@ },
            ),
        decreases s.children.len() - i,
    {
        let c = &s.children[i];
        assert(s@.children[i as int] == c@);
        if text_eq(c.tag.as_str(), "Key") {
            match values(c) {
                Err(e) => {
                    proof {
                        lemma_channels_fail(s@.children, i + 1, s@.children.len() as int);
                    }
                    return Err(e);
                },
                Ok(mut v) => {
                    if count == 0 {
                        keys = v.len();
                        joined = v;
                        count = 1;
                    } else if v.len() == keys {
                        joined.append(&mut v);
                        count += 1;
                    } else {
                        proof {
                            lemma_channels_fail(s@.children, i + 1, s@.children.len() as int);
                        }
                        return Err(AssemblyError::ArityMismatch { expected: keys, actual: v.len() });
                    }
                },
            }
        }
        i += 1;
    }
    Ok((count, joined))
}

/// The channels of some children are those of all of them, where they fail.
pub proof fn lemma_channels_fail(children: Seq<StructureView>, n: int, m: int)
    requires
        0 <= n <= m <= children.len(),
        channels_among(children, n) is Err,
    ensures
        channels_among(children, m) == channels_among(children, n),
    decreases m - n,
{
    if n < m {
        lemma_channels_fail(children, n, m - 1);
    }
}

fn time_channels(curve: &Time) -> (n: usize)
    ensures
        n == curve@.channels(),
{
    match curve {
        Time::Linear(_) => 1,
        Time::Bezier(_) => 3,
    }
}

fn value_channels(curve: &Value) -> (n: usize)
    ensures
        n == curve@.channels(),
{
    match curve {
        Value::Constant(_) => 1,
        Value::Linear(_) => 1,
        Value::Bezier(_) => 3,
        Value::Tcb(_) => 4,
    }
}

/// Reads the time curve of a track.
pub fn read_time_curve(s: &Structure) -> (r: Result<Time, AssemblyError>)
    ensures
        crate::error::result_view(r) == time_curve_of(s@),
{
    let (count, joined) = match read_channels(s) {
        Ok(found) => found,
        Err(e) => {
            return Err(e);
        },
    };
    let kind = match read_curve_kind(s, Category::Time) {
        Ok(kind) => kind,
        Err(e) => {
            return Err(e);
        },
    };
    match classify_time(kind.as_str(), joined.as_slice()) {
        Err(e) => Err(e),
        Ok(curve) => {
            let expected = time_channels(&curve);
            if count == expected {
                Ok(curve)
            } else {
                Err(AssemblyError::ArityMismatch { expected, actual: count })
            }
        },
    }
}

/// Reads the value curve of a track.
pub fn read_value_curve(s: &Structure) -> (r: Result<Value, AssemblyError>)
    ensures
        crate::error::result_view(r) == value_curve_of(s@),
{
    let (count, joined) = match read_channels(s) {
        Ok(found) => found,
        Err(e) => {
            return Err(e);
        },
    };
    let kind = match read_curve_kind(s, Category::Value) {
        Ok(kind) => kind,
        Err(e) => {
            return Err(e);
        },
    };
    match classify_value(kind.as_str(), joined.as_slice()) {
        Err(e) => Err(e),
        Ok(curve) => {
            let expected = value_channels(&curve);
            if count == expected {
                Ok(curve)
            } else {
                Err(AssemblyError::ArityMismatch { expected, actual: count })
            }
        },
    }
}

/// Reads a track of a node and resolves its target.
pub fn read_track(s: &Structure, targets: &Vec<TrackTarget>, path: &Vec<usize>) -> (r: Result<
    Track,
    AssemblyError,
>)
    ensures
        crate::error::result_view(r) == track_of(s@, targets@, path@),
{
    if property(s, "target").is_none() {
        return Err(malformed_structure(s));
    }
    let position = match property_index(s, "target", 0) {
        Ok(position) => position as usize,
        Err(e) => {
            return Err(e);
        },
    };
    if position >= targets.len() {
        return Err(
            AssemblyError::InvalidTrackTarget { node: slice_to_vec(path.as_slice()), position },
        );
    }
    let time = match child(s, "Time") {
        None => {
            return Err(malformed_structure(s));
        },
        Some(c) => match read_time_curve(c) {
            Ok(time) => time,
            Err(e) => {
                return Err(e);
            },
        },
    };
    let value = match child(s, "Value") {
        None => {
            return Err(malformed_structure(s));
        },
        Some(c) => match read_value_curve(c) {
            Ok(value) => value,
            Err(e) => {
                return Err(e);
            },
        },
    };
    let time_keys = time.key_count();
    let value_keys = value.key_count();
    if time_keys != value_keys {
        return Err(AssemblyError::KeyCountMismatch { time_keys, value_keys });
    }
    Ok(Track { target: targets[position], time, value })
}

/// Reads an animation of a node.
pub fn read_animation(s: &Structure, targets: &Vec<TrackTarget>, path: &Vec<usize>) -> (r: Result<
    Animation,
    AssemblyError,
>)
    ensures
        crate::error::result_view(r) == animation_of(s@, targets@, path@),
{
    let clip = match property_index(s, "clip", 0) {
        Ok(clip) => clip,
        Err(e) => {
            return Err(e);
        },
    };
    let begin = match property_number(s, "begin") {
        Ok(begin) => begin,
        Err(e) => {
            return Err(e);
        },
    };
    let end = match property_number(s, "end") {
        Ok(end) => end,
        Err(e) => {
            return Err(e);
        },
    };
    proof {
        lemma_children_view(*s);
    }
    let mut tracks: Vec<Track> = Vec::new();
    let mut i: usize = 0;
    assert(tracks@.map_values(|t: Track| t@) =~= Seq::empty());
    while i < s.children.len()
        invariant
            i <= s.children.len(),
            s@.children == forest_view(s.children@),
            index_property(s@, "clip"@, 0) is Ok,
            number_property(s@, "begin"@) is Ok,
            number_property(s@, "end"@) is Ok,
            collect(s@.children, i as int, tagged("Track"@), track_reader(targets@, path@)) == Ok::<
                Seq<TrackView>,
                ErrorView,
            >(tracks@.map_values(|t: Track| t@)),
        decreases s.children.len() - i,
    {
        let c = &s.children[i];
        assert(s@.children[i as int] == c@);
        if text_eq(c.tag.as_str(), "Track") {
            match read_track(c, targets, path) {
                Err(e) => {
                    proof {
                        lemma_collect_fails(
                            s@.children,
                            i + 1,
                            s@.children.len() as int,
                            tagged("Track"@),
                            track_reader(targets@, path@),
                        );
                    }
                    return Err(e);
                },
                Ok(t) => {
                    proof {
                        let f = |t: Track| t@;
                        assert(tracks@.push(t).map_values(f) =~= tracks@.map_values(f).push(t@));
                    }
                    tracks.push(t);
                },
            }
        }
        i += 1;
    }
    Ok(Animation { clip, begin, end, tracks })
}

/// Reads the animations of a node, in the order of the document.
pub fn read_animations(s: &Structure, targets: &Vec<TrackTarget>, path: &Vec<usize>) -> (r: Result<
    Vec<Animation>,
    AssemblyError,
>)
    ensures
        match r {
            Ok(list) => animations_of(s@, targets@, path@) == Ok::<Seq<AnimationView>, ErrorView>(
                animation_views(list@),
            ),
            Err(e) => animations_of(s@, targets@, path@) == Err::<Seq<AnimationView>, ErrorView>(
                e@,
            ),
        },
{
    proof {
        lemma_children_view(*s);
    }
    let mut list: Vec<Animation> = Vec::new();
    let mut i: usize = 0;
    assert(animation_views(list@) =~= Seq::empty());
    while i < s.children.len()
        invariant
            i <= s.children.len(),
            s@.children == forest_view(s.children@),
            collect(
                s@.children,
                i as int,
                tagged("Animation"@),
                animation_reader(targets@, path@),
            ) == Ok::<Seq<AnimationView>, ErrorView>(animation_views(list@)),
        decreases s.children.len() - i,
    {
        let c = &s.children[i];
        assert(s@.children[i as int] == c@);
        if text_eq(c.tag.as_str(), "Animation") {
            match read_animation(c, targets, path) {
                Err(e) => {
                    proof {
                        lemma_collect_fails(
                            s@.children,
                            i + 1,
                            s@.children.len() as int,
                            tagged("Animation"@),
                            animation_reader(targets@, path@),
                        );
                    }
                    return Err(e);
                },
                Ok(a) => {
                    proof {
                        assert(animation_views(list@.push(a)) =~= animation_views(list@).push(a@));
                    }
                    list.push(a);
                },
            }
        }
        i += 1;
    }
    Ok(list)
}

} // verus!
