//! Which variation settings a variable font is instantiated with: the
//! caller's requests, held against the axes that the font reports.
//!
//! A request is honoured only for an axis that the font has; its value is
//! clamped into the axis's range, and left out when that gives the axis's
//! default anyway, so that a font is not rebuilt for nothing. An axis record
//! that cannot be read makes the whole font fall back to no variations.

use vstd::prelude::*;
use crate::instance::FontVariation;

verus! {

/// The range of one axis, in the unit of the requests.
#[derive(Clone, Copy, Debug, PartialEq, Eq, Structural, Hash)]
pub struct AxisRange {
    pub min: i32,
    pub max: i32,
    pub default: i32,
}

/// One axis as the font service reported it.
#[derive(Clone, Copy, Debug, PartialEq, Eq, Structural, Hash)]
pub struct VariationAxis {
    /// The axis's numeric tag; `None` where the record is no dictionary or
    /// holds no readable tag.
    pub tag: Option<i64>,
    /// The axis's range; `None` where its name, minimum, maximum or default
    /// is missing or unreadable.
    pub range: Option<AxisRange>,
}

/// One setting that the font is instantiated with.
#[derive(Clone, Copy, Debug, PartialEq, Eq, Structural, Hash)]
pub struct AppliedVariation {
    /// Index of the axis among the reported axes.
    pub axis: usize,
    pub value: i32,
}

/// What becomes of one axis.
#[derive(Clone, Copy, Debug, PartialEq, Eq, Structural, Hash)]
pub enum AxisOutcome {
    /// The record could not be read as far as it was needed.
    Malformed,
    /// Nothing was requested for the axis, or the request amounts to the
    /// axis's default.
    Skipped,
    /// The axis is set to this value.
    Applied(i32),
}

/// The value of the first request at or after `from` that names `tag`.
pub open spec fn requested_from(variations: Seq<FontVariation>, tag: i64, from: int) -> Option<i32>
    decreases variations.len() - from,
{
    if from < 0 || from >= variations.len() {
        None
    } else if variations[from].tag as i64 == tag {
        Some(variations[from].value)
    } else {
        requested_from(variations, tag, from + 1)
    }
}

/// The value requested for `tag`: that of the first request naming it.
pub open spec fn requested_value(variations: Seq<FontVariation>, tag: i64) -> Option<i32> {
    requested_from(variations, tag, 0)
}

/// `value` brought up to `min` and then down to `max`.
pub open spec fn clamped(value: i32, min: i32, max: i32) -> i32 {
    let raised = if value < min {
        min
    } else {
        value
    };
    if max < raised {
        max
    } else {
        raised
    }
}

/// What becomes of `axis` under the requests. The range is read only when
/// something was requested for the axis.
pub open spec fn axis_outcome(axis: VariationAxis, variations: Seq<FontVariation>) -> AxisOutcome {
    match axis.tag {
        None => AxisOutcome::Malformed,
        Some(tag) => match requested_value(variations, tag) {
            None => AxisOutcome::Skipped,
            Some(value) => match axis.range {
                None => AxisOutcome::Malformed,
                Some(range) => {
                    let applied = clamped(value, range.min, range.max);
                    if applied != range.default {
                        AxisOutcome::Applied(applied)
                    } else {
                        AxisOutcome::Skipped
                    }
                },
            },
        },
    }
}

/// Whether one of the first `n` axes is malformed.
pub open spec fn malformed_before(
    axes: Seq<VariationAxis>,
    variations: Seq<FontVariation>,
    n: int,
) -> bool {
    exists|i: int| 0 <= i < n && i < axes.len() && #[trigger] axis_outcome(axes[i], variations)
        == AxisOutcome::Malformed
}

/// The settings that the first `n` axes contribute, in the order of the axes.
pub open spec fn applied_before(
    axes: Seq<VariationAxis>,
    variations: Seq<FontVariation>,
    n: int,
) -> Seq<AppliedVariation>
    decreases n,
{
    if n <= 0 || n > axes.len() {
        Seq::empty()
    } else {
        let earlier = applied_before(axes, variations, n - 1);
        match axis_outcome(axes[n - 1], variations) {
            AxisOutcome::Applied(value) => earlier.push(
                AppliedVariation { axis: (n - 1) as usize, value },
            ),
            _ => earlier,
        }
    }
}

/// The settings to instantiate the font with; none means the unvaried font.
pub open spec fn applied_variations(
    axes: Seq<VariationAxis>,
    variations: Seq<FontVariation>,
) -> Seq<AppliedVariation> {
    if malformed_before(axes, variations, axes.len() as int) {
        Seq::empty()
    } else {
        applied_before(axes, variations, axes.len() as int)
    }
}

/// Finds the value requested for `tag`.
pub fn find_requested(variations: &[FontVariation], tag: i64) -> (r: Option<i32>)
    ensures
        r == requested_value(variations@, tag),
{
    let mut i: usize = 0;
    while i < variations.len()
        invariant
            i <= variations.len(),
            requested_value(variations@, tag) == requested_from(variations@, tag, i as int),
        decreases variations.len() - i,
    {
        if variations[i].tag as i64 == tag {
            return Some(variations[i].value);
        }
        i += 1;
    }
    None
}

/// Computes `clamped(value, min, max)`.
pub fn clamp_to_range(value: i32, min: i32, max: i32) -> (r: i32)
    ensures
        r == clamped(value, min, max),
        min <= max ==> min <= r <= max,
        min <= value <= max ==> r == value,
{
    let raised = if value < min {
        min
    } else {
        value
    };
    if max < raised {
        max
    } else {
        raised
    }
}

/// Decides what becomes of one axis.
pub fn resolve_axis(axis: &VariationAxis, variations: &[FontVariation]) -> (r: AxisOutcome)
    ensures
        r == axis_outcome(*axis, variations@),
{
    let tag = match axis.tag {
        Some(tag) => tag,
        None => return AxisOutcome::Malformed,
    };
    let value = match find_requested(variations, tag) {
        Some(value) => value,
        None => return AxisOutcome::Skipped,
    };
    let range = match axis.range {
        Some(range) => range,
        None => return AxisOutcome::Malformed,
    };
    let applied = clamp_to_range(value, range.min, range.max);
    if applied != range.default {
        AxisOutcome::Applied(applied)
    } else {
        AxisOutcome::Skipped
    }
}

/// Decides the settings to instantiate a font with, given the axes it
/// reports and the caller's requests. An empty result stands for the
/// unvaried font: nothing was requested, nothing requested differs from the
/// defaults, or an axis record was malformed.
pub fn apply_variations(axes: &[VariationAxis], variations: &[FontVariation]) -> (r: Vec<
    AppliedVariation,
>)
    ensures
        r@ == applied_variations(axes@, variations@),
{
    if variations.len() == 0 {
        proof {
            lemma_no_requests(axes@, variations@);
        }
        return Vec::new();
    }
    let mut vals: Vec<AppliedVariation> = Vec::new();
    let mut i: usize = 0;
    while i < axes.len()
        invariant
            i <= axes.len(),
            !malformed_before(axes@, variations@, i as int),
            vals@ == applied_before(axes@, variations@, i as int),
        decreases axes.len() - i,
    {
        match resolve_axis(&axes[i], variations) {
            AxisOutcome::Malformed => {
                return Vec::new();
            },
            AxisOutcome::Skipped => {},
            AxisOutcome::Applied(value) => {
                vals.push(AppliedVariation { axis: i, value });
            },
        }
        i += 1;
    }
    vals
}

/// Without requests the first `n` axes contribute nothing.
pub proof fn lemma_no_requests_before(
    axes: Seq<VariationAxis>,
    variations: Seq<FontVariation>,
    n: int,
)
    requires
        variations.len() == 0,
    ensures
        applied_before(axes, variations, n) == Seq::<AppliedVariation>::empty(),
    decreases n,
{
    if n > 0 && n <= axes.len() {
        lemma_no_requests_before(axes, variations, n - 1);
    }
}

/// Without requests the font stays unvaried, whatever its axes are.
pub proof fn lemma_no_requests(axes: Seq<VariationAxis>, variations: Seq<FontVariation>)
    requires
        variations.len() == 0,
    ensures
        applied_variations(axes, variations) == Seq::<AppliedVariation>::empty(),
{
    lemma_no_requests_before(axes, variations, axes.len() as int);
}

/// Every contribution of the first `n` axes names one of them, in rising
/// order, and carries that axis's outcome.
pub proof fn lemma_applied_before_sound(
    axes: Seq<VariationAxis>,
    variations: Seq<FontVariation>,
    n: int,
    k: int,
)
    requires
        axes.len() <= usize::MAX,
        0 <= k < applied_before(axes, variations, n).len(),
    ensures
        ({
            let a = applied_before(axes, variations, n)[k];
            &&& k <= a.axis < n
            &&& a.axis < axes.len()
            &&& axis_outcome(axes[a.axis as int], variations) == AxisOutcome::Applied(a.value)
            &&& k > 0 ==> applied_before(axes, variations, n)[k - 1].axis < a.axis
        }),
    decreases n,
{
    if n > 0 && n <= axes.len() {
        let earlier = applied_before(axes, variations, n - 1);
        lemma_applied_before_len(axes, variations, n - 1);
        if k < earlier.len() {
            lemma_applied_before_sound(axes, variations, n - 1, k);
        } else if k > 0 {
            lemma_applied_before_sound(axes, variations, n - 1, k - 1);
        }
    }
}

/// The first `n` axes contribute at most `n` settings.
pub proof fn lemma_applied_before_len(
    axes: Seq<VariationAxis>,
    variations: Seq<FontVariation>,
    n: int,
)
    ensures
        applied_before(axes, variations, n).len() <= if n < 0 {
            0
        } else {
            n
        },
    decreases n,
{
    if n > 0 && n <= axes.len() {
        lemma_applied_before_len(axes, variations, n - 1);
    }
}

/// Every axis among the first `n` whose outcome is a value contributes it.
pub proof fn lemma_applied_before_complete(
    axes: Seq<VariationAxis>,
    variations: Seq<FontVariation>,
    n: int,
    i: int,
    value: i32,
)
    requires
        axes.len() <= usize::MAX,
        0 <= i < n <= axes.len(),
        axis_outcome(axes[i], variations) == AxisOutcome::Applied(value),
    ensures
        applied_before(axes, variations, n).contains(
            AppliedVariation { axis: i as usize, value },
        ),
    decreases n,
{
    let earlier = applied_before(axes, variations, n - 1);
    let all = applied_before(axes, variations, n);
    if i == n - 1 {
        assert(all[earlier.len() as int] == AppliedVariation { axis: i as usize, value });
    } else {
        lemma_applied_before_complete(axes, variations, n - 1, i, value);
        let k = choose|k: int|
            0 <= k < earlier.len() && earlier[k] == (AppliedVariation { axis: i as usize, value });
        assert(all[k] == earlier[k]);
    }
}

/// Clamping. Every setting that a font is instantiated with belongs to
/// an axis for which a value was requested; it is that value clamped into the
/// axis's range, hence never above the maximum and, in a range that is not
/// empty, never below the minimum; and it differs from the axis's default.
pub proof fn lemma_applied_is_clamped(
    axes: Seq<VariationAxis>,
    variations: Seq<FontVariation>,
    k: int,
)
    requires
        axes.len() <= usize::MAX,
        0 <= k < applied_variations(axes, variations).len(),
    ensures
        ({
            let a = applied_variations(axes, variations)[k];
            let axis = axes[a.axis as int];
            &&& a.axis < axes.len()
            &&& axis.tag is Some
            &&& axis.range is Some
            &&& requested_value(variations, axis.tag->0) is Some
            &&& a.value == clamped(
                requested_value(variations, axis.tag->0)->0,
                axis.range->0.min,
                axis.range->0.max,
            )
            &&& a.value != axis.range->0.default
            &&& a.value <= axis.range->0.max
            &&& axis.range->0.min <= axis.range->0.max ==> axis.range->0.min <= a.value
        }),
{
    lemma_applied_before_sound(axes, variations, axes.len() as int, k);
}

/// Omission. With well-formed axes, an axis is set exactly when a value
/// was requested for it whose clamped form differs from the default; a
/// request that clamps to the default leaves the axis out.
pub proof fn lemma_applied_iff_off_default(
    axes: Seq<VariationAxis>,
    variations: Seq<FontVariation>,
    i: int,
)
    requires
        axes.len() <= usize::MAX,
        0 <= i < axes.len(),
        !malformed_before(axes, variations, axes.len() as int),
    ensures
        ({
            let axis = axes[i];
            let applied = applied_variations(axes, variations);
            let wanted = requested_value(variations, axis.tag->0);
            let is_set = exists|k: int| 0 <= k < applied.len() && #[trigger] applied[k].axis == i;
            &&& axis.tag is Some
            &&& is_set <==> wanted is Some && clamped(
                wanted->0,
                axis.range->0.min,
                axis.range->0.max,
            ) != axis.range->0.default
        }),
{
    let applied = applied_variations(axes, variations);
    let outcome = axis_outcome(axes[i], variations);
    assert(outcome != AxisOutcome::Malformed);
    match outcome {
        AxisOutcome::Applied(value) => {
            lemma_applied_before_complete(axes, variations, axes.len() as int, i, value);
            let k = choose|k: int|
                0 <= k < applied.len() && applied[k] == (AppliedVariation {
                    axis: i as usize,
                    value,
                });
            assert(applied[k].axis == i);
        },
        _ => {
            assert forall|k: int| 0 <= k < applied.len() implies #[trigger] applied[k].axis
                != i by {
                lemma_applied_before_sound(axes, variations, axes.len() as int, k);
            }
        },
    }
}

} // verus!
