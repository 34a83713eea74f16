use vstd::prelude::*;
use vstd::arithmetic::div_mod::lemma_fundamental_div_mod;
use crate::geometry::{axis_origin, Rect};
use crate::layout::{
    fixed_upto, flex_edge, lemma_flex_edge_ordered, lemma_weight_upto_monotone, fixed_len, weight, weight_upto,
    LayoutView, Size,
};

verus! {

impl LayoutView {
    /// Sum of the final lengths of the flex items among the first `i`.
    pub open spec fn flex_taken(self, frame: Rect, i: int) -> int
        decreases i,
    {
        if i <= 0 {
            0
        } else {
            self.flex_taken(frame, i - 1) + if self.sizes[i - 1] is Flex {
                self.main_len(frame, i - 1)
            } else {
                0
            }
        }
    }
}

/// With only pixel sizes that leave room inside the padding, the layout
/// succeeds, every item is exactly as long as its pixel size, the first
/// begins right after the start padding and each next one where the one
/// before it ends.
pub proof fn law_pixel_only(v: LayoutView, frame: Rect)
    requires
        frame.in_range(),
        forall|i: int| 0 <= i < v.len() ==> #[trigger] v.sizes[i] is Pixels,
        v.fixed_total(frame) < v.axis(frame) - v.padding.main_total(),
    ensures
        v.available(frame) > 0,
        v.start(frame, 0) == axis_origin(frame, v.direction) + v.padding.start_main,
        forall|i: int|
            0 <= i < v.len() ==> (#[trigger] v.main_len(frame, i)) == v.sizes[i]->Pixels_0 as int,
        forall|i: int|
            0 < i < v.len() ==> #[trigger] v.start(frame, i) == v.start(frame, i - 1) + v.main_len(
                frame,
                i - 1,
            ),
{
}

/// A percent item is as long as its percentage of the frame's main-axis
/// length, rounded down to whole pixels.
pub proof fn law_percent_resolution(v: LayoutView, frame: Rect, i: int, p: u32)
    requires
        0 <= i < v.len(),
        v.sizes[i] == Size::Percent(p),
    ensures
        v.main_len(frame, i) == v.axis(frame) * p / 100,
{
}

/// The flex items share the available space `a` in proportion to their
/// weights: together they take exactly `a`, and an item of weight `w` out of
/// a total weight `t` takes `a * w / t` to within less than one pixel.
pub proof fn law_flex_distribution(v: LayoutView, frame: Rect)
    requires
        frame.in_range(),
        v.available(frame) > 0,
        v.weight_total() > 0,
    ensures
        v.flex_taken(frame, v.len() as int) == v.available(frame),
        forall|i: int|
            0 <= i < v.len() && v.sizes[i] is Flex ==> {
                &&& v.available(frame) * weight(v.sizes[i]) - v.weight_total() < v.weight_total()
                    * #[trigger] v.main_len(frame, i)
                &&& v.weight_total() * v.main_len(frame, i) < v.available(frame) * weight(
                    v.sizes[i],
                ) + v.weight_total()
            },
{
    let n = v.len() as int;
    let a = v.available(frame);
    let t = v.weight_total();
    lemma_flex_taken(v, frame, n);
    lemma_weight_upto_monotone(v.sizes, n, n);
    lemma_flex_edge_ordered(a, t, t, t);
    assert forall|i: int|
        0 <= i < v.len() && v.sizes[i] is Flex implies {
            &&& a * weight(v.sizes[i]) - t < t * #[trigger] v.main_len(frame, i)
            &&& t * v.main_len(frame, i) < a * weight(v.sizes[i]) + t
        } by {
        let w = weight(v.sizes[i]);
        let lo = a * weight_upto(v.sizes, i);
        let hi = a * weight_upto(v.sizes, i + 1);
        assert(hi == lo + a * w) by (nonlinear_arith)
            requires
                hi == a * weight_upto(v.sizes, i + 1),
                lo == a * weight_upto(v.sizes, i),
                weight_upto(v.sizes, i + 1) == weight_upto(v.sizes, i) + w,
        ;
        lemma_fundamental_div_mod(lo, t);
        lemma_fundamental_div_mod(hi, t);
        assert(v.main_len(frame, i) == hi / t - lo / t);
        assert(t * v.main_len(frame, i) == t * (hi / t) - t * (lo / t)) by (nonlinear_arith)
            requires
                v.main_len(frame, i) == hi / t - lo / t,
        ;
    }
}

proof fn lemma_flex_taken(v: LayoutView, frame: Rect, i: int)
    requires
        0 <= i <= v.len(),
        frame.in_range(),
        v.available(frame) > 0,
    ensures
        v.flex_taken(frame, i) == flex_edge(
            v.available(frame),
            weight_upto(v.sizes, i),
            v.weight_total(),
        ),
    decreases i,
{
    lemma_weight_upto_monotone(v.sizes, 0, v.len() as int);
    lemma_flex_edge_ordered(v.available(frame), 0, 0, v.weight_total());
    if i > 0 {
        lemma_flex_taken(v, frame, i - 1);
    }
}

/// Items follow one another without gaps or overlaps: the first begins
/// right after the start padding, and each next one begins where the one
/// before it ends.
pub proof fn law_order(v: LayoutView, frame: Rect)
    ensures
        v.start(frame, 0) == axis_origin(frame, v.direction) + v.padding.start_main,
        forall|i: int|
            0 < i < v.len() ==> #[trigger] v.start(frame, i) == v.start(frame, i - 1) + v.main_len(
                frame,
                i - 1,
            ),
{
}

/// When flex items are present they fill the main axis: the last item ends
/// exactly where the end padding begins.
pub proof fn law_flex_fills(v: LayoutView, frame: Rect)
    requires
        frame.in_range(),
        v.available(frame) > 0,
        v.weight_total() > 0,
    ensures
        v.offset(frame, v.len() as int) == v.axis(frame) - v.padding.main_total(),
{
    let n = v.len() as int;
    v.lemma_offset(frame, n);
    lemma_weight_upto_monotone(v.sizes, n, n);
    lemma_flex_edge_ordered(v.available(frame), v.weight_total(), v.weight_total(), v.weight_total());
}

proof fn lemma_same_prefixes(v1: LayoutView, v2: LayoutView, axis: int, i: int)
    requires
        0 <= i <= v1.len(),
        v1.len() == v2.len(),
        forall|k: int|
            0 <= k < v1.len() ==> fixed_len(#[trigger] v1.sizes[k], axis) == fixed_len(v2.sizes[k], axis)
                && weight(v1.sizes[k]) == weight(v2.sizes[k]),
    ensures
        fixed_upto(v1.sizes, axis, i) == fixed_upto(v2.sizes, axis, i),
        weight_upto(v1.sizes, i) == weight_upto(v2.sizes, i),
    decreases i,
{
    if i > 0 {
        lemma_same_prefixes(v1, v2, axis, i - 1);
    }
}

proof fn lemma_same_offsets(v1: LayoutView, v2: LayoutView, frame: Rect, i: int)
    requires
        0 <= i <= v1.len(),
        forall|k: int| 0 <= k < v1.len() ==> #[trigger] v1.main_len(frame, k) == v2.main_len(frame, k),
    ensures
        v1.offset(frame, i) == v2.offset(frame, i),
    decreases i,
{
    if i > 0 {
        lemma_same_offsets(v1, v2, frame, i - 1);
    }
}

/// A percent item is resolved once, to its rounded-down pixel length: a
/// layout that holds `Pixels` of that length in its place has the same
/// room, and every item gets the same rectangle.
pub proof fn law_percent_as_pixels(v1: LayoutView, v2: LayoutView, frame: Rect, j: int, p: u32, q: u32)
    requires
        0 <= j < v1.len(),
        v1.sizes[j] == Size::Percent(p),
        q == v1.axis(frame) * p / 100,
        v2.direction == v1.direction,
        v2.padding == v1.padding,
        v2.sizes == v1.sizes.update(j, Size::Pixels(q)),
    ensures
        v1.available(frame) == v2.available(frame),
        forall|i: int, r: Rect| 0 <= i < v1.len() ==> #[trigger] v1.placed(frame, i, r) == v2.placed(frame, i, r),
{
    let n = v1.len() as int;
    let axis = v1.axis(frame);
    assert forall|k: int| 0 <= k < n implies fixed_len(#[trigger] v1.sizes[k], axis) == fixed_len(v2.sizes[k], axis)
        && weight(v1.sizes[k]) == weight(v2.sizes[k]) by {}
    lemma_same_prefixes(v1, v2, axis, n);
    assert forall|k: int| 0 <= k < n implies #[trigger] v1.main_len(frame, k) == v2.main_len(frame, k) by {
        lemma_same_prefixes(v1, v2, axis, k);
        lemma_same_prefixes(v1, v2, axis, k + 1);
    }
    assert forall|i: int, r: Rect| 0 <= i < n implies #[trigger] v1.placed(frame, i, r) == v2.placed(frame, i, r) by {
        lemma_same_offsets(v1, v2, frame, i);
    }
}

} // verus!
