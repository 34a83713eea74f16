use vstd::prelude::*;
use vstd::arithmetic::div_mod::{lemma_div_is_ordered, lemma_div_multiples_vanish};
use crate::error::{LayoutError, LayoutErrorKind};
use crate::geometry::{axis_length, axis_origin, get_axis_length, Direction, Padding, Rect, MAX_COORD};
use crate::key::{Key, KeyKind};

verus! {

/// How an item asks to be sized along the main axis.
#[derive(Clone, Copy, Debug, PartialEq, Eq, Structural)]
pub enum Spec {
    /// A fixed length in pixels.
    Pixels(u32),
    /// A percentage of the frame's main-axis length.
    Percent(u32),
    /// A share of the space left over, in proportion to the weight.
    Flex(u32),
}

/// A size as a layout records it; percentages are resolved against the
/// frame when the layout is solved.
#[derive(Clone, Copy, Debug, PartialEq, Eq, Structural)]
pub enum Size {
    Pixels(u32),
    Percent(u32),
    Flex(u32),
}

/// One entry of a layout: its key, the key of its size, and, for an item
/// that holds a nested layout, that layout's direction and padding.
#[derive(Clone, Copy, Debug)]
pub struct Item {
    key: Key,
    size_key: Key,
    nested: Option<(Direction, Padding)>,
}

/// Direction, padding and the items of a layout, in insertion order.
#[derive(Debug)]
pub struct LayoutInfo {
    direction: Direction,
    padding: Padding,
    items: Vec<Item>,
}

/// Receives each item's rectangle once a layout is solved.
pub trait OnLayout {
    /// Every key and rectangle handed to the sink so far, in order.
    spec fn handed(&self) -> Seq<(Key, Rect)>;

    fn on_layout(&mut self, key: Key, rect: Rect)
        ensures
            final(self).handed() == old(self).handed().push((key, rect)),
    ;
}

/// A sink that keeps what it is handed.
pub struct PlacementLog {
    pub entries: Vec<(Key, Rect)>,
}

impl OnLayout for PlacementLog {
    open spec fn handed(&self) -> Seq<(Key, Rect)> {
        self.entries@
    }

    fn on_layout(&mut self, key: Key, rect: Rect) {
        self.entries.push((key, rect));
    }
}

/// A layout under construction. `solve` consumes it.
#[derive(Debug)]
pub struct Layout {
    /// The index of the last key minted.
    next_key: u32,
    /// Each item's size under its size key, in the order of the items.
    sizes: Vec<(Key, Size)>,
    info: LayoutInfo,
}

/// The rectangle that `solve` gave an item. For an item added by `nest`,
/// `child` is a fresh, empty layout with the nested direction and padding,
/// ready to be filled for that rectangle.
#[derive(Debug)]
pub struct Placement {
    pub key: Key,
    pub rect: Rect,
    pub child: Option<Layout>,
}

/// What a layout holds: its direction and padding, and for each item in
/// order its key, its size and its nested direction and padding, if any.
pub struct LayoutView {
    pub direction: Direction,
    pub padding: Padding,
    pub keys: Seq<Key>,
    pub sizes: Seq<Size>,
    pub nested: Seq<Option<(Direction, Padding)>>,
    /// The count of keys minted so far, plus one.
    pub next_key: nat,
}

pub open spec fn spec_of(s: Spec) -> Size {
    match s {
        Spec::Pixels(v) => Size::Pixels(v),
        Spec::Percent(v) => Size::Percent(v),
        Spec::Flex(v) => Size::Flex(v),
    }
}

/// Main-axis length that a pixel or percent size takes on an axis of length
/// `axis`, percentages rounded down; a flex size takes none here.
pub open spec fn fixed_len(s: Size, axis: int) -> int {
    match s {
        Size::Pixels(v) => v as int,
        Size::Percent(p) => axis * p / 100,
        Size::Flex(_) => 0,
    }
}

/// The flex weight of a size, zero for the other kinds.
pub open spec fn weight(s: Size) -> int {
    match s {
        Size::Flex(w) => w as int,
        _ => 0,
    }
}

/// Sum of `fixed_len` over the first `i` sizes.
pub open spec fn fixed_upto(sizes: Seq<Size>, axis: int, i: int) -> int
    decreases i,
{
    if i <= 0 {
        0
    } else {
        fixed_upto(sizes, axis, i - 1) + fixed_len(sizes[i - 1], axis)
    }
}

/// Sum of the flex weights of the first `i` sizes.
pub open spec fn weight_upto(sizes: Seq<Size>, i: int) -> int
    decreases i,
{
    if i <= 0 {
        0
    } else {
        weight_upto(sizes, i - 1) + weight(sizes[i - 1])
    }
}

/// Where the flex space reaches once flex weight `before` has been placed:
/// `avail * before / total`, rounded down. Each flex item takes the space
/// between its two edges, so the flex items together take exactly `avail`.
pub open spec fn flex_edge(avail: int, before: int, total: int) -> int {
    if total > 0 {
        avail * before / total
    } else {
        0
    }
}

impl LayoutView {
    pub open spec fn empty(direction: Direction, padding: Padding) -> LayoutView {
        LayoutView {
            direction,
            padding,
            keys: Seq::empty(),
            sizes: Seq::empty(),
            nested: Seq::empty(),
            next_key: 1,
        }
    }

    pub open spec fn len(self) -> nat {
        self.sizes.len()
    }

    pub open spec fn axis(self, frame: Rect) -> int {
        axis_length(frame, self.direction)
    }

    /// Main-axis length taken by all pixel and percent items.
    pub open spec fn fixed_total(self, frame: Rect) -> int {
        fixed_upto(self.sizes, self.axis(frame), self.len() as int)
    }

    /// Sum of all flex weights.
    pub open spec fn weight_total(self) -> int {
        weight_upto(self.sizes, self.len() as int)
    }

    /// Main-axis space left for flex items once padding and the fixed sizes
    /// are taken.
    pub open spec fn available(self, frame: Rect) -> int {
        self.axis(frame) - self.padding.main_total() - self.fixed_total(frame)
    }

    /// Final main-axis length of item `i`.
    pub open spec fn main_len(self, frame: Rect, i: int) -> int {
        match self.sizes[i] {
            Size::Flex(_) => flex_edge(
                self.available(frame),
                weight_upto(self.sizes, i + 1),
                self.weight_total(),
            ) - flex_edge(self.available(frame), weight_upto(self.sizes, i), self.weight_total()),
            _ => fixed_len(self.sizes[i], self.axis(frame)),
        }
    }

    /// Sum of the final lengths of the first `i` items.
    pub open spec fn offset(self, frame: Rect, i: int) -> int
        decreases i,
    {
        if i <= 0 {
            0
        } else {
            self.offset(frame, i - 1) + self.main_len(frame, i - 1)
        }
    }

    /// Main-axis coordinate where item `i` begins.
    pub open spec fn start(self, frame: Rect, i: int) -> int {
        axis_origin(frame, self.direction) + self.padding.start_main + self.offset(frame, i)
    }

    /// `r` is the rectangle of item `i`: it begins at `start(i)` on the main
    /// axis with length `main_len(i)`, and fills the cross axis less padding.
    pub open spec fn placed(self, frame: Rect, i: int, r: Rect) -> bool {
        let p = self.padding;
        match self.direction {
            Direction::Right => {
                &&& r.x == self.start(frame, i)
                &&& r.width == self.main_len(frame, i)
                &&& r.y == frame.y + p.start_cross
                &&& r.height == frame.height - p.start_cross - p.end_cross
            },
            Direction::Down => {
                &&& r.x == frame.x + p.start_cross
                &&& r.width == frame.width - p.start_cross - p.end_cross
                &&& r.y == self.start(frame, i)
                &&& r.height == self.main_len(frame, i)
            },
        }
    }
}

impl View for Layout {
    type V = LayoutView;

    closed spec fn view(&self) -> LayoutView {
        LayoutView {
            direction: self.info.direction,
            padding: self.info.padding,
            keys: self.info.items@.map_values(|it: Item| it.key),
            sizes: self.sizes@.map_values(|e: (Key, Size)| e.1),
            nested: self.info.items@.map_values(|it: Item| it.nested),
            next_key: self.next_key as nat,
        }
    }
}

impl Layout {
    /// Item `i` has key index `2i + 2` and size key index `2i + 3`: each
    /// `add` mints two keys from one counter.
    pub closed spec fn wf(&self) -> bool {
        let n = self.info.items@.len();
        &&& self.sizes@.len() == n
        &&& self.next_key == 1 + 2 * n
        &&& forall|i: int|
            0 <= i < n ==> {
                &&& (#[trigger] self.info.items@[i]).key.index == 2 * i + 2
                &&& self.info.items@[i].key.kind != KeyKind::Size
                &&& self.info.items@[i].size_key == Key { kind: KeyKind::Size, index: (2 * i + 3) as u32 }
                &&& self.sizes@[i].0 == self.info.items@[i].size_key
            }
    }

    pub fn new(direction: Direction, padding: Padding) -> (r: Layout)
        ensures
            r.wf(),
            r@ == LayoutView::empty(direction, padding),
    {
        let r = Layout {
            next_key: 1,
            sizes: Vec::new(),
            info: LayoutInfo { direction, padding, items: Vec::new() },
        };
        proof {
            assert(r@.keys =~= Seq::empty());
            assert(r@.sizes =~= Seq::empty());
            assert(r@.nested =~= Seq::empty());
        }
        r
    }

    fn generate_key(&mut self, kind: KeyKind) -> (k: Key)
        requires
            old(self).next_key < u32::MAX,
        ensures
            final(self).next_key == old(self).next_key + 1,
            final(self).sizes == old(self).sizes,
            final(self).info == old(self).info,
            k == (Key { kind, index: final(self).next_key }),
    {
        self.next_key = self.next_key + 1;
        Key { kind, index: self.next_key }
    }

    fn generate_size_key(&mut self, s: Spec) -> (k: Key)
        requires
            old(self).next_key < u32::MAX,
        ensures
            final(self).next_key == old(self).next_key + 1,
            final(self).info == old(self).info,
            k == (Key { kind: KeyKind::Size, index: final(self).next_key }),
            final(self).sizes@ == old(self).sizes@.push((k, spec_of(s))),
    {
        let k = self.generate_key(KeyKind::Size);
        let size = match s {
            Spec::Pixels(v) => Size::Pixels(v),
            Spec::Percent(v) => Size::Percent(v),
            Spec::Flex(v) => Size::Flex(v),
        };
        self.sizes.push((k, size));
        k
    }

    fn add_item(&mut self, item: Item)
        ensures
            final(self).next_key == old(self).next_key,
            final(self).sizes == old(self).sizes,
            final(self).info.direction == old(self).info.direction,
            final(self).info.padding == old(self).info.padding,
            final(self).info.items@ == old(self).info.items@.push(item),
    {
        self.info.items.push(item);
    }

    fn add_with_key(&mut self, kind: KeyKind, size: Spec, nested: Option<(Direction, Padding)>) -> (r:
        Result<Key, LayoutError>)
        requires
            old(self).wf(),
            kind != KeyKind::Size,
        ensures
            final(self).wf(),
            added(*old(self), *final(self), kind, size, nested, r),
    {
        if self.next_key > u32::MAX - 2 {
            return Err(LayoutError::error(LayoutErrorKind::DuplicateKey, "no fresh key is left for another item"));
        }
        let ghost pre = *self;
        let key = self.generate_key(kind);
        let size_key = self.generate_size_key(size);
        self.add_item(Item { key, size_key, nested });
        proof {
            let n = pre.info.items@.len();
            assert forall|i: int| 0 <= i < n + 1 implies {
                &&& (#[trigger] self.info.items@[i]).key.index == 2 * i + 2
                &&& self.info.items@[i].key.kind != KeyKind::Size
                &&& self.info.items@[i].size_key == Key { kind: KeyKind::Size, index: (2 * i + 3) as u32 }
                &&& self.sizes@[i].0 == self.info.items@[i].size_key
            } by {
                if i < n {
                    assert(pre.info.items@[i] == self.info.items@[i]);
                }
            }
            assert(self@.keys =~= pre@.keys.push(key));
            assert(self@.sizes =~= pre@.sizes.push(spec_of(size)));
            assert(self@.nested =~= pre@.nested.push(nested));
            assert forall|i: int| 0 <= i < n implies pre@.keys[i] != key by {
                assert(pre.info.items@[i].key.index == 2 * i + 2);
            }
        }
        Ok(key)
    }

    pub fn direction(&self) -> (r: Direction)
        ensures
            r == self@.direction,
    {
        self.info.direction
    }

    pub fn padding(&self) -> (r: Padding)
        ensures
            r == self@.padding,
    {
        self.info.padding
    }

    /// The number of items.
    pub fn len(&self) -> (r: usize)
        requires
            self.wf(),
        ensures
            r == self@.len(),
    {
        self.sizes.len()
    }

    /// Appends an item sized by `size` and returns its fresh key.
    pub fn add(&mut self, size: Spec) -> (r: Result<Key, LayoutError>)
        requires
            old(self).wf(),
        ensures
            final(self).wf(),
            added(*old(self), *final(self), KeyKind::Item, size, None, r),
    {
        self.add_with_key(KeyKind::Item, size, None)
    }

    /// Reserves space of `size` that no visible item fills.
    pub fn space(&mut self, size: Spec) -> (r: Result<(), LayoutError>)
        requires
            old(self).wf(),
        ensures
            final(self).wf(),
            exists|k: Result<Key, LayoutError>|
                #[trigger] added(*old(self), *final(self), KeyKind::Space, size, None, k) && (k is Ok
                    <==> r is Ok),
    {
        let k = self.add_with_key(KeyKind::Space, size, None);
        match k {
            Ok(_) => Ok(()),
            Err(e) => Err(e),
        }
    }

    /// Appends an item that will hold a layout of its own, running along
    /// `direction` with `padding`, and returns the item's key.
    pub fn nest(&mut self, size: Spec, direction: Direction, padding: Padding) -> (r: Result<
        Key,
        LayoutError,
    >)
        requires
            old(self).wf(),
        ensures
            final(self).wf(),
            added(*old(self), *final(self), KeyKind::Item, size, Some((direction, padding)), r),
    {
        self.add_with_key(KeyKind::Item, size, Some((direction, padding)))
    }
}

/// Bound on `fixed_len` for a frame in range.
pub open spec fn fixed_bound() -> int {
    4722366482869645213696
}

proof fn lemma_fixed_len_bounds(s: Size, axis: int)
    requires
        0 <= axis <= MAX_COORD,
    ensures
        0 <= fixed_len(s, axis) <= fixed_bound(),
{
    if let Size::Percent(p) = s {
        assert(0 <= axis * p <= MAX_COORD * 0x1_0000_0000) by (nonlinear_arith)
            requires
                0 <= axis <= MAX_COORD,
                0 <= p <= 0xffff_ffff,
        ;
    }
}

proof fn lemma_fixed_upto_monotone(sizes: Seq<Size>, axis: int, i: int, j: int)
    requires
        0 <= i <= j <= sizes.len(),
        0 <= axis <= MAX_COORD,
    ensures
        0 <= fixed_upto(sizes, axis, i) <= fixed_upto(sizes, axis, j),
    decreases j,
{
    if i < j {
        lemma_fixed_upto_monotone(sizes, axis, i, j - 1);
        lemma_fixed_len_bounds(sizes[j - 1], axis);
    } else if i > 0 {
        lemma_fixed_upto_monotone(sizes, axis, i - 1, i - 1);
        lemma_fixed_len_bounds(sizes[i - 1], axis);
    }
}

pub(crate) proof fn lemma_weight_upto_monotone(sizes: Seq<Size>, i: int, j: int)
    requires
        0 <= i <= j <= sizes.len(),
    ensures
        0 <= weight_upto(sizes, i) <= weight_upto(sizes, j),
        weight_upto(sizes, j) <= j * 0xffff_ffff,
    decreases j,
{
    if i < j {
        lemma_weight_upto_monotone(sizes, i, j - 1);
    } else if i > 0 {
        lemma_weight_upto_monotone(sizes, i - 1, i - 1);
    }
}

/// Flex edges never go back and never pass `avail`.
pub(crate) proof fn lemma_flex_edge_ordered(avail: int, b1: int, b2: int, total: int)
    requires
        0 <= avail,
        0 <= b1 <= b2 <= total,
    ensures
        0 <= flex_edge(avail, b1, total) <= flex_edge(avail, b2, total) <= avail,
        flex_edge(avail, total, total) == if total > 0 { avail } else { 0 },
        flex_edge(avail, 0, total) == 0,
{
    if total > 0 {
        assert(0 <= avail * b1 <= avail * b2 <= avail * total) by (nonlinear_arith)
            requires
                0 <= avail,
                0 <= b1 <= b2 <= total,
        ;
        lemma_div_is_ordered(0, avail * b1, total);
        lemma_div_is_ordered(avail * b1, avail * b2, total);
        lemma_div_is_ordered(avail * b2, avail * total, total);
        assert(avail * total == total * avail) by (nonlinear_arith);
        lemma_div_multiples_vanish(avail, total);
    }
}

impl LayoutView {
    /// The items taken so far take their fixed lengths and the flex space up
    /// to the edge of the weight placed so far.
    pub(crate) proof fn lemma_offset(self, frame: Rect, i: int)
        requires
            0 <= i <= self.len(),
            0 <= self.axis(frame) <= MAX_COORD,
            self.available(frame) > 0,
        ensures
            self.offset(frame, i) == fixed_upto(self.sizes, self.axis(frame), i) + flex_edge(
                self.available(frame),
                weight_upto(self.sizes, i),
                self.weight_total(),
            ),
        decreases i,
    {
        lemma_weight_upto_monotone(self.sizes, 0, self.len() as int);
        lemma_flex_edge_ordered(self.available(frame), 0, 0, self.weight_total());
        if i > 0 {
            self.lemma_offset(frame, i - 1);
        }
    }

    /// Each item's final length is between zero and the axis length less
    /// padding, and so is the offset of every item.
    proof fn lemma_len_bounds(self, frame: Rect, i: int)
        requires
            0 <= i < self.len(),
            0 <= self.axis(frame) <= MAX_COORD,
            self.available(frame) > 0,
        ensures
            0 <= self.main_len(frame, i),
            0 <= self.offset(frame, i),
            self.offset(frame, i) + self.main_len(frame, i) <= self.axis(frame)
                - self.padding.main_total(),
    {
        let n = self.len() as int;
        let axis = self.axis(frame);
        let a = self.available(frame);
        let w = self.weight_total();
        lemma_fixed_upto_monotone(self.sizes, axis, i, i + 1);
        lemma_fixed_upto_monotone(self.sizes, axis, i + 1, n);
        lemma_weight_upto_monotone(self.sizes, i, i + 1);
        lemma_weight_upto_monotone(self.sizes, i + 1, n);
        lemma_flex_edge_ordered(a, weight_upto(self.sizes, i), weight_upto(self.sizes, i + 1), w);
        lemma_flex_edge_ordered(a, weight_upto(self.sizes, i + 1), w, w);
        lemma_flex_edge_ordered(a, 0, weight_upto(self.sizes, i), w);
        self.lemma_offset(frame, i);
        self.lemma_offset(frame, i + 1);
    }
}

proof fn lemma_fixed_upto_bound(sizes: Seq<Size>, axis: int, i: int)
    requires
        0 <= i <= sizes.len(),
        0 <= axis <= MAX_COORD,
    ensures
        0 <= fixed_upto(sizes, axis, i) <= i * fixed_bound(),
    decreases i,
{
    if i > 0 {
        lemma_fixed_upto_bound(sizes, axis, i - 1);
        lemma_fixed_len_bounds(sizes[i - 1], axis);
    }
}

fn flex_edge_exec(avail: i128, before: i128, total: i128) -> (r: i128)
    requires
        0 <= avail <= MAX_COORD,
        0 <= before <= total <= 0x1_0000_0000_0000_0000,
    ensures
        r == flex_edge(avail as int, before as int, total as int),
{
    if total > 0 {
        assert(0 <= avail * before <= MAX_COORD * 0x1_0000_0000_0000_0000) by (nonlinear_arith)
            requires
                0 <= avail <= MAX_COORD,
                0 <= before <= 0x1_0000_0000_0000_0000,
        ;
        avail * before / total
    } else {
        0
    }
}

fn fixed_len_exec(s: Size, axis: i128) -> (r: i128)
    requires
        0 <= axis <= MAX_COORD,
    ensures
        r == fixed_len(s, axis as int),
{
    proof {
        lemma_fixed_len_bounds(s, axis as int);
    }
    match s {
        Size::Pixels(v) => v as i128,
        Size::Percent(p) => {
            assert(0 <= axis * p <= MAX_COORD * 0x1_0000_0000) by (nonlinear_arith)
                requires
                    0 <= axis <= MAX_COORD,
                    0 <= p <= 0xffff_ffff,
            ;
            axis * (p as i128) / 100
        },
        Size::Flex(_) => 0,
    }
}

impl Layout {
    /// Places every item inside `frame`, in insertion order.
    ///
    /// Pixel and percent items take their fixed lengths; what is left of the
    /// main axis after padding goes to the flex items in proportion to their
    /// weights. When padding and fixed lengths leave no room at all the
    /// layout fails with `MarginOverrun`.
    pub fn solve(self, frame: Rect) -> (r: Result<Vec<Placement>, LayoutError>)
        requires
            self.wf(),
        ensures
            solved(self@, frame, r),
    {
        if !frame.is_in_range() {
            return Err(LayoutError::error(LayoutErrorKind::OutOfRange, "frame outside the coordinate range"));
        }
        layout_solver(frame, self)
    }
}

impl Layout {
    /// Solves the layout as `solve` does, then hands every placement's key
    /// and rectangle to `sink`, once each, in insertion order. When solving
    /// fails, `sink` is not called and stays as it was.
    pub fn solve_into<S: OnLayout>(self, frame: Rect, sink: &mut S) -> (r: Result<
        Vec<Placement>,
        LayoutError,
    >)
        requires
            self.wf(),
        ensures
            solved(self@, frame, r),
            r is Err ==> *final(sink) == *old(sink),
            r is Ok ==> final(sink).handed() == old(sink).handed() + Seq::new(
                r->Ok_0.len() as nat,
                |i: int| (r->Ok_0[i].key, r->Ok_0[i].rect),
            ),
    {
        let r = self.solve(frame);
        if let Ok(placed) = &r {
            let mut i: usize = 0;
            while i < placed.len()
                invariant
                    0 <= i <= placed.len(),
                    sink.handed() =~= old(sink).handed() + Seq::new(
                        i as nat,
                        |j: int| (placed[j].key, placed[j].rect),
                    ),
                decreases placed.len() - i,
            {
                sink.on_layout(placed[i].key, placed[i].rect);
                i = i + 1;
            }
        }
        r
    }
}

fn layout_solver(frame: Rect, layout: Layout) -> (r: Result<Vec<Placement>, LayoutError>)
    requires
        layout.wf(),
        frame.in_range(),
    ensures
        solved(layout@, frame, r),
{
    let ghost v = layout@;
    let n = layout.info.items.len();
    let direction = layout.info.direction;
    let padding = layout.info.padding;
    let axis = get_axis_length(&frame, direction) as i128;
    let ghost sizes = v.sizes;
    assert(sizes.len() == n);
    assert(forall|i: int| 0 <= i < n ==> #[trigger] sizes[i] == layout.sizes@[i].1);

    // Measure: fixed lengths and flex weights.
    let mut main_sum: i128 = 0;
    let mut flex_sum: i128 = 0;
    let mut i: usize = 0;
    while i < n
        invariant
            0 <= i <= n,
            n == sizes.len(),
            n < 0x8000_0000,
            0 <= axis <= MAX_COORD,
            layout.sizes@.len() == n,
            forall|k: int| 0 <= k < n ==> #[trigger] sizes[k] == layout.sizes@[k].1,
            main_sum == fixed_upto(sizes, axis as int, i as int),
            flex_sum == weight_upto(sizes, i as int),
            0 <= main_sum <= i * fixed_bound(),
            0 <= flex_sum <= i * 0xffff_ffff,
        decreases n - i,
    {
        proof {
            lemma_fixed_len_bounds(sizes[i as int], axis as int);
        }
        match layout.sizes[i].1 {
            Size::Flex(w) => {
                flex_sum = flex_sum + w as i128;
            },
            s => {
                main_sum = main_sum + fixed_len_exec(s, axis);
            },
        }
        i = i + 1;
    }

    let main_available = axis - padding.start_main as i128 - padding.end_main as i128 - main_sum;
    if main_available <= 0 {
        return Err(
            LayoutError::error(
                LayoutErrorKind::MarginOverrun,
                "Ran out of space for children because of margin overrun.",
            ),
        );
    }
    let ghost a = main_available as int;
    assert(a == v.available(frame));
    proof {
        lemma_fixed_upto_bound(sizes, axis as int, n as int);
    }

    // Resolve: every item's final main-axis length.
    let mut final_sizes: Vec<i64> = Vec::new();
    let mut before: i128 = 0;
    let mut i: usize = 0;
    while i < n
        invariant
            0 <= i <= n,
            n == sizes.len(),
            n < 0x8000_0000,
            0 <= axis <= MAX_COORD,
            v == layout@,
            axis == v.axis(frame),
            0 < main_available == v.available(frame),
            main_available <= MAX_COORD,
            flex_sum == v.weight_total(),
            0 <= flex_sum <= n * 0xffff_ffff,
            layout.sizes@.len() == n,
            forall|k: int| 0 <= k < n ==> #[trigger] sizes[k] == layout.sizes@[k].1,
            sizes == v.sizes,
            before == weight_upto(sizes, i as int),
            final_sizes@.len() == i,
            forall|k: int| 0 <= k < i ==> #[trigger] final_sizes@[k] == v.main_len(frame, k),
        decreases n - i,
    {
        proof {
            v.lemma_len_bounds(frame, i as int);
            lemma_weight_upto_monotone(sizes, i as int, i as int + 1);
            lemma_weight_upto_monotone(sizes, i as int + 1, n as int);
            lemma_fixed_upto_bound(sizes, axis as int, i as int);
        }
        let len: i128 = match layout.sizes[i].1 {
            Size::Flex(w) => {
                let lo = flex_edge_exec(main_available, before, flex_sum);
                before = before + w as i128;
                let hi = flex_edge_exec(main_available, before, flex_sum);
                hi - lo
            },
            s => fixed_len_exec(s, axis),
        };
        final_sizes.push(len as i64);
        i = i + 1;
    }

    // Place: walk the items in order with a cursor on the main axis.
    let mut main_cur: i64 = match direction {
        Direction::Right => frame.x + padding.start_main as i64,
        Direction::Down => frame.y + padding.start_main as i64,
    };
    let mut final_rects: Vec<Placement> = Vec::new();
    let mut i: usize = 0;
    while i < n
        invariant
            0 <= i <= n,
            n == sizes.len(),
            n == layout.info.items@.len(),
            0 <= axis <= MAX_COORD,
            frame.in_range(),
            v == layout@,
            layout.wf(),
            direction == v.direction,
            padding == v.padding,
            axis == v.axis(frame),
            0 < v.available(frame),
            final_sizes@.len() == n,
            forall|k: int| 0 <= k < n ==> #[trigger] final_sizes@[k] == v.main_len(frame, k),
            main_cur == v.start(frame, i as int),
            final_rects.len() == i,
            forall|k: int|
                0 <= k < i ==> {
                    &&& (#[trigger] final_rects@[k]).key == v.keys[k]
                    &&& v.placed(frame, k, final_rects@[k].rect)
                    &&& match v.nested[k] {
                        Some((d, pad)) => {
                            &&& final_rects@[k].child is Some
                            &&& final_rects@[k].child->0.wf()
                            &&& final_rects@[k].child->0@ == LayoutView::empty(d, pad)
                        },
                        None => final_rects@[k].child is None,
                    }
                },
        decreases n - i,
    {
        proof {
            v.lemma_len_bounds(frame, i as int);
        }
        let pixels = final_sizes[i];
        let rect = match direction {
            Direction::Right => Rect {
                x: main_cur,
                y: frame.y + padding.start_cross as i64,
                width: pixels,
                height: frame.height - padding.end_cross as i64 - padding.start_cross as i64,
            },
            Direction::Down => Rect {
                x: frame.x + padding.start_cross as i64,
                y: main_cur,
                width: frame.width - padding.end_cross as i64 - padding.start_cross as i64,
                height: pixels,
            },
        };
        main_cur = main_cur + pixels;
        let item = layout.info.items[i];
        let child = match item.nested {
            Some((d, pad)) => Some(Layout::new(d, pad)),
            None => None,
        };
        final_rects.push(Placement { key: item.key, rect, child });
        i = i + 1;
    }
    Ok(final_rects)
}

/// The outcome of solving a layout with view `v` in `frame`: a frame out of
/// range gives `OutOfRange`; otherwise, when padding and fixed sizes leave room, one placement per item in insertion order,
/// each with the item's key and rectangle and, for a nested item, a fresh
/// empty layout; otherwise `MarginOverrun`.
pub open spec fn solved(v: LayoutView, frame: Rect, r: Result<Vec<Placement>, LayoutError>) -> bool {
    match r {
        Ok(p) => {
            &&& frame.in_range()
            &&& v.available(frame) > 0
            &&& p.len() == v.len()
            &&& forall|i: int|
                0 <= i < p.len() ==> {
                    &&& (#[trigger] p[i]).key == v.keys[i]
                    &&& v.placed(frame, i, p[i].rect)
                    &&& match v.nested[i] {
                        Some((d, pad)) => {
                            &&& p[i].child is Some
                            &&& p[i].child->0.wf()
                            &&& p[i].child->0@ == LayoutView::empty(d, pad)
                        },
                        None => p[i].child is None,
                    }
                }
        },
        Err(e) => if frame.in_range() {
            &&& v.available(frame) <= 0
            &&& e.kind == LayoutErrorKind::MarginOverrun
        } else {
            e.kind == LayoutErrorKind::OutOfRange
        },
    }
}

/// No two items of a layout share a key.
pub proof fn law_keys_distinct(l: &Layout)
    requires
        l.wf(),
    ensures
        forall|i: int, j: int| 0 <= i < j < l@.keys.len() ==> l@.keys[i] != l@.keys[j],
{
    assert forall|i: int, j: int| 0 <= i < j < l@.keys.len() implies l@.keys[i] != l@.keys[j] by {
        assert(l.info.items@[i].key.index == 2 * i + 2);
        assert(l.info.items@[j].key.index == 2 * j + 2);
    }
}

/// The effect of registering one item: on success the item is appended
/// with a fresh key of kind `kind`; the only failure is running out of
/// keys, which leaves the layout as it was.
pub open spec fn added(
    pre: Layout,
    post: Layout,
    kind: KeyKind,
    size: Spec,
    nested: Option<(Direction, Padding)>,
    r: Result<Key, LayoutError>,
) -> bool {
    match r {
        Ok(k) => {
            &&& pre@.next_key + 2 <= u32::MAX
            &&& k.kind == kind
            &&& k.index == pre@.next_key + 1
            &&& !pre@.keys.contains(k)
            &&& post@ == (LayoutView {
                keys: pre@.keys.push(k),
                sizes: pre@.sizes.push(spec_of(size)),
                nested: pre@.nested.push(nested),
                next_key: pre@.next_key + 2,
                ..pre@
            })
        },
        Err(e) => {
            &&& pre@.next_key + 2 > u32::MAX
            &&& e.kind == LayoutErrorKind::DuplicateKey
            &&& post@ == pre@
        },
    }
}

} // verus!
