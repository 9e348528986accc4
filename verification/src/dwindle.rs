use vstd::prelude::*;

use crate::types::SendHWND;

verus! {

/// An axis-aligned rectangle: top-left corner and size.
#[derive(Clone, Copy, Debug, PartialEq, Eq, Structural)]
pub struct Rect {
    pub x: i32,
    pub y: i32,
    pub width: i32,
    pub height: i32,
}

/// The value fits in an `i32`.
pub open spec fn fits_i32(v: int) -> bool {
    i32::MIN <= v <= i32::MAX
}

/// The far edges of the box are representable as `i32`.
pub open spec fn box_ok(b: Rect) -> bool {
    &&& fits_i32(b.x + b.width)
    &&& fits_i32(b.y + b.height)
}

/// Area of a box.
pub open spec fn area(b: Rect) -> int {
    b.width * b.height
}

/// Split ratios are expressed in thousandths of the split length.
pub const RATIO_SCALE: u32 = 1000;

/// The default dwindle split ratio: one half.
pub const DEFAULT_SPLIT_RATIO: u32 = 500;

/// `len * ratio / 1000`, truncated toward zero.
pub open spec fn portion(len: int, ratio: int) -> int {
    if len >= 0 {
        (len * ratio) / 1000
    } else {
        -(((-len) * ratio) / 1000)
    }
}

/// The two boxes a split of `b` produces: top/bottom when `split_top`,
/// left/right otherwise; the first one takes `ratio` thousandths.
pub open spec fn split_boxes(b: Rect, split_top: bool, ratio: u32) -> (Rect, Rect) {
    if split_top {
        let h1 = portion(b.height as int, ratio as int);
        (
            Rect { x: b.x, y: b.y, width: b.width, height: h1 as i32 },
            Rect { x: b.x, y: (b.y + h1) as i32, width: b.width, height: (b.height - h1) as i32 },
        )
    } else {
        let w1 = portion(b.width as int, ratio as int);
        (
            Rect { x: b.x, y: b.y, width: w1 as i32, height: b.height },
            Rect { x: (b.x + w1) as i32, y: b.y, width: (b.width - w1) as i32, height: b.height },
        )
    }
}

proof fn lemma_portion_bounds(len: int, ratio: int)
    requires
        0 <= ratio <= 1000,
    ensures
        len >= 0 ==> 0 <= portion(len, ratio) <= len,
        len < 0 ==> len <= portion(len, ratio) <= 0,
{
    if len >= 0 {
        assert(0 <= len * ratio <= len * 1000) by (nonlinear_arith)
            requires
                len >= 0,
                0 <= ratio <= 1000,
        ;
    } else {
        let m = -len;
        assert(0 <= m * ratio <= m * 1000) by (nonlinear_arith)
            requires
                m >= 0,
                0 <= ratio <= 1000,
        ;
    }
}

/// Splitting a representable box yields two representable boxes, with no
/// truncation in any of the computed coordinates.
pub proof fn lemma_split_boxes_ok(b: Rect, split_top: bool, ratio: u32)
    requires
        box_ok(b),
        ratio <= 1000,
    ensures
        box_ok(split_boxes(b, split_top, ratio).0),
        box_ok(split_boxes(b, split_top, ratio).1),
        split_top ==> {
            let h1 = portion(b.height as int, ratio as int);
            &&& fits_i32(h1)
            &&& fits_i32(b.y + h1)
            &&& fits_i32(b.height - h1)
        },
        !split_top ==> {
            let w1 = portion(b.width as int, ratio as int);
            &&& fits_i32(w1)
            &&& fits_i32(b.x + w1)
            &&& fits_i32(b.width - w1)
        },
{
    lemma_portion_bounds(b.height as int, ratio as int);
    lemma_portion_bounds(b.width as int, ratio as int);
}

/// `len * ratio / 1000` truncated toward zero, computed without overflow.
pub(crate) fn portion_of(len: i32, ratio: u32) -> (r: i32)
    requires
        fits_i32(portion(len as int, ratio as int)),
    ensures
        r == portion(len as int, ratio as int),
{
    if len >= 0 {
        let m: u64 = len as u64;
        assert(m * (ratio as u64) <= 0x8000_0000u64 * 0xFFFF_FFFFu64) by (nonlinear_arith)
            requires m <= 0x8000_0000u64, ratio <= 0xFFFF_FFFFu32;
        let p: u64 = m * (ratio as u64) / 1000;
        p as i32
    } else {
        let m: u64 = (-(len as i64)) as u64;
        assert(m * (ratio as u64) <= 0x8000_0000u64 * 0xFFFF_FFFFu64) by (nonlinear_arith)
            requires m <= 0x8000_0000u64, ratio <= 0xFFFF_FFFFu32;
        let p: u64 = m * (ratio as u64) / 1000;
        -(p as i64) as i32
    }
}


/// Computes `split_boxes(box_area, split_top, split_ratio)`.
pub fn calculate_split_boxes_static(box_area: Rect, split_top: bool, split_ratio: u32) -> (r: (Rect, Rect))
    requires
        box_ok(box_area),
        split_ratio <= 1000,
    ensures
        r == split_boxes(box_area, split_top, split_ratio),
{
    proof {
        lemma_split_boxes_ok(box_area, split_top, split_ratio);
    }
    if split_top {
        let h1 = portion_of(box_area.height, split_ratio);
        (
            Rect { x: box_area.x, y: box_area.y, width: box_area.width, height: h1 },
            Rect {
                x: box_area.x,
                y: box_area.y + h1,
                width: box_area.width,
                height: box_area.height - h1,
            },
        )
    } else {
        let w1 = portion_of(box_area.width, split_ratio);
        (
            Rect { x: box_area.x, y: box_area.y, width: w1, height: box_area.height },
            Rect {
                x: box_area.x + w1,
                y: box_area.y,
                width: box_area.width - w1,
                height: box_area.height,
            },
        )
    }
}

/// The area of `b`, computed without overflow.
fn area_of(b: Rect) -> (r: i64)
    ensures
        r == area(b),
{
    let w = b.width as i64;
    let h = b.height as i64;
    assert(-0x4000_0000_0000_0000 <= w * h <= 0x4000_0000_0000_0000) by (nonlinear_arith)
        requires
            -0x8000_0000 <= w <= 0x8000_0000,
            -0x8000_0000 <= h <= 0x8000_0000,
    ;
    w * h
}

/// A node of a dwindle tree: either a leaf holding one window, or an inner
/// node whose box is split between two children.
#[derive(Debug)]
pub struct DwindleNode {
    pub box_area: Rect,
    /// Share of the first child, in thousandths of the split length.
    pub split_ratio: u32,
    /// `true`: children stacked top/bottom; `false`: side by side.
    pub split_top: bool,
    pub hwnd: Option<SendHWND>,
    pub children: Option<(Box<DwindleNode>, Box<DwindleNode>)>,
}

/// A fresh leaf holding `h` in `b`.
pub open spec fn leaf(h: SendHWND, b: Rect) -> DwindleNode {
    DwindleNode {
        box_area: b,
        split_ratio: DEFAULT_SPLIT_RATIO,
        split_top: false,
        hwnd: Some(h),
        children: None,
    }
}

impl DwindleNode {
    /// Every node is either a leaf with a window or an inner node without
    /// one, and every split ratio is at most one.
    pub open spec fn shape_ok(self) -> bool
        decreases self,
    {
        &&& self.split_ratio <= 1000
        &&& match self.children {
            None => self.hwnd is Some,
            Some((c1, c2)) => self.hwnd is None && c1.shape_ok() && c2.shape_ok(),
        }
    }

    /// Every inner node's children occupy exactly the two halves of its box.
    pub open spec fn boxes_ok(self) -> bool
        decreases self,
    {
        match self.children {
            None => true,
            Some((c1, c2)) => {
                &&& (c1.box_area, c2.box_area) == split_boxes(
                    self.box_area,
                    self.split_top,
                    self.split_ratio,
                )
                &&& c1.boxes_ok()
                &&& c2.boxes_ok()
            },
        }
    }

    /// Height of the tree: a leaf has height zero.
    pub open spec fn depth(self) -> nat
        decreases self,
    {
        match self.children {
            None => 0,
            Some((c1, c2)) => 1 + if c1.depth() >= c2.depth() {
                c1.depth()
            } else {
                c2.depth()
            },
        }
    }

    /// Well-formed tree over a representable box.
    pub open spec fn wf(self) -> bool {
        &&& self.shape_ok()
        &&& box_ok(self.box_area)
        &&& self.boxes_ok()
    }

    /// The tree's structure laid out again from box `b` downward.
    pub open spec fn placed_at(self, b: Rect) -> DwindleNode
        decreases self,
    {
        match self.children {
            None => DwindleNode { box_area: b, ..self },
            Some((c1, c2)) => {
                let (b1, b2) = split_boxes(b, self.split_top, self.split_ratio);
                DwindleNode {
                    box_area: b,
                    children: Some((Box::new(c1.placed_at(b1)), Box::new(c2.placed_at(b2)))),
                    ..self
                }
            },
        }
    }

    /// The windows of the tree, in left-to-right leaf order.
    pub open spec fn windows(self) -> Seq<SendHWND>
        decreases self,
    {
        let own = match self.hwnd {
            Some(h) => seq![h],
            None => Seq::empty(),
        };
        match self.children {
            None => own,
            Some((c1, c2)) => own + c1.windows() + c2.windows(),
        }
    }
}

impl DwindleNode {
    /// The tree after a new window is tiled into it: descend into the child
    /// with the larger area (the second one on a tie) down to a leaf, and
    /// split that leaf, its old window first, along its longer side.
    pub open spec fn with_window(self, h: SendHWND) -> DwindleNode
        decreases self,
    {
        match self.children {
            Some((c1, c2)) => {
                if area(c1.box_area) > area(c2.box_area) {
                    DwindleNode { children: Some((Box::new(c1.with_window(h)), c2)), ..self }
                } else {
                    DwindleNode { children: Some((c1, Box::new(c2.with_window(h)))), ..self }
                }
            },
            None => {
                let top = self.box_area.height > self.box_area.width;
                let (b1, b2) = split_boxes(self.box_area, top, self.split_ratio);
                DwindleNode {
                    split_top: top,
                    hwnd: None,
                    children: Some((Box::new(leaf(self.hwnd->0, b1)), Box::new(leaf(h, b2)))),
                    ..self
                }
            },
        }
    }

    /// Tiling a window in lays out again from the box of every node on its
    /// way down and compares the areas of each inner node's children: those
    /// boxes have representable far edges and those areas fit in an `i32`.
    pub open spec fn split_fits(self) -> bool
        decreases self,
    {
        &&& box_ok(self.box_area)
        &&& match self.children {
            None => true,
            Some((c1, c2)) => {
                &&& fits_i32(area(c1.box_area))
                &&& fits_i32(area(c2.box_area))
                &&& if area(c1.box_area) > area(c2.box_area) {
                    c1.split_fits()
                } else {
                    c2.split_fits()
                }
            },
        }
    }

    /// Removing `t` lays out again only from the box of a node that
    /// collapses into an inner child; such boxes have representable far
    /// edges.
    pub open spec fn remove_fits(self, t: SendHWND) -> bool
        decreases self,
    {
        match self.hwnd {
            Some(_) => true,
            None => match self.children {
                None => true,
                Some((c1, c2)) => {
                    &&& c1.remove_fits(t)
                    &&& if c1.removal(t).0 {
                        c2.children is Some ==> box_ok(self.box_area)
                    } else {
                        &&& c2.remove_fits(t)
                        &&& (c2.removal(t).0 && c1.removal(t).1.children is Some) ==> box_ok(
                            self.box_area,
                        )
                    }
                },
            },
        }
    }

    /// What `split` makes of any tree: descend into the child with the
    /// larger area (the second one on a tie), split the leaf reached as
    /// `with_window` does, and lay every node passed on the way out again
    /// from its own box.
    pub open spec fn split_result(self, h: SendHWND) -> DwindleNode
        decreases self,
    {
        match self.children {
            Some((c1, c2)) => {
                let n = if area(c1.box_area) > area(c2.box_area) {
                    DwindleNode { children: Some((Box::new(c1.split_result(h)), c2)), ..self }
                } else {
                    DwindleNode { children: Some((c1, Box::new(c2.split_result(h)))), ..self }
                };
                n.placed_at(self.box_area)
            },
            None => self.with_window(h),
        }
    }

    /// This node after one of its children was removed and `keep`, the
    /// other one, takes its place.
    pub open spec fn collapsed_into(self, keep: DwindleNode) -> DwindleNode {
        match keep.hwnd {
            Some(h) => DwindleNode { hwnd: Some(h), children: None, ..self },
            None => DwindleNode { hwnd: None, children: keep.children, ..self }.placed_at(
                self.box_area,
            ),
        }
    }

    /// Removal of window `t`: the flag says that this node itself is the
    /// leaf of `t` (the caller drops it); otherwise the tree in which every
    /// inner node with a child leaf of `t` was collapsed into the sibling.
    pub open spec fn removal(self, t: SendHWND) -> (bool, DwindleNode)
        decreases self,
    {
        match self.hwnd {
            Some(h) => (h == t, self),
            None => match self.children {
                None => (false, self),
                Some((c1, c2)) => {
                    let (r1, n1) = c1.removal(t);
                    if r1 {
                        (false, self.collapsed_into(*c2))
                    } else {
                        let (r2, n2) = c2.removal(t);
                        if r2 {
                            (false, self.collapsed_into(n1))
                        } else {
                            (false, DwindleNode { children: Some((Box::new(n1), Box::new(n2))), ..self })
                        }
                    }
                },
            },
        }
    }
}

/// `b` shrunk by `g` on every side (grown when `g` is negative).
pub open spec fn inset(b: Rect, g: i32) -> Rect {
    Rect {
        x: (b.x + g) as i32,
        y: (b.y + g) as i32,
        width: (b.width - g * 2) as i32,
        height: (b.height - g * 2) as i32,
    }
}

/// Every coordinate of `inset(b, g)`, and `g * 2`, fits in an `i32`.
pub open spec fn inset_fits(b: Rect, g: i32) -> bool {
    &&& fits_i32(g * 2)
    &&& fits_i32(b.x + g)
    &&& fits_i32(b.y + g)
    &&& fits_i32(b.width - g * 2)
    &&& fits_i32(b.height - g * 2)
}

impl DwindleNode {
    /// The outer gap `g` can be applied to every window's box without
    /// overflow.
    pub open spec fn gaps_fit(self, g: i32) -> bool
        decreases self,
    {
        &&& (self.hwnd is Some ==> inset_fits(self.box_area, g))
        &&& match self.children {
            None => true,
            Some((c1, c2)) => c1.gaps_fit(g) && c2.gaps_fit(g),
        }
    }

    /// Each window of the tree, in leaf order, with its box shrunk by the
    /// outer gap `g`.
    pub open spec fn layout(self, g: i32) -> Seq<(SendHWND, Rect)>
        decreases self,
    {
        let own = match self.hwnd {
            Some(h) => seq![(h, inset(self.box_area, g))],
            None => Seq::empty(),
        };
        match self.children {
            None => own,
            Some((c1, c2)) => own + c1.layout(g) + c2.layout(g),
        }
    }
}

/// On a well-formed tree, `split` tiles the window in as `with_window`
/// says: laying the nodes out again changes nothing there.
pub proof fn lemma_split_result_wf(n: DwindleNode, h: SendHWND)
    requires
        n.wf(),
    ensures
        n.split_result(h) == n.with_window(h),
    decreases n,
{
    lemma_with_window_wf(n, h);
    match n.children {
        Some((c1, c2)) => {
            lemma_split_boxes_ok(n.box_area, n.split_top, n.split_ratio);
            if area(c1.box_area) > area(c2.box_area) {
                lemma_split_result_wf(*c1, h);
            } else {
                lemma_split_result_wf(*c2, h);
            }
            lemma_placed_at_identity(n.with_window(h));
        },
        None => {},
    }
}

/// Tiling a window into a well-formed tree keeps it well-formed, keeps its
/// box, and adds exactly that window.
pub proof fn lemma_with_window_wf(n: DwindleNode, h: SendHWND)
    requires
        n.wf(),
    ensures
        n.with_window(h).wf(),
        n.with_window(h).box_area == n.box_area,
        n.with_window(h).split_ratio == n.split_ratio,
        n.with_window(h).windows().to_multiset() == n.windows().to_multiset().insert(h),
    decreases n,
{
    broadcast use vstd::seq_lib::group_to_multiset_ensures;
    match n.children {
        Some((c1, c2)) => {
            lemma_split_boxes_ok(n.box_area, n.split_top, n.split_ratio);
            if area(c1.box_area) > area(c2.box_area) {
                lemma_with_window_wf(*c1, h);
                let c1n = c1.with_window(h);
                vstd::seq_lib::lemma_multiset_commutative(c1n.windows(), c2.windows());
                vstd::seq_lib::lemma_multiset_commutative(c1.windows(), c2.windows());
                assert(n.with_window(h).windows() =~= c1n.windows() + c2.windows());
                assert(n.windows() =~= c1.windows() + c2.windows());
                assert(n.with_window(h).shape_ok());
                assert(n.with_window(h).boxes_ok());
            } else {
                lemma_with_window_wf(*c2, h);
                let c2n = c2.with_window(h);
                vstd::seq_lib::lemma_multiset_commutative(c1.windows(), c2n.windows());
                vstd::seq_lib::lemma_multiset_commutative(c1.windows(), c2.windows());
                assert(n.with_window(h).windows() =~= c1.windows() + c2n.windows());
                assert(n.windows() =~= c1.windows() + c2.windows());
                assert(n.with_window(h).shape_ok());
                assert(n.with_window(h).boxes_ok());
            }
        },
        None => {
            let top = n.box_area.height > n.box_area.width;
            lemma_split_boxes_ok(n.box_area, top, n.split_ratio);
            let (b1, b2) = split_boxes(n.box_area, top, n.split_ratio);
            let m = n.with_window(h);
            assert(leaf(n.hwnd->0, b1).windows() == seq![n.hwnd->0]);
            assert(leaf(h, b2).windows() == seq![h]);
            assert(m.windows() =~= seq![n.hwnd->0] + seq![h]);
            assert(n.windows() =~= seq![n.hwnd->0]);
            vstd::seq_lib::lemma_multiset_commutative(seq![n.hwnd->0], seq![h]);
            assert(leaf(n.hwnd->0, b1).wf());
            assert(leaf(h, b2).wf());
            assert(m.shape_ok());
            assert(m.boxes_ok());
        },
    }
}

/// Removing a window from a well-formed tree keeps it well-formed and keeps
/// its box.
pub proof fn lemma_removal_wf(n: DwindleNode, t: SendHWND)
    requires
        n.wf(),
    ensures
        n.removal(t).1.wf(),
        n.removal(t).1.box_area == n.box_area,
        n.removal(t).0 ==> n.removal(t).1 == n && n.hwnd == Some(t),
        n.hwnd == Some(t) ==> n.removal(t).0,
    decreases n,
{
    match n.hwnd {
        Some(h) => {},
        None => match n.children {
            None => {},
            Some((c1, c2)) => {
                lemma_split_boxes_ok(n.box_area, n.split_top, n.split_ratio);
                lemma_removal_wf(*c1, t);
                let (r1, n1) = c1.removal(t);
                if r1 {
                    lemma_collapsed_into_wf(n, *c2);
                } else {
                    lemma_removal_wf(*c2, t);
                    let (r2, n2) = c2.removal(t);
                    if r2 {
                        lemma_collapsed_into_wf(n, n1);
                    } else {
                        let m = DwindleNode { children: Some((Box::new(n1), Box::new(n2))), ..n };
                        assert(m.shape_ok());
                        assert(m.boxes_ok());
                    }
                }
            },
        },
    }
}

/// Collapsing an inner node into a well-formed child keeps it well-formed.
pub proof fn lemma_collapsed_into_wf(n: DwindleNode, keep: DwindleNode)
    requires
        n.shape_ok(),
        box_ok(n.box_area),
        keep.shape_ok(),
    ensures
        n.collapsed_into(keep).wf(),
        n.collapsed_into(keep).box_area == n.box_area,
        n.collapsed_into(keep).windows() == keep.windows(),
{
    match keep.hwnd {
        Some(h) => {
            assert(keep.children is None);
            assert(n.collapsed_into(keep).windows() =~= keep.windows());
        },
        None => {
            let m = DwindleNode { hwnd: None, children: keep.children, ..n };
            assert(keep.children is Some);
            assert(m.shape_ok());
            assert(m.windows() =~= keep.windows());
            lemma_placed_at_wf(m, n.box_area);
        },
    }
}

/// Removing a window from a well-formed tree never overflows.
pub proof fn lemma_wf_remove_fits(n: DwindleNode, t: SendHWND)
    requires
        n.wf(),
    ensures
        n.remove_fits(t),
    decreases n,
{
    match n.children {
        None => {},
        Some((c1, c2)) => {
            lemma_split_boxes_ok(n.box_area, n.split_top, n.split_ratio);
            lemma_wf_remove_fits(*c1, t);
            lemma_wf_remove_fits(*c2, t);
        },
    }
}

/// Laying out a shape-correct tree from a representable box yields a
/// well-formed tree.
pub proof fn lemma_placed_at_wf(n: DwindleNode, b: Rect)
    requires
        n.shape_ok(),
        box_ok(b),
    ensures
        n.placed_at(b).wf(),
        n.placed_at(b).box_area == b,
        n.placed_at(b).windows() == n.windows(),
        n.placed_at(b).split_top == n.split_top,
        n.placed_at(b).split_ratio == n.split_ratio,
        n.placed_at(b).hwnd == n.hwnd,
    decreases n,
{
    match n.children {
        None => {},
        Some((c1, c2)) => {
            let (b1, b2) = split_boxes(b, n.split_top, n.split_ratio);
            lemma_split_boxes_ok(b, n.split_top, n.split_ratio);
            lemma_placed_at_wf(*c1, b1);
            lemma_placed_at_wf(*c2, b2);
        },
    }
}

/// Laying out a well-formed tree from its own box changes nothing.
pub proof fn lemma_placed_at_identity(n: DwindleNode)
    requires
        n.wf(),
    ensures
        n.placed_at(n.box_area) == n,
    decreases n,
{
    match n.children {
        None => {},
        Some((c1, c2)) => {
            lemma_split_boxes_ok(n.box_area, n.split_top, n.split_ratio);
            lemma_placed_at_identity(*c1);
            lemma_placed_at_identity(*c2);
        },
    }
}


impl DwindleNode {
    /// A leaf holding `hwnd` in `area`, split ratio one half.
    pub fn new_leaf(hwnd: SendHWND, area: Rect) -> (r: Self)
        ensures
            r == leaf(hwnd, area),
            box_ok(area) ==> r.wf(),
    {
        DwindleNode {
            box_area: area,
            split_ratio: DEFAULT_SPLIT_RATIO,
            split_top: false,
            hwnd: Some(hwnd),
            children: None,
        }
    }

    /// Lays the children out again from this node's box, all the way down.
    pub fn update_child_areas(&mut self)
        requires
            old(self).shape_ok(),
            old(self).children is Some ==> box_ok(old(self).box_area),
        ensures
            *final(self) == old(self).placed_at(old(self).box_area),
            final(self).shape_ok(),
            box_ok(old(self).box_area) ==> final(self).wf(),
        decreases old(self).depth(),
    {
        proof {
            if box_ok(self.box_area) {
                lemma_placed_at_wf(*self, self.box_area);
            }
        }
        let ch = self.children.take();
        match ch {
            None => {},
            Some((c1, c2)) => {
                let (box1, box2) = calculate_split_boxes_static(
                    self.box_area,
                    self.split_top,
                    self.split_ratio,
                );
                proof {
                    lemma_split_boxes_ok(self.box_area, self.split_top, self.split_ratio);
                }
                assert(c1.shape_ok() && c2.shape_ok());
                let mut n1 = *c1;
                let mut n2 = *c2;
                assert(n1 == *c1 && n2 == *c2);
                n1.box_area = box1;
                n2.box_area = box2;
                assert(n1.shape_ok() && n1.depth() == c1.depth());
                assert(n2.shape_ok() && n2.depth() == c2.depth());
                assert(n1.placed_at(box1) == c1.placed_at(box1));
                assert(n2.placed_at(box2) == c2.placed_at(box2));
                n1.update_child_areas();
                n2.update_child_areas();
                self.children = Some((Box::new(n1), Box::new(n2)));
                assert(*self == old(self).placed_at(old(self).box_area));
            },
        }
    }

    /// Tiles `new_hwnd` into the tree: see `split_result`, which on a
    /// well-formed tree is `with_window`.
    pub fn split(&mut self, new_hwnd: SendHWND)
        requires
            old(self).shape_ok(),
            old(self).split_fits(),
        ensures
            *final(self) == old(self).split_result(new_hwnd),
            old(self).wf() ==> *final(self) == old(self).with_window(new_hwnd),
            final(self).wf(),
        decreases old(self).depth(),
    {
        proof {
            if old(self).wf() {
                lemma_split_result_wf(*old(self), new_hwnd);
            }
        }
        let ch = self.children.take();
        match ch {
            Some((c1, c2)) => {
                let mut n1 = *c1;
                let mut n2 = *c2;
                assert(n1 == *c1 && n2 == *c2);
                let area1 = n1.box_area.width * n1.box_area.height;
                let area2 = n2.box_area.width * n2.box_area.height;
                if area1 > area2 {
                    n1.split(new_hwnd);
                } else {
                    n2.split(new_hwnd);
                }
                self.children = Some((Box::new(n1), Box::new(n2)));
                assert(self.shape_ok());
                self.update_child_areas();
                assert(*self == old(self).split_result(new_hwnd));
            },
            None => {
                let old_hwnd = self.hwnd.take().expect("Leaf node must have an HWND");
                self.split_top = self.box_area.height > self.box_area.width;
                let (box1, box2) = calculate_split_boxes_static(
                    self.box_area,
                    self.split_top,
                    self.split_ratio,
                );
                proof {
                    lemma_split_boxes_ok(old(self).box_area, self.split_top, self.split_ratio);
                }
                self.children = Some(
                    (
                        Box::new(DwindleNode::new_leaf(old_hwnd, box1)),
                        Box::new(DwindleNode::new_leaf(new_hwnd, box2)),
                    ),
                );
                assert(*self == old(self).with_window(new_hwnd));
            },
        }
    }

    /// Whether `split` can tile a window in without overflow.
    pub fn can_split(&self) -> (r: bool)
        ensures
            r == self.split_fits(),
        decreases self,
    {
        let b = self.box_area;
        let xe = b.x as i64 + b.width as i64;
        let ye = b.y as i64 + b.height as i64;
        if xe < i32::MIN as i64 || xe > i32::MAX as i64 || ye < i32::MIN as i64 || ye > i32::MAX
            as i64 {
            return false;
        }
        match &self.children {
            None => true,
            Some((c1, c2)) => {
                let a1 = area_of(c1.box_area);
                let a2 = area_of(c2.box_area);
                let lo = i32::MIN as i64;
                let hi = i32::MAX as i64;
                if a1 < lo || a1 > hi || a2 < lo || a2 > hi {
                    false
                } else if a1 > a2 {
                    c1.can_split()
                } else {
                    c2.can_split()
                }
            },
        }
    }

    /// Whether `get_layout_results` can apply the outer gap `gaps_out` to
    /// every window of the tree without overflow.
    pub fn can_layout(&self, gaps_out: i32) -> (r: bool)
        ensures
            r == self.gaps_fit(gaps_out),
        decreases self,
    {
        let own_ok = match self.hwnd {
            None => true,
            Some(_) => {
                let b = self.box_area;
                let g = gaps_out as i64;
                let lo = i32::MIN as i64;
                let hi = i32::MAX as i64;
                let g2 = g * 2;
                lo <= g2 && g2 <= hi && lo <= b.x as i64 + g && b.x as i64 + g <= hi && lo
                    <= b.y as i64 + g && b.y as i64 + g <= hi && lo <= b.width as i64 - g2
                    && b.width as i64 - g2 <= hi && lo <= b.height as i64 - g2 && b.height as i64
                    - g2 <= hi
            },
        };
        if !own_ok {
            return false;
        }
        match &self.children {
            None => true,
            Some((c1, c2)) => c1.can_layout(gaps_out) && c2.can_layout(gaps_out),
        }
    }

    /// Appends every window of the tree with its box shrunk by `gaps_out`,
    /// in leaf order. `gaps_in` is not used.
    pub fn get_layout_results(
        &self,
        results: &mut Vec<(SendHWND, Rect)>,
        gaps_in: i32,
        gaps_out: i32,
    )
        requires
            self.gaps_fit(gaps_out),
        ensures
            final(results)@ == old(results)@ + self.layout(gaps_out),
        decreases self,
    {
        if let Some(hwnd) = self.hwnd {
            let effective_rect = Rect {
                x: self.box_area.x + gaps_out,
                y: self.box_area.y + gaps_out,
                width: self.box_area.width - (gaps_out * 2),
                height: self.box_area.height - (gaps_out * 2),
            };
            results.push((hwnd, effective_rect));
        }
        if let Some((child1, child2)) = &self.children {
            child1.get_layout_results(results, gaps_in, gaps_out);
            child2.get_layout_results(results, gaps_in, gaps_out);
        }
        assert(results@ =~= old(results)@ + self.layout(gaps_out));
    }

    /// Removes `target_hwnd` from the tree: see `removal`. Returns `true`
    /// exactly when this node is the leaf of that window, which the caller
    /// then drops.
    pub fn remove(&mut self, target_hwnd: SendHWND) -> (r: bool)
        requires
            old(self).shape_ok(),
            old(self).remove_fits(target_hwnd),
        ensures
            (r, *final(self)) == old(self).removal(target_hwnd),
            final(self).shape_ok(),
            old(self).wf() ==> final(self).wf(),
            final(self).box_area == old(self).box_area,
        decreases old(self).depth(),
    {
        proof {
            if old(self).wf() {
                lemma_removal_wf(*self, target_hwnd);
            }
        }
        if let Some(hwnd) = self.hwnd {
            return hwnd == target_hwnd;
        }
        let ch = self.children.take();
        match ch {
            None => false,
            Some((c1, c2)) => {
                let mut n1 = *c1;
                let mut n2 = *c2;
                assert(n1 == *c1 && n2 == *c2);
                if n1.remove(target_hwnd) {
                    assert(n2.shape_ok());
                    if let Some(h) = n2.hwnd {
                        self.hwnd = Some(h);
                    } else {
                        self.children = n2.children.take();
                    }
                    assert(self.shape_ok());
                    self.update_child_areas();
                    assert(*self == old(self).collapsed_into(*c2));
                    return false;
                }
                if n2.remove(target_hwnd) {
                    let ghost kept = n1;
                    if let Some(h) = n1.hwnd {
                        self.hwnd = Some(h);
                    } else {
                        self.children = n1.children.take();
                    }
                    assert(self.shape_ok());
                    self.update_child_areas();
                    assert(*self == old(self).collapsed_into(kept));
                    return false;
                }
                self.children = Some((Box::new(n1), Box::new(n2)));
                false
            },
        }
    }
}

} // verus!

verus! {

/// Removing a window that is not in the tree changes nothing.
pub proof fn lemma_removal_absent(n: DwindleNode, t: SendHWND)
    requires
        !n.windows().contains(t),
    ensures
        n.removal(t) == (false, n),
    decreases n,
{
    match n.hwnd {
        Some(h) => {
            assert(n.windows()[0] == h);
        },
        None => match n.children {
            None => {},
            Some((c1, c2)) => {
                assert(n.windows() == c1.windows() + c2.windows());
                assert forall|i: int| 0 <= i < c1.windows().len() implies c1.windows()[i] != t by {
                    assert(n.windows()[i] == c1.windows()[i]);
                }
                assert forall|i: int| 0 <= i < c2.windows().len() implies c2.windows()[i] != t by {
                    assert(n.windows()[c1.windows().len() + i] == c2.windows()[i]);
                }
                lemma_removal_absent(*c1, t);
                lemma_removal_absent(*c2, t);
            },
        },
    }
}

/// Tiling a window always produces an inner node.
pub proof fn lemma_with_window_inner(n: DwindleNode, h: SendHWND)
    requires
        n.shape_ok(),
    ensures
        n.with_window(h).hwnd is None,
        n.with_window(h).children is Some,
{
}

/// The tree with the split direction of every leaf (which a leaf never
/// uses) cleared.
pub open spec fn leaf_directions_cleared(n: DwindleNode) -> DwindleNode
    decreases n,
{
    match n.children {
        None => DwindleNode { split_top: false, ..n },
        Some((c1, c2)) => DwindleNode {
            children: Some(
                (Box::new(leaf_directions_cleared(*c1)), Box::new(leaf_directions_cleared(*c2))),
            ),
            ..n
        },
    }
}

/// Tiling a window that is not in a well-formed tree and then removing it
/// again gives back the same windows with the same boxes: the layout, for
/// every outer gap, is what it was before, and the tree itself is the same
/// but for the unused split direction of the leaf that was split.
pub proof fn lemma_remove_undoes_split(n: DwindleNode, h: SendHWND)
    requires
        n.wf(),
        !n.windows().contains(h),
    ensures
        !n.with_window(h).removal(h).0,
        n.with_window(h).removal(h).1.windows() == n.windows(),
        forall|g: i32| #[trigger] n.with_window(h).removal(h).1.layout(g) == n.layout(g),
        leaf_directions_cleared(n.with_window(h).removal(h).1) == leaf_directions_cleared(n),
    decreases n,
{
    match n.children {
        Some((c1, c2)) => {
            assert(n.windows() == c1.windows() + c2.windows());
            assert forall|i: int| 0 <= i < c1.windows().len() implies c1.windows()[i] != h by {
                assert(n.windows()[i] == c1.windows()[i]);
            }
            assert forall|i: int| 0 <= i < c2.windows().len() implies c2.windows()[i] != h by {
                assert(n.windows()[c1.windows().len() + i] == c2.windows()[i]);
            }
            lemma_split_boxes_ok(n.box_area, n.split_top, n.split_ratio);
            if area(c1.box_area) > area(c2.box_area) {
                lemma_remove_undoes_split(*c1, h);
                lemma_with_window_inner(*c1, h);
                lemma_removal_absent(*c2, h);
                let c1w = c1.with_window(h);
                let c1r = c1w.removal(h).1;
                let r = n.with_window(h).removal(h);
                assert(r.1 == DwindleNode {
                    children: Some((Box::new(c1r), c2)),
                    ..n
                });
                assert(leaf_directions_cleared(r.1) == leaf_directions_cleared(n));
                assert(r.1.windows() =~= n.windows());
                assert forall|g: i32| #[trigger] r.1.layout(g) == n.layout(g) by {
                    assert(c1r.layout(g) == c1.layout(g));
                    assert(r.1.layout(g) =~= c1r.layout(g) + c2.layout(g));
                    assert(n.layout(g) =~= c1.layout(g) + c2.layout(g));
                }
            } else {
                lemma_remove_undoes_split(*c2, h);
                lemma_with_window_inner(*c2, h);
                lemma_removal_absent(*c1, h);
                let c2w = c2.with_window(h);
                let c2r = c2w.removal(h).1;
                let r = n.with_window(h).removal(h);
                assert(r.1 == DwindleNode {
                    children: Some((c1, Box::new(c2r))),
                    ..n
                });
                assert(leaf_directions_cleared(r.1) == leaf_directions_cleared(n));
                assert(r.1.windows() =~= n.windows());
                assert forall|g: i32| #[trigger] r.1.layout(g) == n.layout(g) by {
                    assert(c2r.layout(g) == c2.layout(g));
                    assert(r.1.layout(g) =~= c1.layout(g) + c2r.layout(g));
                    assert(n.layout(g) =~= c1.layout(g) + c2.layout(g));
                }
            }
        },
        None => {
            let a = n.hwnd->0;
            assert(n.windows()[0] == a);
            let m = n.with_window(h);
            let top = n.box_area.height > n.box_area.width;
            let (b1, b2) = split_boxes(n.box_area, top, n.split_ratio);
            assert(m.children == Some((Box::new(leaf(a, b1)), Box::new(leaf(h, b2)))));
            assert(leaf(a, b1).removal(h) == (false, leaf(a, b1)));
            assert(leaf(h, b2).removal(h).0);
            let r = m.removal(h);
            assert(r.1 == m.collapsed_into(leaf(a, b1)));
            assert(r.1 == DwindleNode { split_top: top, ..n });
            assert(leaf_directions_cleared(r.1) == leaf_directions_cleared(n));
            assert(r.1.windows() =~= n.windows());
            assert forall|g: i32| #[trigger] r.1.layout(g) == n.layout(g) by {
                assert(r.1.layout(g) =~= n.layout(g));
            }
        },
    }
}

} // verus!

verus! {

/// `t` occurs at most once in `s`.
pub open spec fn at_most_once(s: Seq<SendHWND>, t: SendHWND) -> bool {
    forall|i: int, j: int| 0 <= i < s.len() && 0 <= j < s.len() && s[i] == t && s[j] == t ==> i == j
}

proof fn lemma_filter_keeps_all(s: Seq<SendHWND>, t: SendHWND)
    requires
        !s.contains(t),
    ensures
        s.filter(|w: SendHWND| w != t) == s,
    decreases s.len(),
{
    reveal(Seq::filter);
    if s.len() > 0 {
        assert(!s.drop_last().contains(t)) by {
            if s.drop_last().contains(t) {
                let i = choose|i: int| 0 <= i < s.drop_last().len() && s.drop_last()[i] == t;
                assert(s[i] == t);
            }
        }
        lemma_filter_keeps_all(s.drop_last(), t);
        assert(s.last() != t) by {
            assert(s[s.len() - 1] == s.last());
        }
        assert(s.drop_last().push(s.last()) =~= s);
    }
}

proof fn lemma_filter_single(h: SendHWND, t: SendHWND)
    ensures
        seq![h].filter(|w: SendHWND| w != t) == (if h == t { Seq::<SendHWND>::empty() } else { seq![h] }),
{
    reveal(Seq::filter);
    assert(seq![h].drop_last() =~= Seq::<SendHWND>::empty());
    assert(Seq::<SendHWND>::empty().filter(|w: SendHWND| w != t) =~= Seq::<SendHWND>::empty());
    assert(seq![h].last() == h);
    assert(Seq::<SendHWND>::empty().push(h) =~= seq![h]);
}

/// Removing a window that occurs at most once from a well-formed tree,
/// other than the tree's own single leaf, leaves exactly the other windows,
/// in the same order.
pub proof fn lemma_removal_windows(n: DwindleNode, t: SendHWND)
    requires
        n.wf(),
        n.hwnd != Some(t),
        at_most_once(n.windows(), t),
    ensures
        !n.removal(t).0,
        n.removal(t).1.windows() == n.windows().filter(|w: SendHWND| w != t),
    decreases n,
{
    broadcast use Seq::filter_distributes_over_add;
    match n.hwnd {
        Some(h) => {
            assert(n.windows() == seq![h]);
            lemma_filter_single(h, t);
        },
        None => match n.children {
            None => {
                assert(n.windows() =~= Seq::<SendHWND>::empty());
                reveal(Seq::filter);
            },
            Some((c1, c2)) => {
                let w1 = c1.windows();
                let w2 = c2.windows();
                assert(n.windows() =~= w1 + w2);
                lemma_split_boxes_ok(n.box_area, n.split_top, n.split_ratio);
                assert(at_most_once(w1, t)) by {
                    assert forall|i: int, j: int|
                        0 <= i < w1.len() && 0 <= j < w1.len() && w1[i] == t && w1[j] == t implies i
                        == j by {
                        assert(n.windows()[i] == w1[i] && n.windows()[j] == w1[j]);
                    }
                }
                assert(at_most_once(w2, t)) by {
                    assert forall|i: int, j: int|
                        0 <= i < w2.len() && 0 <= j < w2.len() && w2[i] == t && w2[j] == t implies i
                        == j by {
                        assert(n.windows()[w1.len() + i] == w2[i] && n.windows()[w1.len() + j]
                            == w2[j]);
                    }
                }
                lemma_removal_wf(*c1, t);
                let (r1, n1) = c1.removal(t);
                if r1 {
                    assert(w1 == seq![t]);
                    lemma_filter_single(t, t);
                    assert(!w2.contains(t)) by {
                        if w2.contains(t) {
                            let j = choose|j: int| 0 <= j < w2.len() && w2[j] == t;
                            assert(n.windows()[0] == t && n.windows()[1 + j] == t);
                        }
                    }
                    lemma_filter_keeps_all(w2, t);
                    lemma_collapsed_into_wf(n, *c2);
                    assert(w1.filter(|w: SendHWND| w != t) + w2.filter(|w: SendHWND| w != t) =~= w2);
                } else {
                    lemma_removal_windows(*c1, t);
                    lemma_removal_wf(*c2, t);
                    let (r2, n2) = c2.removal(t);
                    if r2 {
                        assert(w2 == seq![t]);
                        lemma_filter_single(t, t);
                        lemma_collapsed_into_wf(n, n1);
                        assert(w1.filter(|w: SendHWND| w != t) + w2.filter(|w: SendHWND| w != t)
                            =~= n1.windows());
                    } else {
                        lemma_removal_windows(*c2, t);
                        let m = DwindleNode { children: Some((Box::new(n1), Box::new(n2))), ..n };
                        assert(m.windows() =~= n1.windows() + n2.windows());
                    }
                }
            },
        },
    }
}

} // verus!

verus! {

impl DwindleNode {
    /// The boxes of the tree's windows, in leaf order.
    pub open spec fn tiles(self) -> Seq<Rect>
        decreases self,
    {
        let own = match self.hwnd {
            Some(_) => seq![self.box_area],
            None => Seq::empty(),
        };
        match self.children {
            None => own,
            Some((c1, c2)) => own + c1.tiles() + c2.tiles(),
        }
    }
}

/// Sum of the areas of the boxes.
pub open spec fn total_area(s: Seq<Rect>) -> int
    decreases s.len(),
{
    if s.len() == 0 {
        0
    } else {
        area(s[0]) + total_area(s.drop_first())
    }
}

/// Width and height are non-negative.
pub open spec fn nonneg(b: Rect) -> bool {
    b.width >= 0 && b.height >= 0
}

/// `inner` lies inside `outer`.
pub open spec fn within(inner: Rect, outer: Rect) -> bool {
    &&& outer.x <= inner.x
    &&& inner.x + inner.width <= outer.x + outer.width
    &&& outer.y <= inner.y
    &&& inner.y + inner.height <= outer.y + outer.height
}

proof fn lemma_total_area_append(a: Seq<Rect>, b: Seq<Rect>)
    ensures
        total_area(a + b) == total_area(a) + total_area(b),
    decreases a.len(),
{
    if a.len() > 0 {
        assert((a + b).drop_first() =~= a.drop_first() + b);
        lemma_total_area_append(a.drop_first(), b);
    } else {
        assert(a + b =~= b);
    }
}

proof fn lemma_split_area(b: Rect, split_top: bool, ratio: u32)
    requires
        box_ok(b),
        ratio <= 1000,
    ensures
        area(split_boxes(b, split_top, ratio).0) + area(split_boxes(b, split_top, ratio).1) == area(b),
        nonneg(b) ==> within(split_boxes(b, split_top, ratio).0, b) && within(
            split_boxes(b, split_top, ratio).1,
            b,
        ) && nonneg(split_boxes(b, split_top, ratio).0) && nonneg(
            split_boxes(b, split_top, ratio).1,
        ),
{
    lemma_split_boxes_ok(b, split_top, ratio);
    if split_top {
        let h1 = portion(b.height as int, ratio as int);
        lemma_portion_bounds(b.height as int, ratio as int);
        assert(b.width * h1 + b.width * (b.height - h1) == b.width * b.height) by (nonlinear_arith);
    } else {
        let w1 = portion(b.width as int, ratio as int);
        lemma_portion_bounds(b.width as int, ratio as int);
        assert(w1 * b.height + (b.width - w1) * b.height == b.width * b.height) by (nonlinear_arith);
    }
}

/// A well-formed dwindle tree tiles its box: the windows' boxes add up to
/// the box's area, and when the box has non-negative size every window's
/// box lies inside it and has non-negative size too.
pub proof fn lemma_tiles_cover(n: DwindleNode)
    requires
        n.wf(),
    ensures
        total_area(n.tiles()) == area(n.box_area),
        nonneg(n.box_area) ==> forall|i: int|
            0 <= i < n.tiles().len() ==> within(#[trigger] n.tiles()[i], n.box_area) && nonneg(
                n.tiles()[i],
            ),
    decreases n,
{
    match n.children {
        None => {
            assert(n.tiles() == seq![n.box_area]);
            assert(seq![n.box_area].drop_first() =~= Seq::<Rect>::empty());
            assert(total_area(Seq::<Rect>::empty()) == 0);
            assert(total_area(n.tiles()) == area(n.box_area));
        },
        Some((c1, c2)) => {
            lemma_split_boxes_ok(n.box_area, n.split_top, n.split_ratio);
            lemma_split_area(n.box_area, n.split_top, n.split_ratio);
            lemma_tiles_cover(*c1);
            lemma_tiles_cover(*c2);
            assert(n.tiles() =~= c1.tiles() + c2.tiles());
            lemma_total_area_append(c1.tiles(), c2.tiles());
            assert((c1.box_area, c2.box_area) == split_boxes(n.box_area, n.split_top, n.split_ratio));
            assert(total_area(n.tiles()) == area(c1.box_area) + area(c2.box_area));
            if nonneg(n.box_area) {
                assert forall|i: int| 0 <= i < n.tiles().len() implies within(
                    #[trigger] n.tiles()[i],
                    n.box_area,
                ) && nonneg(n.tiles()[i]) by {
                    if i < c1.tiles().len() {
                        assert(n.tiles()[i] == c1.tiles()[i]);
                    } else {
                        assert(n.tiles()[i] == c2.tiles()[i - c1.tiles().len()]);
                    }
                }
            }
        },
    }
}

} // verus!
