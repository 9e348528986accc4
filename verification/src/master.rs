use vstd::prelude::*;

use crate::dwindle::{fits_i32, portion, portion_of, Rect, DEFAULT_SPLIT_RATIO};
use crate::types::SendHWND;

verus! {

/// `a / b` rounded toward zero, as integer division does.
pub open spec fn tdiv(a: int, b: int) -> int {
    let q = (if a >= 0 {
        a
    } else {
        -a
    }) / (if b >= 0 {
        b
    } else {
        -b
    });
    if (a >= 0) == (b > 0) || a == 0 {
        q
    } else {
        -q
    }
}

fn div_trunc(a: i32, b: i32) -> (r: i32)
    requires
        b != 0,
        !(a == i32::MIN && b == -1),
    ensures
        r == tdiv(a as int, b as int),
{
    let ua: u64 = if a >= 0 {
        a as u64
    } else {
        (-(a as i64)) as u64
    };
    let ub: u64 = if b >= 0 {
        b as u64
    } else {
        (-(b as i64)) as u64
    };
    let q: u64 = ua / ub;
    assert(q <= ua) by (nonlinear_arith)
        requires
            q == ua / ub,
            ub >= 1,
    ;
    assert(ub >= 2 ==> q <= ua / 2) by (nonlinear_arith)
        requires
            q == ua / ub,
            ub >= 1,
    ;
    if a >= 0 && b > 0 || a < 0 && b < 0 || a == 0 {
        q as i32
    } else {
        -(q as i64) as i32
    }
}

/// A window of the master layout and the box it was given.
#[derive(Clone, Copy, Debug, PartialEq, Eq, Structural)]
pub struct MasterNode {
    pub hwnd: SendHWND,
    pub box_area: Rect,
}

/// Master/stack layout: the first `master_count` windows share the master
/// column, the others the stack column.
pub struct MasterLayout {
    pub windows: Vec<MasterNode>,
    pub master_count: i32,
    /// Width of the master column, in thousandths of the total width.
    pub master_split_ratio: u32,
}

/// The area the master layout lays its windows out in.
pub open spec fn default_master_area() -> Rect {
    Rect { x: 0, y: 0, width: 1920, height: 1080 }
}

/// The box of the `i`-th of `n` windows laid out in area `a` with `mc`
/// masters and the master column taking `ratio` thousandths of the width.
/// With no more windows than masters they stack evenly over the full width.
pub open spec fn master_box(i: int, n: int, mc: int, ratio: u32, a: Rect) -> Rect {
    if n <= mc {
        let h = tdiv(a.height as int, n);
        Rect { x: a.x, y: (a.y + i * h) as i32, width: a.width, height: h as i32 }
    } else {
        let mw = portion(a.width as int, ratio as int);
        let mh = tdiv(a.height as int, mc);
        let sh = tdiv(a.height as int, n - mc);
        if i < mc {
            Rect { x: a.x, y: (a.y + i * mh) as i32, width: mw as i32, height: mh as i32 }
        } else {
            Rect {
                x: (a.x + mw) as i32,
                y: (a.y + (i - mc) * sh) as i32,
                width: (a.width - mw) as i32,
                height: sh as i32,
            }
        }
    }
}

/// Laying out `n` windows this way involves no overflow and no division by
/// zero.
pub open spec fn master_layout_fits(n: int, mc: int, ratio: u32, a: Rect) -> bool {
    &&& n <= i32::MAX
    &&& if n <= mc {
        let h = tdiv(a.height as int, n);
        forall|i: int| 0 <= i < n ==> fits_i32(#[trigger] (i * h)) && fits_i32(a.y + i * h)
    } else {
        let mw = portion(a.width as int, ratio as int);
        let mh = tdiv(a.height as int, mc);
        let sh = tdiv(a.height as int, n - mc);
        &&& mc != 0
        &&& !(a.height == i32::MIN && mc == -1)
        &&& fits_i32(n - mc)
        &&& fits_i32(mw)
        &&& fits_i32(a.x + mw)
        &&& fits_i32(a.width - mw)
        &&& forall|i: int|
            0 <= i < n ==> if i < mc {
                fits_i32(#[trigger] (i * mh)) && fits_i32(a.y + i * mh)
            } else {
                fits_i32(#[trigger] (i - mc)) && fits_i32((i - mc) * sh) && fits_i32(
                    a.y + (i - mc) * sh,
                )
            }
    }
}

impl MasterLayout {
    /// No windows, one master, master column half the width.
    pub fn new() -> (r: Self)
        ensures
            r.windows@ == Seq::<MasterNode>::empty(),
            r.master_count == 1,
            r.master_split_ratio == DEFAULT_SPLIT_RATIO,
    {
        MasterLayout { windows: Vec::new(), master_count: 1, master_split_ratio: DEFAULT_SPLIT_RATIO }
    }

    /// Appends `hwnd` and lays all windows out in `default_master_area()`.
    pub fn add_window(&mut self, hwnd: SendHWND)
        requires
            master_layout_fits(
                old(self).windows@.len() + 1 as int,
                old(self).master_count as int,
                old(self).master_split_ratio,
                default_master_area(),
            ),
        ensures
            final(self).master_count == old(self).master_count,
            final(self).master_split_ratio == old(self).master_split_ratio,
            final(self).windows@.len() == old(self).windows@.len() + 1,
            forall|i: int|
                0 <= i < final(self).windows@.len() ==> (#[trigger] final(self).windows@[i]).hwnd == (
                if i < old(self).windows@.len() {
                    old(self).windows@[i].hwnd
                } else {
                    hwnd
                }),
            forall|i: int|
                0 <= i < final(self).windows@.len() ==> (#[trigger] final(self).windows@[i]).box_area
                    == master_box(
                    i,
                    final(self).windows@.len() as int,
                    old(self).master_count as int,
                    old(self).master_split_ratio,
                    default_master_area(),
                ),
    {
        self.windows.push(MasterNode { hwnd, box_area: Rect { x: 0, y: 0, width: 0, height: 0 } });
        self.recalculate(Rect { x: 0, y: 0, width: 1920, height: 1080 });
    }

    /// Gives every window its box `master_box(i, ..)` in `total_area`;
    /// does nothing when there are no windows.
    pub fn recalculate(&mut self, total_area: Rect)
        requires
            old(self).windows@.len() > 0 ==> master_layout_fits(
                old(self).windows@.len() as int,
                old(self).master_count as int,
                old(self).master_split_ratio,
                total_area,
            ),
        ensures
            final(self).master_count == old(self).master_count,
            final(self).master_split_ratio == old(self).master_split_ratio,
            final(self).windows@.len() == old(self).windows@.len(),
            forall|i: int|
                0 <= i < final(self).windows@.len() ==> (#[trigger] final(self).windows@[i]).hwnd
                    == old(self).windows@[i].hwnd,
            forall|i: int|
                0 <= i < final(self).windows@.len() ==> (#[trigger] final(self).windows@[i]).box_area
                    == master_box(
                    i,
                    final(self).windows@.len() as int,
                    old(self).master_count as int,
                    old(self).master_split_ratio,
                    total_area,
                ),
    {
        if self.windows.len() == 0 {
            return ;
        }
        let count = self.windows.len() as i32;
        let ghost n = count as int;
        let ghost mc = self.master_count as int;
        let ghost ratio = self.master_split_ratio;
        if count <= self.master_count {
            let h = div_trunc(total_area.height, count);
            let mut i: usize = 0;
            while i < self.windows.len()
                invariant
                    self.windows@.len() == n,
                    n == old(self).windows@.len(),
                    self.master_count == mc,
                    self.master_split_ratio == ratio,
                    n <= mc,
                    h == tdiv(total_area.height as int, n),
                    master_layout_fits(n, mc, ratio, total_area),
                    0 <= i <= n,
                    forall|j: int| 0 <= j < n ==> (#[trigger] self.windows@[j]).hwnd == old(self).windows@[j].hwnd,
                    forall|j: int|
                        0 <= j < i ==> (#[trigger] self.windows@[j]).box_area == master_box(
                            j,
                            n,
                            mc,
                            ratio,
                            total_area,
                        ),
                decreases n - i,
            {
                let ii = i as i32;
                assert(fits_i32(ii * h) && fits_i32(total_area.y + ii * h));
                let node = MasterNode {
                    hwnd: self.windows[i].hwnd,
                    box_area: Rect {
                        x: total_area.x,
                        y: total_area.y + (ii * h),
                        width: total_area.width,
                        height: h,
                    },
                };
                self.windows.set(i, node);
                i = i + 1;
            }
        } else {
            let master_width = portion_of(total_area.width, self.master_split_ratio);
            let stack_width = total_area.width - master_width;
            let master_h = div_trunc(total_area.height, self.master_count);
            let stack_count = count - self.master_count;
            let stack_h = div_trunc(total_area.height, stack_count);
            let mut i: usize = 0;
            while i < self.windows.len()
                invariant
                    self.windows@.len() == n,
                    n == old(self).windows@.len(),
                    self.master_count == mc,
                    self.master_split_ratio == ratio,
                    n > mc,
                    master_width == portion(total_area.width as int, ratio as int),
                    stack_width == total_area.width - master_width,
                    master_h == tdiv(total_area.height as int, mc),
                    stack_count == n - mc,
                    stack_h == tdiv(total_area.height as int, n - mc),
                    master_layout_fits(n, mc, ratio, total_area),
                    0 <= i <= n,
                    forall|j: int| 0 <= j < n ==> (#[trigger] self.windows@[j]).hwnd == old(self).windows@[j].hwnd,
                    forall|j: int|
                        0 <= j < i ==> (#[trigger] self.windows@[j]).box_area == master_box(
                            j,
                            n,
                            mc,
                            ratio,
                            total_area,
                        ),
                decreases n - i,
            {
                let ii = i as i32;
                let hwnd = self.windows[i].hwnd;
                let box_area = if ii < self.master_count {
                    assert(fits_i32(ii * master_h) && fits_i32(total_area.y + ii * master_h));
                    Rect {
                        x: total_area.x,
                        y: total_area.y + (ii * master_h),
                        width: master_width,
                        height: master_h,
                    }
                } else {
                    assert(fits_i32(ii - mc) && fits_i32((ii - mc) * stack_h) && fits_i32(
                        total_area.y + (ii - mc) * stack_h,
                    ));
                    Rect {
                        x: total_area.x + master_width,
                        y: total_area.y + ((ii - self.master_count) * stack_h),
                        width: stack_width,
                        height: stack_h,
                    }
                };
                self.windows.set(i, MasterNode { hwnd, box_area });
                i = i + 1;
            }
        }
    }
}

} // verus!
