use vstd::prelude::*;

use crate::dwindle::{box_ok, fits_i32, Rect};

verus! {

/// A native monitor handle, carried as the integer value of the pointer.
#[derive(Clone, Copy, Debug, PartialEq, Eq, Hash, Structural)]
pub struct SendHMONITOR(pub isize);

/// A rectangle given by its edges, as the system reports monitor areas.
#[derive(Clone, Copy, Debug, PartialEq, Eq, Structural)]
pub struct WinRect {
    pub left: i32,
    pub top: i32,
    pub right: i32,
    pub bottom: i32,
}

/// The flag of a monitor description that marks the primary monitor.
pub const MONITORINFOF_PRIMARY: u32 = 1;

/// One display and its usable work area.
#[derive(Clone, Copy, Debug, PartialEq, Eq, Structural)]
pub struct Monitor {
    pub hmonitor: SendHMONITOR,
    pub rect: WinRect,
    pub work_rect: WinRect,
    pub dpi: u32,
    pub is_primary: bool,
}

/// The monitor assumed when none is known: a primary 1920x1080 work area at
/// 96 DPI, with a null handle and an empty monitor rectangle.
pub open spec fn default_monitor() -> Monitor {
    Monitor {
        hmonitor: SendHMONITOR(0),
        rect: WinRect { left: 0, top: 0, right: 0, bottom: 0 },
        work_rect: WinRect { left: 0, top: 0, right: 1920, bottom: 1080 },
        dpi: 96,
        is_primary: true,
    }
}

impl Default for Monitor {
    fn default() -> (r: Self)
        ensures
            r == default_monitor(),
    {
        Monitor {
            hmonitor: SendHMONITOR(0),
            rect: WinRect { left: 0, top: 0, right: 0, bottom: 0 },
            work_rect: WinRect { left: 0, top: 0, right: 1920, bottom: 1080 },
            dpi: 96,
            is_primary: true,
        }
    }
}

/// The box with the edges of `r`, as exact integers.
pub open spec fn rect_of_edges(r: WinRect) -> Rect {
    Rect {
        x: r.left,
        y: r.top,
        width: (r.right - r.left) as i32,
        height: (r.bottom - r.top) as i32,
    }
}

/// The work rectangle converts to a box without overflow (its far edges,
/// being the rectangle's own, are then representable too).
pub open spec fn work_area_fits(r: WinRect) -> bool {
    &&& fits_i32(r.right - r.left)
    &&& fits_i32(r.bottom - r.top)
}

impl Monitor {
    /// The monitor described by the system: `flags` tells whether it is the
    /// primary one. The work area is `monitor_work_rect`, except on the
    /// primary monitor when `system_work_area` is given with a non-zero
    /// bottom edge: then it is that.
    pub fn from_monitor_info(
        hmonitor: SendHMONITOR,
        rect: WinRect,
        monitor_work_rect: WinRect,
        flags: u32,
        dpi: u32,
        system_work_area: Option<WinRect>,
    ) -> (r: Self)
        ensures
            r.hmonitor == hmonitor,
            r.rect == rect,
            r.dpi == dpi,
            r.is_primary == (flags & MONITORINFOF_PRIMARY != 0),
            r.work_rect == (match system_work_area {
                Some(s) => if r.is_primary && s.bottom != 0 {
                    s
                } else {
                    monitor_work_rect
                },
                None => monitor_work_rect,
            }),
    {
        let is_primary = flags & MONITORINFOF_PRIMARY != 0;
        let mut work_rect = monitor_work_rect;
        if is_primary {
            if let Some(spi_rect) = system_work_area {
                if spi_rect.bottom != 0 {
                    work_rect = spi_rect;
                }
            }
        }
        Monitor { hmonitor, rect, work_rect, dpi, is_primary }
    }

    /// The work area as a box to tile windows in, when it is representable.
    pub fn work_area(&self) -> (r: Option<Rect>)
        ensures
            r == (if work_area_fits(self.work_rect) {
                Some(rect_of_edges(self.work_rect))
            } else {
                None
            }),
            r matches Some(b) ==> box_ok(b),
    {
        let wr = self.work_rect;
        let w = wr.right as i64 - wr.left as i64;
        let h = wr.bottom as i64 - wr.top as i64;
        if w < i32::MIN as i64 || w > i32::MAX as i64 || h < i32::MIN as i64 || h > i32::MAX as i64 {
            return None;
        }
        Some(Rect { x: wr.left, y: wr.top, width: w as i32, height: h as i32 })
    }
}

/// The known monitors.
pub struct MonitorManager {
    pub monitors: Vec<Monitor>,
}

impl MonitorManager {
    /// No monitors yet; the system's monitors are added as they are
    /// enumerated.
    pub fn new() -> (r: Self)
        ensures
            r.monitors@ == Seq::<Monitor>::empty(),
    {
        MonitorManager { monitors: Vec::new() }
    }

    /// The first monitor with handle `hmonitor`, if any.
    pub fn get_monitor_for_window(&self, hmonitor: SendHMONITOR) -> (r: Option<&Monitor>)
        ensures
            match r {
                Some(m) => exists|i: int|
                    0 <= i < self.monitors@.len() && self.monitors@[i] == *m && m.hmonitor
                        == hmonitor && forall|j: int|
                        0 <= j < i ==> (#[trigger] self.monitors@[j]).hmonitor != hmonitor,
                None => forall|j: int|
                    0 <= j < self.monitors@.len() ==> (#[trigger] self.monitors@[j]).hmonitor
                        != hmonitor,
            },
    {
        let mut i: usize = 0;
        while i < self.monitors.len()
            invariant
                0 <= i <= self.monitors@.len(),
                forall|j: int| 0 <= j < i ==> (#[trigger] self.monitors@[j]).hmonitor != hmonitor,
            decreases self.monitors@.len() - i,
        {
            if self.monitors[i].hmonitor == hmonitor {
                return Some(&self.monitors[i]);
            }
            i = i + 1;
        }
        None
    }
}

} // verus!
