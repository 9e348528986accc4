use std::collections::HashMap;
use vstd::prelude::*;

use crate::desktop::{LayoutType, WindowState, Workspace};
use crate::dwindle::{
    at_most_once, box_ok, leaf, leaf_directions_cleared, lemma_removal_windows, lemma_removal_wf, DwindleNode, Rect,
    DEFAULT_SPLIT_RATIO,
};
use crate::master::MasterLayout;
use crate::types::SendHWND;

verus! {

broadcast use vstd::std_specs::hash::group_hash_axioms;

/// Index of the first workspace at or after `i` with id `id`, or the
/// length of `ws` when there is none.
pub open spec fn first_workspace_from(ws: Seq<Workspace>, id: u32, i: int) -> int
    decreases ws.len() - i,
{
    if i >= ws.len() {
        ws.len() as int
    } else if ws[i].id == id {
        i
    } else {
        first_workspace_from(ws, id, i + 1)
    }
}

/// Index of the first workspace with id `id`, or the length of `ws`.
pub open spec fn workspace_index(ws: Seq<Workspace>, id: u32) -> int {
    first_workspace_from(ws, id, 0)
}

/// The tree after tiling `h`: a leaf over `area` when there was none.
pub open spec fn tiled_root(root: Option<DwindleNode>, h: SendHWND, area: Rect) -> Option<DwindleNode> {
    match root {
        None => Some(leaf(h, area)),
        Some(r) => Some(r.with_window(h)),
    }
}

/// The tree after removing `h`: none when `h` was its only leaf.
pub open spec fn untiled_root(root: Option<DwindleNode>, h: SendHWND) -> Option<DwindleNode> {
    match root {
        None => None,
        Some(r) => if r.removal(h).0 {
            None
        } else {
            Some(r.removal(h).1)
        },
    }
}

/// `ws` with the root of the first workspace with id `id` (if any) replaced
/// by `root`.
pub open spec fn with_root(ws: Seq<Workspace>, id: u32, root: Option<DwindleNode>) -> Seq<Workspace> {
    let i = workspace_index(ws, id);
    if i < ws.len() {
        ws.update(i, Workspace { root, ..ws[i] })
    } else {
        ws
    }
}

/// The root of the first workspace with id `id`, if there is such a
/// workspace and it has one.
pub open spec fn root_of(ws: Seq<Workspace>, id: u32) -> Option<DwindleNode> {
    let i = workspace_index(ws, id);
    if i < ws.len() {
        ws[i].root
    } else {
        None
    }
}

/// Workspaces after `h` is tiled into workspace `id` over `area`.
pub open spec fn tile_in(ws: Seq<Workspace>, id: u32, h: SendHWND, area: Rect) -> Seq<Workspace> {
    with_root(ws, id, tiled_root(root_of(ws, id), h, area))
}

/// Workspaces after `h` is removed from the tree of workspace `id`.
pub open spec fn untile_in(ws: Seq<Workspace>, id: u32, h: SendHWND) -> Seq<Workspace> {
    if workspace_index(ws, id) < ws.len() {
        with_root(ws, id, untiled_root(root_of(ws, id), h))
    } else {
        ws
    }
}

/// The work area handed along with a tiling, or an empty box when none
/// was (it is only read when a new tree is started).
pub open spec fn area_or_empty(work_area: Option<Rect>) -> Rect {
    match work_area {
        Some(a) => a,
        None => Rect { x: 0, y: 0, width: 0, height: 0 },
    }
}

/// Tiling a window into workspace `id` can be done without overflow: a new
/// tree needs a work area with representable far edges, an existing tree
/// needs the areas it compares on the way down to fit in an `i32`.
pub open spec fn tiling_fits(ws: Seq<Workspace>, id: u32, work_area: Option<Rect>) -> bool {
    match root_of(ws, id) {
        None => work_area matches Some(a) && box_ok(a),
        Some(r) => r.split_fits(),
    }
}

/// Every workspace tree is well-formed.
pub open spec fn workspaces_wf(ws: Seq<Workspace>) -> bool {
    forall|i: int| 0 <= i < ws.len() ==> ((#[trigger] ws[i]).root matches Some(r) ==> r.wf())
}

/// The windows of a tree, if any, with their boxes shrunk by gap `g`.
pub open spec fn root_layout(root: Option<DwindleNode>, g: i32) -> Seq<(SendHWND, Rect)> {
    match root {
        None => Seq::empty(),
        Some(r) => r.layout(g),
    }
}

/// `s` with its floating flag set to `f`.
pub open spec fn with_floating(s: WindowState, f: bool) -> WindowState {
    WindowState { is_floating: f, ..s }
}

/// Tracks the managed windows, the ten workspaces and their layouts.
pub struct WindowManager {
    pub active_windows: HashMap<isize, WindowState>,
    pub workspaces: Vec<Workspace>,
    pub active_workspace: u32,
    pub master_layout: MasterLayout,
    pub gaps_in: i32,
    pub gaps_out: i32,
}

/// Whether a work area is given and its far edges are representable.
fn work_area_ok(work_area: Option<Rect>) -> (r: bool)
    ensures
        r == (work_area matches Some(a) && box_ok(a)),
{
    match work_area {
        None => false,
        Some(a) => {
            let lo = i32::MIN as i64;
            let hi = i32::MAX as i64;
            let xe = a.x as i64 + a.width as i64;
            let ye = a.y as i64 + a.height as i64;
            lo <= xe && xe <= hi && lo <= ye && ye <= hi
        },
    }
}

impl WindowManager {
    /// Every workspace tree is well-formed.
    pub open spec fn wf(&self) -> bool {
        workspaces_wf(self.workspaces@)
    }

    /// The active workspace's windows can be laid out with the outer gap
    /// without overflow.
    pub open spec fn layout_fits(&self) -> bool {
        match root_of(self.workspaces@, self.active_workspace) {
            None => true,
            Some(r) => r.gaps_fit(self.gaps_out),
        }
    }

    /// No windows, ten empty dwindle workspaces with ids 1 to 10, the first
    /// one active, an empty master layout and no gaps.
    pub fn new() -> (r: Self)
        ensures
            r.wf(),
            r.active_windows@ == Map::<isize, WindowState>::empty(),
            r.workspaces@.len() == 10,
            forall|i: int|
                0 <= i < 10 ==> (#[trigger] r.workspaces@[i]).id == i + 1 && r.workspaces@[i].root
                    is None && r.workspaces@[i].layout == LayoutType::Dwindle,
            r.active_workspace == 1,
            r.master_layout.windows@ == Seq::<crate::master::MasterNode>::empty(),
            r.master_layout.master_count == 1,
            r.master_layout.master_split_ratio == DEFAULT_SPLIT_RATIO,
            r.gaps_in == 0,
            r.gaps_out == 0,
    {
        let mut workspaces: Vec<Workspace> = Vec::new();
        let mut i: u32 = 1;
        while i <= 10
            invariant
                1 <= i <= 11,
                workspaces@.len() == i - 1,
                forall|j: int|
                    0 <= j < i - 1 ==> (#[trigger] workspaces@[j]).id == j + 1
                        && workspaces@[j].root is None && workspaces@[j].layout
                        == LayoutType::Dwindle,
            decreases 11 - i,
        {
            workspaces.push(Workspace { id: i, root: None, layout: LayoutType::Dwindle });
            i = i + 1;
        }
        WindowManager {
            active_windows: HashMap::new(),
            workspaces,
            active_workspace: 1,
            master_layout: MasterLayout::new(),
            gaps_in: 0,
            gaps_out: 0,
        }
    }

    /// Sets the inner and outer gaps.
    pub fn set_gaps(&mut self, inner: i32, outer: i32)
        ensures
            final(self).gaps_in == inner,
            final(self).gaps_out == outer,
            final(self).active_windows@ == old(self).active_windows@,
            final(self).workspaces@ == old(self).workspaces@,
            final(self).active_workspace == old(self).active_workspace,
            final(self).master_layout == old(self).master_layout,
    {
        self.gaps_in = inner;
        self.gaps_out = outer;
    }

    /// Index of the first workspace whose id is the active one.
    fn find_active_workspace(&self) -> (r: Option<usize>)
        ensures
            match r {
                Some(i) => i == workspace_index(self.workspaces@, self.active_workspace) && i
                    < self.workspaces@.len(),
                None => workspace_index(self.workspaces@, self.active_workspace)
                    == self.workspaces@.len(),
            },
    {
        let mut i: usize = 0;
        while i < self.workspaces.len()
            invariant
                0 <= i <= self.workspaces@.len(),
                first_workspace_from(self.workspaces@, self.active_workspace, 0)
                    == first_workspace_from(self.workspaces@, self.active_workspace, i as int),
            decreases self.workspaces@.len() - i,
        {
            if self.workspaces[i].id == self.active_workspace {
                return Some(i);
            }
            i = i + 1;
        }
        None
    }

    /// Starts managing `hwnd` as a floating window of the active workspace;
    /// a window already managed is reset to that state. No tree changes.
    pub fn add_window(&mut self, hwnd: SendHWND, title: String, class_name: String)
        ensures
            final(self).active_windows@ == old(self).active_windows@.insert(
                hwnd.0,
                WindowState {
                    hwnd,
                    title,
                    class_name,
                    is_floating: true,
                    workspace_id: old(self).active_workspace,
                },
            ),
            final(self).workspaces@ == old(self).workspaces@,
            final(self).active_workspace == old(self).active_workspace,
            final(self).gaps_in == old(self).gaps_in,
            final(self).gaps_out == old(self).gaps_out,
            final(self).master_layout == old(self).master_layout,
    {
        let mut state = WindowState::new(hwnd, title, class_name, self.active_workspace);
        state.is_floating = true;
        self.active_windows.insert(hwnd.0, state);
    }

    /// Whether `hwnd` is managed.
    pub fn is_managed(&self, hwnd: SendHWND) -> (r: bool)
        ensures
            r == self.active_windows@.contains_key(hwnd.0),
    {
        self.active_windows.contains_key(&hwnd.0)
    }

    /// A window that appeared: starts managing it as `add_window` does,
    /// unless it is already managed, in which case nothing changes. Returns
    /// whether it was added.
    pub fn add_shown_window(&mut self, hwnd: SendHWND, title: String, class_name: String) -> (r:
        bool)
        ensures
            r == !old(self).active_windows@.contains_key(hwnd.0),
            final(self).active_windows@ == if r {
                old(self).active_windows@.insert(
                    hwnd.0,
                    WindowState {
                        hwnd,
                        title,
                        class_name,
                        is_floating: true,
                        workspace_id: old(self).active_workspace,
                    },
                )
            } else {
                old(self).active_windows@
            },
            final(self).workspaces@ == old(self).workspaces@,
            final(self).active_workspace == old(self).active_workspace,
            final(self).gaps_in == old(self).gaps_in,
            final(self).gaps_out == old(self).gaps_out,
            final(self).master_layout == old(self).master_layout,
    {
        if self.is_managed(hwnd) {
            false
        } else {
            self.add_window(hwnd, title, class_name);
            true
        }
    }

    /// Tiles `hwnd` into the active workspace: a new tree over `work_area`
    /// when it has none, a split of its tree otherwise.
    fn tile_window(&mut self, hwnd: SendHWND, work_area: Option<Rect>)
        requires
            old(self).wf(),
            tiling_fits(old(self).workspaces@, old(self).active_workspace, work_area),
        ensures
            final(self).wf(),
            final(self).workspaces@ == tile_in(
                old(self).workspaces@,
                old(self).active_workspace,
                hwnd,
                area_or_empty(work_area),
            ),
            final(self).active_windows@ == old(self).active_windows@,
            final(self).active_workspace == old(self).active_workspace,
            final(self).gaps_in == old(self).gaps_in,
            final(self).gaps_out == old(self).gaps_out,
            final(self).master_layout == old(self).master_layout,
    {
        if let Some(i) = self.find_active_workspace() {
            let ghost ws0 = self.workspaces@;
            let root = self.workspaces[i].root.take();
            let new_root = match root {
                None => {
                    let area = match work_area {
                        Some(a) => a,
                        None => Rect { x: 0, y: 0, width: 0, height: 0 },
                    };
                    DwindleNode::new_leaf(hwnd, area)
                },
                Some(mut r) => {
                    assert(r.wf());
                    r.split(hwnd);
                    r
                },
            };
            self.workspaces[i].root = Some(new_root);
            assert(self.workspaces@ =~= tile_in(
                ws0,
                self.active_workspace,
                hwnd,
                area_or_empty(work_area),
            ));
            assert(self.wf()) by {
                assert forall|j: int| 0 <= j < self.workspaces@.len() implies ((
                #[trigger] self.workspaces@[j]).root matches Some(r) ==> r.wf()) by {
                    if j != i {
                        assert(self.workspaces@[j] == ws0[j]);
                    }
                }
            }
        }
    }

    /// Removes `hwnd` from the active workspace's tree, dropping the tree
    /// when `hwnd` was its only window.
    fn remove_from_layout(&mut self, hwnd: SendHWND)
        requires
            old(self).wf(),
        ensures
            final(self).wf(),
            final(self).workspaces@ == untile_in(
                old(self).workspaces@,
                old(self).active_workspace,
                hwnd,
            ),
            final(self).active_windows@ == old(self).active_windows@,
            final(self).active_workspace == old(self).active_workspace,
            final(self).gaps_in == old(self).gaps_in,
            final(self).gaps_out == old(self).gaps_out,
            final(self).master_layout == old(self).master_layout,
    {
        if let Some(i) = self.find_active_workspace() {
            let ghost ws0 = self.workspaces@;
            let root = self.workspaces[i].root.take();
            if let Some(mut r) = root {
                assert(r.wf());
                proof {
                    crate::dwindle::lemma_wf_remove_fits(r, hwnd);
                }
                if !r.remove(hwnd) {
                    self.workspaces[i].root = Some(r);
                }
            }
            assert(self.workspaces@ =~= untile_in(ws0, self.active_workspace, hwnd));
            assert(self.wf()) by {
                assert forall|j: int| 0 <= j < self.workspaces@.len() implies ((
                #[trigger] self.workspaces@[j]).root matches Some(r) ==> r.wf()) by {
                    if j != i {
                        assert(self.workspaces@[j] == ws0[j]);
                    }
                }
            }
        }
    }

    /// Toggling `hwnd` can be done without overflow: when it would tile a
    /// floating window, the tiling fits (see `tiling_fits`).
    pub open spec fn toggle_fits(&self, hwnd: SendHWND, work_area: Option<Rect>) -> bool {
        (self.active_windows@.contains_key(hwnd.0) && self.active_windows@[hwnd.0].is_floating)
            ==> tiling_fits(self.workspaces@, self.active_workspace, work_area)
    }

    /// Whether `toggle_tiling(hwnd, work_area)` can run without overflow.
    pub fn can_toggle_tiling(&self, hwnd: SendHWND, work_area: Option<Rect>) -> (r: bool)
        ensures
            r == self.toggle_fits(hwnd, work_area),
    {
        let tiles = match self.active_windows.get(&hwnd.0) {
            Some(s) => s.is_floating,
            None => false,
        };
        if !tiles {
            return true;
        }
        match self.find_active_workspace() {
            None => work_area_ok(work_area),
            Some(i) => match &self.workspaces[i].root {
                None => work_area_ok(work_area),
                Some(root) => root.can_split(),
            },
        }
    }

    /// Flips whether the managed window `hwnd` floats: a window that starts
    /// floating leaves the active workspace's tree, one that stops floating
    /// is tiled into it (over `work_area` when the workspace has no tree).
    /// Returns the new floating flag, or `None` (changing nothing) when
    /// `hwnd` is not managed.
    pub fn toggle_tiling(&mut self, hwnd: SendHWND, work_area: Option<Rect>) -> (r: Option<bool>)
        requires
            old(self).wf(),
            old(self).toggle_fits(hwnd, work_area),
        ensures
            final(self).wf(),
            final(self).active_workspace == old(self).active_workspace,
            final(self).gaps_in == old(self).gaps_in,
            final(self).gaps_out == old(self).gaps_out,
            final(self).master_layout == old(self).master_layout,
            !old(self).active_windows@.contains_key(hwnd.0) ==> {
                &&& r is None
                &&& final(self).active_windows@ == old(self).active_windows@
                &&& final(self).workspaces@ == old(self).workspaces@
            },
            old(self).active_windows@.contains_key(hwnd.0) ==> {
                let s = old(self).active_windows@[hwnd.0];
                &&& r == Some(!s.is_floating)
                &&& final(self).active_windows@ == old(self).active_windows@.insert(
                    hwnd.0,
                    with_floating(s, !s.is_floating),
                )
                &&& final(self).workspaces@ == if !s.is_floating {
                    untile_in(old(self).workspaces@, old(self).active_workspace, hwnd)
                } else {
                    tile_in(
                        old(self).workspaces@,
                        old(self).active_workspace,
                        hwnd,
                        area_or_empty(work_area),
                    )
                }
            },
    {
        match self.active_windows.remove(&hwnd.0) {
            None => None,
            Some(mut state) => {
                let ghost s = state;
                state.is_floating = !state.is_floating;
                let is_now_floating = state.is_floating;
                self.active_windows.insert(hwnd.0, state);
                assert(self.active_windows@ =~= old(self).active_windows@.insert(
                    hwnd.0,
                    with_floating(s, !s.is_floating),
                ));
                if is_now_floating {
                    self.remove_from_layout(hwnd);
                } else {
                    self.tile_window(hwnd, work_area);
                }
                Some(is_now_floating)
            },
        }
    }

    /// Stops managing `hwnd` and removes it from the active workspace's
    /// tree.
    pub fn remove_window(&mut self, hwnd: SendHWND)
        requires
            old(self).wf(),
        ensures
            final(self).wf(),
            final(self).active_windows@ == old(self).active_windows@.remove(hwnd.0),
            final(self).workspaces@ == untile_in(
                old(self).workspaces@,
                old(self).active_workspace,
                hwnd,
            ),
            final(self).active_workspace == old(self).active_workspace,
            final(self).gaps_in == old(self).gaps_in,
            final(self).gaps_out == old(self).gaps_out,
            final(self).master_layout == old(self).master_layout,
    {
        self.active_windows.remove(&hwnd.0);
        self.remove_from_layout(hwnd);
    }

    /// Whether `recalculate_layout` can apply the outer gap without
    /// overflow.
    pub fn can_recalculate_layout(&self) -> (r: bool)
        ensures
            r == self.layout_fits(),
    {
        match self.find_active_workspace() {
            None => true,
            Some(i) => match &self.workspaces[i].root {
                None => true,
                Some(root) => root.can_layout(self.gaps_out),
            },
        }
    }

    /// The windows of the active workspace's tree with the boxes they are
    /// to be moved to: each leaf's box shrunk by the outer gap.
    pub fn recalculate_layout(&self) -> (r: Vec<(SendHWND, Rect)>)
        requires
            self.layout_fits(),
        ensures
            r@ == root_layout(root_of(self.workspaces@, self.active_workspace), self.gaps_out),
    {
        let mut results: Vec<(SendHWND, Rect)> = Vec::new();
        if let Some(i) = self.find_active_workspace() {
            if let Some(root) = &self.workspaces[i].root {
                root.get_layout_results(&mut results, self.gaps_in, self.gaps_out);
            }
        }
        assert(results@ =~= root_layout(root_of(self.workspaces@, self.active_workspace), self.gaps_out));
        results
    }
}

} // verus!

verus! {

proof fn lemma_first_workspace_same_ids(a: Seq<Workspace>, b: Seq<Workspace>, id: u32, k: int)
    requires
        0 <= k,
        a.len() == b.len(),
        forall|j: int| 0 <= j < a.len() ==> (#[trigger] a[j]).id == b[j].id,
    ensures
        first_workspace_from(a, id, k) == first_workspace_from(b, id, k),
    decreases a.len() - k,
{
    if k < a.len() {
        assert(a[k].id == b[k].id);
        lemma_first_workspace_same_ids(a, b, id, k + 1);
    }
}

proof fn lemma_first_workspace_bounds(a: Seq<Workspace>, id: u32, k: int)
    requires
        0 <= k,
    ensures
        k <= first_workspace_from(a, id, k) <= a.len() || (k > a.len() && first_workspace_from(
            a,
            id,
            k,
        ) == a.len()),
        first_workspace_from(a, id, k) < a.len() ==> a[first_workspace_from(a, id, k)].id == id,
    decreases a.len() - k,
{
    if k < a.len() {
        lemma_first_workspace_bounds(a, id, k + 1);
    }
}

/// A tree, if any, with the unused split directions of its leaves cleared.
pub open spec fn cleared_root(root: Option<DwindleNode>) -> Option<DwindleNode> {
    match root {
        None => None,
        Some(r) => Some(leaf_directions_cleared(r)),
    }
}

/// Tiling a window that the active tree does not hold and then removing it
/// again leaves every workspace with its id, its layout type, for every
/// outer gap the same window boxes, and the same tree but for the unused
/// split direction of the leaf that was split.
pub proof fn lemma_untile_undoes_tile(ws: Seq<Workspace>, id: u32, h: SendHWND, area: Rect)
    requires
        workspaces_wf(ws),
        box_ok(area),
        root_of(ws, id) matches Some(r) ==> !r.windows().contains(h),
    ensures
        untile_in(tile_in(ws, id, h, area), id, h).len() == ws.len(),
        forall|j: int|
            0 <= j < ws.len() ==> {
                let w2 = #[trigger] untile_in(tile_in(ws, id, h, area), id, h)[j];
                &&& w2.id == ws[j].id
                &&& w2.layout == ws[j].layout
                &&& forall|g: i32| #[trigger] root_layout(w2.root, g) == root_layout(ws[j].root, g)
                &&& cleared_root(w2.root) == cleared_root(ws[j].root)
            },
{
    let i = workspace_index(ws, id);
    lemma_first_workspace_bounds(ws, id, 0);
    let ws1 = tile_in(ws, id, h, area);
    let ws2 = untile_in(ws1, id, h);
    if i < ws.len() {
        assert forall|j: int| 0 <= j < ws.len() implies (#[trigger] ws1[j]).id == ws[j].id by {}
        lemma_first_workspace_same_ids(ws1, ws, id, 0);
        assert(workspace_index(ws1, id) == i);
        match ws[i].root {
            None => {
                assert(leaf(h, area).removal(h).0);
                assert(ws2[i].root is None);
            },
            Some(r) => {
                assert(r.wf());
                crate::dwindle::lemma_remove_undoes_split(r, h);
                crate::dwindle::lemma_with_window_inner(r, h);
            },
        }
        assert forall|j: int| 0 <= j < ws.len() implies {
            let w2 = #[trigger] ws2[j];
            &&& w2.id == ws[j].id
            &&& w2.layout == ws[j].layout
            &&& forall|g: i32| #[trigger] root_layout(w2.root, g) == root_layout(ws[j].root, g)
            &&& cleared_root(w2.root) == cleared_root(ws[j].root)
        } by {
            if j != i {
                assert(ws2[j] == ws[j]);
            }
        }
    }
}

/// Toggling the floating flag of a managed window twice gives back the same
/// window states.
pub proof fn lemma_toggle_twice_restores_state(windows: Map<isize, WindowState>, k: isize)
    requires
        windows.contains_key(k),
    ensures
        ({
            let s = windows[k];
            let w1 = windows.insert(k, with_floating(s, !s.is_floating));
            let s1 = w1[k];
            w1.insert(k, with_floating(s1, !s1.is_floating)) == windows
        }),
{
    let s = windows[k];
    let w1 = windows.insert(k, with_floating(s, !s.is_floating));
    let s1 = w1[k];
    assert(with_floating(s1, !s1.is_floating) == s);
    assert(w1.insert(k, with_floating(s1, !s1.is_floating)) =~= windows);
}

} // verus!

verus! {

/// Removing a window that occurs at most once in the active workspace's
/// tree leaves that tree (if any remains) with exactly the other windows,
/// in the same order; the tree is dropped when the window was its only one.
pub proof fn lemma_untile_removes(ws: Seq<Workspace>, id: u32, h: SendHWND)
    requires
        workspaces_wf(ws),
        root_of(ws, id) matches Some(r) ==> at_most_once(r.windows(), h),
    ensures
        ({
            let before = root_of(ws, id);
            let after = root_of(untile_in(ws, id, h), id);
            match before {
                None => after is None,
                Some(r) => if r.hwnd == Some(h) {
                    after is None
                } else {
                    after matches Some(r2) && r2.windows() == r.windows().filter(
                        |w: SendHWND| w != h,
                    )
                },
            }
        }),
{
    let i = workspace_index(ws, id);
    lemma_first_workspace_bounds(ws, id, 0);
    if i < ws.len() {
        let ws2 = untile_in(ws, id, h);
        assert forall|j: int| 0 <= j < ws.len() implies (#[trigger] ws2[j]).id == ws[j].id by {}
        lemma_first_workspace_same_ids(ws2, ws, id, 0);
        match ws[i].root {
            None => {},
            Some(r) => {
                assert(r.wf());
                lemma_removal_wf(r, h);
                if r.hwnd != Some(h) {
                    lemma_removal_windows(r, h);
                }
            },
        }
    }
}

} // verus!
