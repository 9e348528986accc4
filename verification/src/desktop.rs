use vstd::prelude::*;

use crate::dwindle::DwindleNode;
use crate::types::SendHWND;

verus! {

/// What the window manager knows of one window.
#[derive(Debug)]
pub struct WindowState {
    pub hwnd: SendHWND,
    pub title: String,
    pub class_name: String,
    pub is_floating: bool,
    pub workspace_id: u32,
}

impl WindowState {
    /// A newly seen window: floating, on `workspace_id`.
    pub fn new(hwnd: SendHWND, title: String, class_name: String, workspace_id: u32) -> (r: Self)
        ensures
            r == (WindowState { hwnd, title, class_name, is_floating: true, workspace_id }),
    {
        WindowState { hwnd, title, class_name, is_floating: true, workspace_id }
    }
}

/// How a workspace arranges its tiled windows.
#[derive(Clone, Copy, Debug, PartialEq, Eq, Structural)]
pub enum LayoutType {
    Dwindle,
    Master,
}

/// A workspace and the dwindle tree of its tiled windows, if it has any.
#[derive(Debug)]
pub struct Workspace {
    pub id: u32,
    pub root: Option<DwindleNode>,
    pub layout: LayoutType,
}

} // verus!
