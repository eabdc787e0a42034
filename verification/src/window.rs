//! Windows reported by the window manager: items for the window switcher,
//! which window an item focuses, and the answers of the window manager's IPC.

use vstd::prelude::*;
use crate::text::{decimal, u64_to_decimal, str_eq};
use crate::item::{Item, ItemData, ItemView, DataView, opt_view, copy_opt};
use crate::desktop::ActivationError;

verus! {

/// Window information from the window manager.
#[derive(Debug, Clone)]
pub struct WindowInfo {
    pub id: u32,
    pub title: String,
    pub class: Option<String>,
    pub instance: Option<String>,
    pub workspace: u32,
    pub focused: bool,
}

impl WindowInfo {
    /// A copy of this window's information.
    pub fn duplicate(&self) -> (r: WindowInfo)
        ensures
            r == *self,
    {
        WindowInfo {
            id: self.id,
            title: self.title.clone(),
            class: copy_opt(&self.class),
            instance: copy_opt(&self.instance),
            workspace: self.workspace,
            focused: self.focused,
        }
    }
}

/// The description of a window in the switcher: class and instance when
/// they differ, else the class, else the window id; then the workspace.
pub open spec fn window_description(w: WindowInfo) -> Seq<char> {
    let ws = " [WS "@ + decimal(w.workspace as nat) + "]"@;
    match (opt_view(w.class), opt_view(w.instance)) {
        (Some(class), Some(instance)) => if class != instance {
            class + " - "@ + instance + ws
        } else {
            class + ws
        },
        (Some(class), None) => class + ws,
        (None, _) => "Window "@ + decimal(w.id as nat) + ws,
    }
}

/// The switcher's item for a window: its id in decimal, its title, its
/// description, and the window's id, workspace and focus as data.
pub open spec fn window_item_view(w: WindowInfo) -> ItemView {
    ItemView {
        id: decimal(w.id as nat),
        name: w.title@,
        description: Some(window_description(w)),
        icon: None,
        data: DataView::Window { window_id: w.id, workspace: w.workspace, focused: w.focused },
    }
}

/// The description of a window, as [`window_description`] states.
pub fn describe_window(w: &WindowInfo) -> (r: String)
    ensures
        r@ == window_description(*w),
{
    let mut ws = " [WS ".to_owned();
    ws.append(u64_to_decimal(w.workspace as u64).as_str());
    ws.append("]");
    match (&w.class, &w.instance) {
        (Some(class), Some(instance)) => {
            if !str_eq(class.as_str(), instance.as_str()) {
                let mut r = class.clone();
                r.append(" - ");
                r.append(instance.as_str());
                r.append(ws.as_str());
                r
            } else {
                let mut r = class.clone();
                r.append(ws.as_str());
                r
            }
        },
        (Some(class), None) => {
            let mut r = class.clone();
            r.append(ws.as_str());
            r
        },
        (None, _) => {
            let mut r = "Window ".to_owned();
            r.append(u64_to_decimal(w.id as u64).as_str());
            r.append(ws.as_str());
            r
        },
    }
}

/// The switcher's item for a window.
pub fn window_item(w: &WindowInfo) -> (r: Item)
    ensures
        r@ == window_item_view(*w),
{
    Item {
        id: u64_to_decimal(w.id as u64),
        name: w.title.clone(),
        description: Some(describe_window(w)),
        icon: None,
        data: ItemData::Window { window_id: w.id, workspace: w.workspace, focused: w.focused },
    }
}

/// The switcher's items for a list of windows, in order.
pub fn window_items(windows: &[WindowInfo]) -> (r: Vec<Item>)
    ensures
        r@.len() == windows@.len(),
        forall|i: int| 0 <= i < windows@.len() ==> (#[trigger] r@[i])@ == window_item_view(windows@[i]),
{
    let mut r: Vec<Item> = Vec::new();
    let mut i: usize = 0;
    while i < windows.len()
        invariant
            i <= windows@.len(),
            r@.len() == i,
            forall|k: int| 0 <= k < i ==> (#[trigger] r@[k])@ == window_item_view(windows@[k]),
        decreases windows@.len() - i,
    {
        r.push(window_item(&windows[i]));
        i = i + 1;
    }
    r
}

/// The window that activating an item focuses: the window id in its data.
pub fn window_target(item: &Item) -> (r: Result<u32, ActivationError>)
    ensures
        match item.data@ {
            DataView::Window { window_id, .. } => r == Ok::<u32, ActivationError>(window_id),
            _ => r matches Err(ActivationError::InvalidWindowId),
        },
{
    match &item.data {
        ItemData::Window { window_id, .. } => Ok(*window_id),
        _ => Err(ActivationError::InvalidWindowId),
    }
}

/// The first focused window of a list, if any.
pub fn focused_window(windows: &[WindowInfo]) -> (r: Option<WindowInfo>)
    ensures
        match r {
            Some(w) => exists|i: int|
                0 <= i < windows@.len() && windows@[i] == w && w.focused && forall|j: int|
                    0 <= j < i ==> !(#[trigger] windows@[j]).focused,
            None => forall|j: int| 0 <= j < windows@.len() ==> !(#[trigger] windows@[j]).focused,
        },
{
    let mut i: usize = 0;
    while i < windows.len()
        invariant
            i <= windows@.len(),
            forall|j: int| 0 <= j < i ==> !(#[trigger] windows@[j]).focused,
        decreases windows@.len() - i,
    {
        if windows[i].focused {
            return Some(windows[i].duplicate());
        }
        i = i + 1;
    }
    None
}

/// The windows on a workspace, in order.
pub fn windows_on_workspace(windows: &[WindowInfo], workspace: u32) -> (r: Vec<WindowInfo>)
    ensures
        r@ == windows@.filter(|w: WindowInfo| w.workspace == workspace),
{
    let ghost pred = |w: WindowInfo| w.workspace == workspace;
    let mut r: Vec<WindowInfo> = Vec::new();
    let mut i: usize = 0;
    assert(windows@.take(0) =~= Seq::<WindowInfo>::empty());
    while i < windows.len()
        invariant
            i <= windows@.len(),
            pred == (|w: WindowInfo| w.workspace == workspace),
            r@ == windows@.take(i as int).filter(pred),
        decreases windows@.len() - i,
    {
        assert(windows@.take(i + 1) =~= windows@.take(i as int).push(windows@[i as int]));
        proof {
            windows@.take(i as int).lemma_filter_push(windows@[i as int], pred);
        }
        if windows[i].workspace == workspace {
            r.push(windows[i].duplicate());
        }
        i = i + 1;
    }
    assert(windows@.take(windows@.len() as int) =~= windows@);
    r
}

/// What a window-manager reply means: a failure that names an error is that
/// error; any other reply is accepted.
pub fn check_reply(success: bool, error: &Option<String>) -> (r: Result<(), String>)
    ensures
        match r {
            Ok(()) => success || error is None,
            Err(msg) => !success && error is Some && msg@ == "gar error: "@ + error->0@,
        },
{
    if !success {
        if let Some(e) = error {
            let mut msg = "gar error: ".to_owned();
            msg.append(e.as_str());
            return Err(msg);
        }
    }
    Ok(())
}

} // verus!
