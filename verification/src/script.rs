//! The script protocol: items that a script lists, and the actions it
//! answers a selection with.

use vstd::prelude::*;
use crate::text::str_eq;
use crate::item::{Item, ItemData, ItemView, DataView, Action, ActionView, opt_view, copy_opt};

verus! {

/// An item as a script lists it; `data` is JSON text.
pub struct ScriptItem {
    pub id: String,
    pub name: String,
    pub description: Option<String>,
    pub icon: Option<String>,
    pub data: Option<String>,
}

/// The launcher's item for a script item: same id, name, description and
/// icon; the script's data when it gave some, else no data.
pub open spec fn script_item_view(si: ScriptItem) -> ItemView {
    ItemView {
        id: si.id@,
        name: si.name@,
        description: opt_view(si.description),
        icon: opt_view(si.icon),
        data: match si.data {
            Some(d) => DataView::Json(d@),
            None => DataView::Null,
        },
    }
}

/// A script item becomes a launcher item with the script's own id (which the
/// selection sent back and the frecency record use), its name, description
/// and icon, and its data as JSON.
pub proof fn lemma_script_item_keeps_fields(si: ScriptItem)
    ensures
        script_item_view(si).id == si.id@,
        script_item_view(si).name == si.name@,
        script_item_view(si).description == opt_view(si.description),
        script_item_view(si).icon == opt_view(si.icon),
        si.data is Some ==> script_item_view(si).data == DataView::Json(si.data->0@),
        si.data is None ==> script_item_view(si).data == DataView::Null,
{
}

/// The launcher's items for the items a script listed, in order.
pub fn script_items(listed: &[ScriptItem]) -> (r: Vec<Item>)
    ensures
        r@.len() == listed@.len(),
        forall|i: int| 0 <= i < listed@.len() ==> (#[trigger] r@[i])@ == script_item_view(listed@[i]),
        forall|i: int|
            0 <= i < listed@.len() ==> (#[trigger] r@[i]).id@ == listed@[i].id@ && r@[i].name@
                == listed@[i].name@,
{
    let mut r: Vec<Item> = Vec::new();
    let mut i: usize = 0;
    while i < listed.len()
        invariant
            i <= listed@.len(),
            r@.len() == i,
            forall|k: int| 0 <= k < i ==> (#[trigger] r@[k])@ == script_item_view(listed@[k]),
        decreases listed@.len() - i,
    {
        let si = &listed[i];
        let data = match &si.data {
            Some(d) => ItemData::Json(d.clone()),
            None => ItemData::Null,
        };
        r.push(
            Item {
                id: si.id.clone(),
                name: si.name.clone(),
                description: copy_opt(&si.description),
                icon: copy_opt(&si.icon),
                data,
            },
        );
        i = i + 1;
    }
    r
}

/// A script's answer to a selection; `data` is JSON text.
pub struct ScriptAction {
    pub action: String,
    pub command: Option<String>,
    pub mode: Option<String>,
    pub data: Option<String>,
}

/// The action a script's answer asks for: `launch` with a command, `switch`
/// with a mode and `custom` with data do so; everything else closes.
pub open spec fn script_action_view(a: ScriptAction) -> ActionView {
    if a.action@ == "launch"@ && a.command is Some {
        ActionView::Launch(a.command->0@)
    } else if a.action@ == "switch"@ && a.mode is Some {
        ActionView::SwitchMode(a.mode->0@)
    } else if a.action@ == "custom"@ && a.data is Some {
        ActionView::Custom(a.data->0@)
    } else {
        ActionView::Close
    }
}

/// The action a script's answer asks for, as [`script_action_view`] states.
pub fn script_action(answer: &ScriptAction) -> (r: Action)
    ensures
        r@ == script_action_view(*answer),
{
    proof {
        reveal_strlit("launch");
        reveal_strlit("close");
        reveal_strlit("switch");
        reveal_strlit("custom");
        assert("launch"@[0] != "switch"@[0] && "launch"@[0] != "custom"@[0]);
        assert("close"@[0] != "switch"@[0] && "close"@[1] != "custom"@[1] && "close"@[0]
            != "launch"@[0]);
        assert("switch"@[0] != "custom"@[0]);
    }
    let kind = answer.action.as_str();
    if str_eq(kind, "launch") {
        match &answer.command {
            Some(c) => Action::Launch(c.clone()),
            None => Action::Close,
        }
    } else if str_eq(kind, "close") {
        Action::Close
    } else if str_eq(kind, "switch") {
        match &answer.mode {
            Some(m) => Action::SwitchMode(m.clone()),
            None => Action::Close,
        }
    } else if str_eq(kind, "custom") {
        match &answer.data {
            Some(d) => Action::Custom(d.clone()),
            None => Action::Close,
        }
    } else {
        Action::Close
    }
}

} // verus!
