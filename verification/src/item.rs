//! Items shown by the launcher, the data each mode attaches to them, and the
//! actions a selection leads to.

use vstd::prelude::*;

verus! {

/// Mode-specific data attached to an item.
#[derive(Debug, Clone)]
pub enum ItemData {
    /// No data.
    Null,
    /// A desktop application: the command to run (field codes removed) and
    /// the path of its `.desktop` file.
    Desktop { command: String, path: String },
    /// An executable found on `PATH`.
    Executable { path: String },
    /// A window managed by the window manager.
    Window { window_id: u32, workspace: u32, focused: bool },
    /// Data handed over by a script, kept as JSON text.
    Json(String),
}

/// The abstract value of [`ItemData`].
pub enum DataView {
    Null,
    Desktop { command: Seq<char>, path: Seq<char> },
    Executable { path: Seq<char> },
    Window { window_id: u32, workspace: u32, focused: bool },
    Json(Seq<char>),
}

impl View for ItemData {
    type V = DataView;

    open spec fn view(&self) -> DataView {
        match self {
            ItemData::Null => DataView::Null,
            ItemData::Desktop { command, path } => DataView::Desktop { command: command@, path: path@ },
            ItemData::Executable { path } => DataView::Executable { path: path@ },
            ItemData::Window { window_id, workspace, focused } => DataView::Window {
                window_id: *window_id,
                workspace: *workspace,
                focused: *focused,
            },
            ItemData::Json(text) => DataView::Json(text@),
        }
    }
}

/// The characters of an optional string.
pub open spec fn opt_view(s: Option<String>) -> Option<Seq<char>> {
    match s {
        Some(t) => Some(t@),
        None => None,
    }
}

/// A copy of an optional string.
pub fn copy_opt(s: &Option<String>) -> (r: Option<String>)
    ensures
        r == *s,
{
    match s {
        Some(t) => Some(t.clone()),
        None => None,
    }
}

impl ItemData {
    /// A copy of this data.
    pub fn duplicate(&self) -> (r: ItemData)
        ensures
            r == *self,
    {
        match self {
            ItemData::Null => ItemData::Null,
            ItemData::Desktop { command, path } => ItemData::Desktop {
                command: command.clone(),
                path: path.clone(),
            },
            ItemData::Executable { path } => ItemData::Executable { path: path.clone() },
            ItemData::Window { window_id, workspace, focused } => ItemData::Window {
                window_id: *window_id,
                workspace: *workspace,
                focused: *focused,
            },
            ItemData::Json(text) => ItemData::Json(text.clone()),
        }
    }
}

/// An item that can be displayed and selected.
#[derive(Debug, Clone)]
pub struct Item {
    /// Unique identifier.
    pub id: String,
    /// Display name.
    pub name: String,
    /// Optional description.
    pub description: Option<String>,
    /// Optional icon name.
    pub icon: Option<String>,
    /// Additional, mode-specific data.
    pub data: ItemData,
}

/// The abstract value of an [`Item`].
pub struct ItemView {
    pub id: Seq<char>,
    pub name: Seq<char>,
    pub description: Option<Seq<char>>,
    pub icon: Option<Seq<char>>,
    pub data: DataView,
}

impl View for Item {
    type V = ItemView;

    open spec fn view(&self) -> ItemView {
        ItemView {
            id: self.id@,
            name: self.name@,
            description: opt_view(self.description),
            icon: opt_view(self.icon),
            data: self.data@,
        }
    }
}

/// The views of a sequence of items.
pub open spec fn views(items: Seq<Item>) -> Seq<ItemView> {
    items.map_values(|it: Item| it@)
}

impl Item {
    /// An item with the given id and name, no description, icon or data.
    pub fn new(id: &str, name: &str) -> (r: Item)
        ensures
            r@ == (ItemView {
                id: id@,
                name: name@,
                description: None,
                icon: None,
                data: DataView::Null,
            }),
    {
        Item {
            id: id.to_owned(),
            name: name.to_owned(),
            description: None,
            icon: None,
            data: ItemData::Null,
        }
    }

    /// This item with the given description.
    pub fn with_description(self, desc: &str) -> (r: Item)
        ensures
            r@ == (ItemView { description: Some(desc@), ..self@ }),
    {
        let mut item = self;
        item.description = Some(desc.to_owned());
        item
    }

    /// This item with the given icon.
    pub fn with_icon(self, icon: &str) -> (r: Item)
        ensures
            r@ == (ItemView { icon: Some(icon@), ..self@ }),
    {
        let mut item = self;
        item.icon = Some(icon.to_owned());
        item
    }

    /// This item with the given data.
    pub fn with_data(self, data: ItemData) -> (r: Item)
        ensures
            r@ == (ItemView { data: data@, ..self@ }),
    {
        let mut item = self;
        item.data = data;
        item
    }

    /// A copy of this item.
    pub fn duplicate(&self) -> (r: Item)
        ensures
            r == *self,
    {
        Item {
            id: self.id.clone(),
            name: self.name.clone(),
            description: copy_opt(&self.description),
            icon: copy_opt(&self.icon),
            data: self.data.duplicate(),
        }
    }
}

/// Copies of a slice of items, in order.
pub fn duplicate_all(items: &[Item]) -> (r: Vec<Item>)
    ensures
        r@ == items@,
{
    let mut r: Vec<Item> = Vec::new();
    let mut i: usize = 0;
    while i < items.len()
        invariant
            i <= items@.len(),
            r@ == items@.take(i as int),
        decreases items@.len() - i,
    {
        r.push(items[i].duplicate());
        i = i + 1;
        assert(r@ =~= items@.take(i as int));
    }
    assert(items@.take(items@.len() as int) =~= items@);
    r
}

/// Copies of the items at the given positions, in order.
pub fn pick(items: &[Item], order: &[usize]) -> (r: Vec<Item>)
    requires
        forall|t: int| 0 <= t < order@.len() ==> (#[trigger] order@[t]) < items@.len(),
    ensures
        r@ == order@.map_values(|i: usize| items@[i as int]),
{
    let mut r: Vec<Item> = Vec::new();
    let mut a: usize = 0;
    while a < order.len()
        invariant
            a <= order@.len(),
            forall|t: int| 0 <= t < order@.len() ==> (#[trigger] order@[t]) < items@.len(),
            r@ == order@.take(a as int).map_values(|i: usize| items@[i as int]),
        decreases order@.len() - a,
    {
        r.push(items[order[a]].duplicate());
        a = a + 1;
        assert(r@ =~= order@.take(a as int).map_values(|i: usize| items@[i as int]));
    }
    assert(order@.take(order@.len() as int) =~= order@);
    r
}

/// Action to take after selecting an item.
#[derive(Debug, Clone)]
pub enum Action {
    /// Close the launcher.
    Close,
    /// Launch a command.
    Launch(String),
    /// Switch to another mode.
    SwitchMode(String),
    /// Custom action (for script mode), carrying JSON text.
    Custom(String),
}

/// The abstract value of an [`Action`].
pub enum ActionView {
    Close,
    Launch(Seq<char>),
    SwitchMode(Seq<char>),
    Custom(Seq<char>),
}

impl View for Action {
    type V = ActionView;

    open spec fn view(&self) -> ActionView {
        match self {
            Action::Close => ActionView::Close,
            Action::Launch(c) => ActionView::Launch(c@),
            Action::SwitchMode(m) => ActionView::SwitchMode(m@),
            Action::Custom(d) => ActionView::Custom(d@),
        }
    }
}

} // verus!
