//! Desktop applications: cleaning `Exec` lines, turning parsed `.desktop`
//! files into items, and collecting the items of all `.desktop` files found.

use vstd::prelude::*;
use crate::text::{chars_of, string_from, trim_chars, trim, str_eq, lowercase, to_lowercase, contains_str};
use crate::item::{Item, ItemData, ItemView, DataView, opt_view, copy_opt, views, pick};
use crate::order::{is_key_order, order_by_key};
use freedesktop_entry_parser::Entry;

verus! {

/// The letters that make `%x` a field code in an `Exec` line.
pub open spec fn is_field_code(c: char) -> bool {
    c == 'f' || c == 'F' || c == 'u' || c == 'U' || c == 'd' || c == 'D' || c == 'n' || c == 'N'
        || c == 'i' || c == 'c' || c == 'k' || c == 'v' || c == 'm'
}

/// An `Exec` line with each field code (`%f`, `%U`, ...) removed and each `%%`
/// turned into `%`; any other `%` is kept.
pub open spec fn strip_field_codes(s: Seq<char>) -> Seq<char>
    decreases s.len(),
{
    if s.len() == 0 {
        Seq::empty()
    } else if s[0] == '%' && s.len() > 1 && is_field_code(s[1]) {
        strip_field_codes(s.skip(2))
    } else if s[0] == '%' && s.len() > 1 && s[1] == '%' {
        seq!['%'] + strip_field_codes(s.skip(2))
    } else {
        seq![s[0]] + strip_field_codes(s.skip(1))
    }
}

/// What [`clean_exec`] makes of an `Exec` line: field codes removed, then
/// surrounding whitespace trimmed.
pub open spec fn clean_exec_spec(exec: Seq<char>) -> Seq<char> {
    trim(strip_field_codes(exec))
}

/// Clean up an Exec string by removing field codes.
pub fn clean_exec(exec: &str) -> (r: String)
    ensures
        r@ == clean_exec_spec(exec@),
{
    let s = chars_of(exec);
    let mut out: Vec<char> = Vec::new();
    let mut i: usize = 0;
    assert(s@.skip(0) =~= s@);
    while i < s.len()
        invariant
            i <= s@.len(),
            strip_field_codes(s@) == out@ + strip_field_codes(s@.skip(i as int)),
        decreases s@.len() - i,
    {
        let ghost rest = s@.skip(i as int);
        let c = s[i];
        if c == '%' && i + 1 < s.len() {
            let next = s[i + 1];
            if next == 'f' || next == 'F' || next == 'u' || next == 'U' || next == 'd' || next
                == 'D' || next == 'n' || next == 'N' || next == 'i' || next == 'c' || next == 'k'
                || next == 'v' || next == 'm' {
                assert(rest.skip(2) =~= s@.skip(i + 2));
                i = i + 2;
                continue;
            }
            if next == '%' {
                out.push('%');
                assert(rest.skip(2) =~= s@.skip(i + 2));
                assert(out@ + strip_field_codes(s@.skip(i + 2)) =~= out@.drop_last() + (seq!['%']
                    + strip_field_codes(rest.skip(2))));
                i = i + 2;
                continue;
            }
        }
        out.push(c);
        assert(rest.skip(1) =~= s@.skip(i + 1));
        assert(out@ + strip_field_codes(s@.skip(i + 1)) =~= out@.drop_last() + (seq![c]
            + strip_field_codes(rest.skip(1))));
        i = i + 1;
    }
    assert(s@.skip(i as int) =~= Seq::<char>::empty());
    assert(out@ + Seq::<char>::empty() =~= out@);
    let t = trim_chars(&out);
    string_from(&t)
}

#[verifier::external_type_specification]
#[verifier::external_body]
pub struct ExEntry(freedesktop_entry_parser::Entry);

/// What a parsed entry holds: the value of each attribute that has no
/// locale parameter, keyed by section title and attribute name.
pub uninterp spec fn entry_values(entry: Entry) -> Map<(Seq<char>, Seq<char>), Seq<char>>;

/// What `Entry::parse` finds in `bytes`: the attribute values as in
/// [`entry_values`], or `None` where the bytes do not parse.
pub uninterp spec fn parsed_entry(bytes: Seq<u8>) -> Option<Map<(Seq<char>, Seq<char>), Seq<char>>>;

/// Trusted: calls `freedesktop_entry_parser::Entry::parse` on a copy of the
/// bytes. The contract claims that it succeeds exactly where
/// [`parsed_entry`] is `Some`, and that the entry then holds those values.
#[verifier::external_body]
fn parse_entry(bytes: &[u8]) -> (r: Option<Entry>)
    ensures
        r is Some <==> parsed_entry(bytes@) is Some,
        r matches Some(e) ==> entry_values(e) == parsed_entry(bytes@)->0,
{
    Entry::parse(bytes.to_vec()).ok()
}

/// Trusted: calls `Entry::section(section).attr(name)`, which looks the
/// attribute up in the entry's map and returns its value. The contract claims
/// that the value is present exactly where [`entry_values`] has the key, and
/// equals it.
#[verifier::external_body]
fn entry_attr(entry: &Entry, section: &str, name: &str) -> (r: Option<String>)
    ensures
        r is Some <==> entry_values(*entry).contains_key((section@, name@)),
        r matches Some(v) ==> v@ == entry_values(*entry)[(section@, name@)],
{
    entry.section(section).attr(name).map(String::from)
}

/// The attributes of a `[Desktop Entry]` section that the launcher reads.
pub struct DesktopAttrs {
    pub no_display: Option<String>,
    pub hidden: Option<String>,
    pub name: Option<String>,
    pub command: Option<String>,
    pub comment: Option<String>,
    pub icon: Option<String>,
}

/// The abstract value of [`DesktopAttrs`].
pub struct DesktopAttrsView {
    pub no_display: Option<Seq<char>>,
    pub hidden: Option<Seq<char>>,
    pub name: Option<Seq<char>>,
    pub command: Option<Seq<char>>,
    pub comment: Option<Seq<char>>,
    pub icon: Option<Seq<char>>,
}

impl View for DesktopAttrs {
    type V = DesktopAttrsView;

    open spec fn view(&self) -> DesktopAttrsView {
        DesktopAttrsView {
            no_display: opt_view(self.no_display),
            hidden: opt_view(self.hidden),
            name: opt_view(self.name),
            command: opt_view(self.command),
            comment: opt_view(self.comment),
            icon: opt_view(self.icon),
        }
    }
}

/// The item a desktop entry gives: none when it is marked `NoDisplay=true`
/// or `Hidden=true` or lacks `Name` or `Exec`; otherwise an item named after
/// `Name`, identified by the file stem, described by `Comment`, with `Icon`,
/// and carrying the cleaned `Exec` line and the file's path.
pub open spec fn desktop_item_view(stem: Seq<char>, path: Seq<char>, a: DesktopAttrsView) -> Option<
    ItemView,
> {
    if a.no_display == Some("true"@) || a.hidden == Some("true"@) || a.name is None
        || a.command is None {
        None
    } else {
        Some(
            ItemView {
                id: stem,
                name: a.name->0,
                description: a.comment,
                icon: a.icon,
                data: DataView::Desktop { command: clean_exec_spec(a.command->0), path },
            },
        )
    }
}

/// Whether an optional value is the string `true`.
fn is_true(v: &Option<String>) -> (r: bool)
    ensures
        r == (opt_view(*v) == Some("true"@)),
{
    match v {
        Some(s) => str_eq(s.as_str(), "true"),
        None => false,
    }
}

/// The item that a desktop entry's attributes describe, as
/// [`desktop_item_view`] states.
pub fn desktop_item(stem: &str, path: &str, attrs: &DesktopAttrs) -> (r: Option<Item>)
    ensures
        match r {
            Some(item) => desktop_item_view(stem@, path@, attrs@) == Some(item@),
            None => desktop_item_view(stem@, path@, attrs@) is None,
        },
{
    if is_true(&attrs.no_display) || is_true(&attrs.hidden) {
        return None;
    }
    let name = match &attrs.name {
        Some(n) => n,
        None => return None,
    };
    let command = match &attrs.command {
        Some(c) => c,
        None => return None,
    };
    Some(
        Item {
            id: stem.to_owned(),
            name: name.clone(),
            description: copy_opt(&attrs.comment),
            icon: copy_opt(&attrs.icon),
            data: ItemData::Desktop { command: clean_exec(command.as_str()), path: path.to_owned() },
        },
    )
}

/// The value of an attribute of the `[Desktop Entry]` section in `values`.
pub open spec fn desktop_value(values: Map<(Seq<char>, Seq<char>), Seq<char>>, name: Seq<char>) -> Option<
    Seq<char>,
> {
    if values.contains_key(("Desktop Entry"@, name)) {
        Some(values[("Desktop Entry"@, name)])
    } else {
        None
    }
}

/// The attributes that the launcher reads from parsed entry values.
pub open spec fn desktop_attrs_of(values: Map<(Seq<char>, Seq<char>), Seq<char>>) -> DesktopAttrsView {
    DesktopAttrsView {
        no_display: desktop_value(values, "NoDisplay"@),
        hidden: desktop_value(values, "Hidden"@),
        name: desktop_value(values, "Name"@),
        command: desktop_value(values, "Exec"@),
        comment: desktop_value(values, "Comment"@),
        icon: desktop_value(values, "Icon"@),
    }
}

/// The item that the contents of a `.desktop` file give: none where the
/// file does not parse, otherwise as [`desktop_item_view`] states.
pub open spec fn desktop_file_view(stem: Seq<char>, path: Seq<char>, contents: Seq<u8>) -> Option<
    ItemView,
> {
    match parsed_entry(contents) {
        None => None,
        Some(values) => desktop_item_view(stem, path, desktop_attrs_of(values)),
    }
}

/// The value of attribute `name` in the `[Desktop Entry]` section.
fn desktop_attr(entry: &Entry, name: &str) -> (r: Option<String>)
    ensures
        opt_view(r) == desktop_value(entry_values(*entry), name@),
{
    let r = entry_attr(entry, "Desktop Entry", name);
    r
}

/// Parse the contents of a `.desktop` file into an item.
pub fn parse_desktop_file(stem: &str, path: &str, contents: &[u8]) -> (r: Option<Item>)
    ensures
        match r {
            Some(item) => desktop_file_view(stem@, path@, contents@) == Some(item@),
            None => desktop_file_view(stem@, path@, contents@) is None,
        },
{
    let entry = match parse_entry(contents) {
        Some(e) => e,
        None => return None,
    };
    let attrs = DesktopAttrs {
        no_display: desktop_attr(&entry, "NoDisplay"),
        hidden: desktop_attr(&entry, "Hidden"),
        name: desktop_attr(&entry, "Name"),
        command: desktop_attr(&entry, "Exec"),
        comment: desktop_attr(&entry, "Comment"),
        icon: desktop_attr(&entry, "Icon"),
    };
    assert(attrs@ == desktop_attrs_of(entry_values(entry)));
    desktop_item(stem, path, &attrs)
}

/// A `.desktop` file found while scanning: its file name (which decides
/// duplicates), its stem (the item id), its path and its contents, `None`
/// where it could not be read.
pub struct DesktopFile {
    pub file_name: String,
    pub stem: String,
    pub path: String,
    pub contents: Option<Vec<u8>>,
}

/// The item a scanned file gives.
pub open spec fn desktop_file_item(f: DesktopFile) -> Option<ItemView> {
    match f.contents {
        None => None,
        Some(c) => desktop_file_view(f.stem@, f.path@, c@),
    }
}

/// No earlier file has the same file name as file `i`.
pub open spec fn first_of_name(files: Seq<DesktopFile>, i: int) -> bool {
    forall|j: int| 0 <= j < i ==> (#[trigger] files[j]).file_name@ != files[i].file_name@
}

/// The items of the scanned files in scan order: for each file name the
/// first file that has it, when that file gives an item.
pub open spec fn loaded_desktop_items(files: Seq<DesktopFile>) -> Seq<ItemView>
    decreases files.len(),
{
    if files.len() == 0 {
        Seq::empty()
    } else {
        let prev = loaded_desktop_items(files.drop_last());
        let i = files.len() - 1;
        if first_of_name(files, i) && desktop_file_item(files[i]) is Some {
            prev.push(desktop_file_item(files[i])->0)
        } else {
            prev
        }
    }
}

/// The items of the scanned files as the drun mode lists them: the loaded
/// items sorted stably by lowercase name.
pub open spec fn drun_listing(files: Seq<DesktopFile>, order: Seq<int>, result: Seq<ItemView>) -> bool {
    let loaded = loaded_desktop_items(files);
    &&& is_key_order(loaded.map_values(|it: ItemView| lowercase(it.name)), order)
    &&& result == order.map_values(|i: int| loaded[i])
}

/// Collect the items of scanned `.desktop` files: skip files whose name was
/// seen before (the first one wins), skip those that give no item, and sort
/// the rest by lowercase name, keeping scan order among equal names.
pub fn collect_desktop_items(files: &[DesktopFile]) -> (r: Vec<Item>)
    ensures
        exists|order: Seq<int>| drun_listing(files@, order, views(r@)),
{
    let mut seen: Vec<String> = Vec::new();
    let mut items: Vec<Item> = Vec::new();
    let mut i: usize = 0;
    while i < files.len()
        invariant
            i <= files@.len(),
            views(items@) == loaded_desktop_items(files@.take(i as int)),
            seen@.len() == i,
            forall|k: int| 0 <= k < i ==> (#[trigger] seen@[k])@ == files@[k].file_name@,
        decreases files@.len() - i,
    {
        let f = &files[i];
        let ghost pre = files@.take(i as int);
        let ghost cur = files@.take(i + 1);
        assert(cur.drop_last() =~= pre);
        assert(cur[i as int] == files@[i as int]);
        let dup = contains_str(&seen, f.file_name.as_str());
        proof {
            if dup {
                let k = choose|k: int| 0 <= k < seen@.len() && (#[trigger] seen@[k])@ == f.file_name@;
                assert(cur[k] == files@[k]);
                assert(!first_of_name(cur, i as int));
            } else {
                assert forall|j: int| 0 <= j < i implies (#[trigger] cur[j]).file_name@
                    != cur[i as int].file_name@ by {
                    assert(cur[j] == files@[j]);
                    assert(seen@[j]@ != f.file_name@);
                }
                assert(first_of_name(cur, i as int));
            }
        }
        if !dup {
            match &f.contents {
                Some(c) => {
                    let parsed = parse_desktop_file(f.stem.as_str(), f.path.as_str(), c.as_slice());
                    match parsed {
                        Some(item) => {
                            items.push(item);
                            assert(views(items@) =~= loaded_desktop_items(pre).push(item@));
                        },
                        None => {},
                    }
                },
                None => {},
            }
        }
        seen.push(f.file_name.clone());
        i = i + 1;
    }
    assert(files@.take(files@.len() as int) =~= files@);
    let mut keys: Vec<Vec<char>> = Vec::new();
    let mut k: usize = 0;
    while k < items.len()
        invariant
            k <= items@.len(),
            keys@.len() == k,
            forall|t: int| 0 <= t < k ==> (#[trigger] keys@[t])@ == lowercase(items@[t].name@),
        decreases items@.len() - k,
    {
        let lower = to_lowercase(items[k].name.as_str());
        keys.push(chars_of(lower.as_str()));
        k = k + 1;
    }
    let order = order_by_key(&keys);
    let ghost loaded = loaded_desktop_items(files@);
    let ghost ov = order@.map_values(|i: usize| i as int);
    proof {
        assert(loaded == views(items@));
        assert(keys@.map_values(|k: Vec<char>| k@) =~= loaded.map_values(
            |it: ItemView| lowercase(it.name),
        ));
        assert forall|t: int| 0 <= t < order@.len() implies (#[trigger] order@[t]) < items@.len() by {
            assert(ov.contains(ov[t]));
        }
    }
    let r = pick(items.as_slice(), order.as_slice());
    assert(views(r@) =~= ov.map_values(|i: int| loaded[i]));
    assert(drun_listing(files@, ov, views(r@)));
    r
}

/// Why activating an item failed.
pub enum ActivationError {
    /// A desktop item without a command to run.
    MissingCommand,
    /// A window item without a window id.
    InvalidWindowId,
}

impl ActivationError {
    /// The error message.
    pub fn message(&self) -> (r: String)
        ensures
            r@ == match self {
                ActivationError::MissingCommand => "No exec command for item"@,
                ActivationError::InvalidWindowId => "Invalid window ID"@,
            },
    {
        match self {
            ActivationError::MissingCommand => "No exec command for item".to_owned(),
            ActivationError::InvalidWindowId => "Invalid window ID".to_owned(),
        }
    }
}

/// Activating a desktop item launches its command.
pub fn drun_action(item: &Item) -> (r: Result<crate::item::Action, ActivationError>)
    ensures
        match item.data@ {
            DataView::Desktop { command, .. } => r matches Ok(a) && a@ == crate::item::ActionView::Launch(command),
            _ => r matches Err(ActivationError::MissingCommand),
        },
{
    match &item.data {
        ItemData::Desktop { command, .. } => Ok(crate::item::Action::Launch(command.clone())),
        _ => Err(ActivationError::MissingCommand),
    }
}

} // verus!
