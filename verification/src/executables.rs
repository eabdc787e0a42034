//! Executables found on `PATH`: turning the files found into items.

use vstd::prelude::*;
use crate::text::{chars_of, contains_str};
use crate::item::{Item, ItemData, ItemView, DataView, Action, ActionView, views, pick};
use crate::order::{is_key_order, order_by_key};

verus! {

/// An executable file found on `PATH`, in `PATH` order: its file name and path.
pub struct Executable {
    pub name: String,
    pub path: String,
}

/// No earlier executable has the same name as executable `i`.
pub open spec fn first_executable(found: Seq<Executable>, i: int) -> bool {
    forall|j: int| 0 <= j < i ==> (#[trigger] found[j]).name@ != found[i].name@
}

/// A hidden file: its name starts with a dot.
pub open spec fn is_hidden(name: Seq<char>) -> bool {
    name.len() > 0 && name[0] == '.'
}

/// The item for an executable: id and name are the file name, data its path.
pub open spec fn executable_item(e: Executable) -> ItemView {
    ItemView {
        id: e.name@,
        name: e.name@,
        description: None,
        icon: None,
        data: DataView::Executable { path: e.path@ },
    }
}

/// The items of the executables found, in `PATH` order: for each name the
/// first executable that has it, unless the name is hidden.
pub open spec fn loaded_executables(found: Seq<Executable>) -> Seq<ItemView>
    decreases found.len(),
{
    if found.len() == 0 {
        Seq::empty()
    } else {
        let prev = loaded_executables(found.drop_last());
        let i = found.len() - 1;
        if first_executable(found, i) && !is_hidden(found[i].name@) {
            prev.push(executable_item(found[i]))
        } else {
            prev
        }
    }
}

/// The run mode's items: the loaded executables sorted by name.
pub open spec fn run_listing(found: Seq<Executable>, order: Seq<int>, result: Seq<ItemView>) -> bool {
    let loaded = loaded_executables(found);
    &&& is_key_order(loaded.map_values(|it: ItemView| it.name), order)
    &&& result == order.map_values(|i: int| loaded[i])
}

proof fn lemma_loaded_members(found: Seq<Executable>)
    ensures
        forall|i: int|
            0 <= i < found.len() && (forall|j: int| 0 <= j < i ==> found[j].name@ != found[i].name@)
                && !(found[i].name@.len() > 0 && found[i].name@[0] == '.') ==> #[trigger] loaded_executables(
                found,
            ).contains(executable_item(found[i])),
        forall|k: int|
            0 <= k < loaded_executables(found).len() ==> !(#[trigger] loaded_executables(found)[k].name.len()
                > 0 && loaded_executables(found)[k].name[0] == '.'),
    decreases found.len(),
{
    if found.len() > 0 {
        let prev = found.drop_last();
        let last = found.len() - 1;
        lemma_loaded_members(prev);
        let l = loaded_executables(found);
        let lp = loaded_executables(prev);
        assert forall|i: int|
            0 <= i < found.len() && (forall|j: int| 0 <= j < i ==> found[j].name@ != found[i].name@)
                && !(found[i].name@.len() > 0 && found[i].name@[0] == '.') implies #[trigger] l.contains(
            executable_item(found[i]),
        ) by {
            if i < last {
                assert(prev[i] == found[i]);
                assert forall|j: int| 0 <= j < i implies prev[j].name@ != prev[i].name@ by {
                    assert(prev[j] == found[j]);
                }
                assert(lp.contains(executable_item(prev[i])));
                let k = choose|k: int| 0 <= k < lp.len() && lp[k] == executable_item(prev[i]);
                assert(l[k] == lp[k]);
            } else {
                assert(first_executable(found, i));
                assert(l[lp.len() as int] == executable_item(found[i]));
            }
        }
        assert forall|k: int| 0 <= k < l.len() implies !(#[trigger] l[k].name.len() > 0 && l[k].name[0]
            == '.') by {
            if k < lp.len() {
                assert(l[k] == lp[k]);
            }
        }
    }
}

/// Every executable found that is the first of its name and whose name does
/// not start with '.' is listed (as an item with that name and its path), and
/// no listed name starts with '.'.
pub proof fn lemma_run_listing_members(found: Seq<Executable>, order: Seq<int>, result: Seq<ItemView>)
    requires
        run_listing(found, order, result),
    ensures
        forall|i: int|
            0 <= i < found.len() && (forall|j: int| 0 <= j < i ==> found[j].name@ != found[i].name@)
                && !(found[i].name@.len() > 0 && found[i].name@[0] == '.') ==> exists|k: int|
                0 <= k < result.len() && #[trigger] result[k].name == found[i].name@ && result[k].data
                    == (DataView::Executable { path: found[i].path@ }),
        forall|k: int|
            0 <= k < result.len() ==> !(#[trigger] result[k].name.len() > 0 && result[k].name[0] == '.'),
{
    let l = loaded_executables(found);
    lemma_loaded_members(found);
    assert forall|i: int|
        0 <= i < found.len() && (forall|j: int| 0 <= j < i ==> found[j].name@ != found[i].name@)
            && !(found[i].name@.len() > 0 && found[i].name@[0] == '.') implies exists|k: int|
        0 <= k < result.len() && #[trigger] result[k].name == found[i].name@ && result[k].data
            == (DataView::Executable { path: found[i].path@ }) by {
        assert(l.contains(executable_item(found[i])));
        let x = choose|x: int| 0 <= x < l.len() && l[x] == executable_item(found[i]);
        assert(l.map_values(|it: ItemView| it.name).len() == l.len());
        assert(order.contains(x));
        let t = choose|t: int| 0 <= t < order.len() && order[t] == x;
        assert(result[t] == l[x]);
        assert(result[t].name == found[i].name@);
        assert(result[t].data == (DataView::Executable { path: found[i].path@ }));
    }
    assert forall|k: int| 0 <= k < result.len() implies !(#[trigger] result[k].name.len() > 0
        && result[k].name[0] == '.') by {
        assert(order.contains(order[k]));
        assert(l.map_values(|it: ItemView| it.name).len() == l.len());
        assert(result[k] == l[order[k]]);
    }
}

/// Collect the items of the executables found on `PATH`: the first
/// executable of each name wins, hidden names are skipped, and the items are
/// sorted by name.
pub fn collect_executables(found: &[Executable]) -> (r: Vec<Item>)
    ensures
        exists|order: Seq<int>| run_listing(found@, order, views(r@)),
{
    let mut seen: Vec<String> = Vec::new();
    let mut items: Vec<Item> = Vec::new();
    let mut i: usize = 0;
    while i < found.len()
        invariant
            i <= found@.len(),
            views(items@) == loaded_executables(found@.take(i as int)),
            seen@.len() == i,
            forall|k: int| 0 <= k < i ==> (#[trigger] seen@[k])@ == found@[k].name@,
        decreases found@.len() - i,
    {
        let e = &found[i];
        let ghost pre = found@.take(i as int);
        let ghost cur = found@.take(i + 1);
        assert(cur.drop_last() =~= pre);
        assert(cur[i as int] == found@[i as int]);
        let dup = contains_str(&seen, e.name.as_str());
        proof {
            if dup {
                let k = choose|k: int| 0 <= k < seen@.len() && (#[trigger] seen@[k])@ == e.name@;
                assert(cur[k] == found@[k]);
                assert(!first_executable(cur, i as int));
            } else {
                assert forall|j: int| 0 <= j < i implies (#[trigger] cur[j]).name@
                    != cur[i as int].name@ by {
                    assert(cur[j] == found@[j]);
                    assert(seen@[j]@ != e.name@);
                }
                assert(first_executable(cur, i as int));
            }
        }
        if !dup {
            let chars = chars_of(e.name.as_str());
            let hidden = chars.len() > 0 && chars[0] == '.';
            if !hidden {
                let item = Item {
                    id: e.name.clone(),
                    name: e.name.clone(),
                    description: None,
                    icon: None,
                    data: ItemData::Executable { path: e.path.clone() },
                };
                items.push(item);
                assert(views(items@) =~= loaded_executables(pre).push(executable_item(*e)));
            }
        }
        seen.push(e.name.clone());
        i = i + 1;
    }
    assert(found@.take(found@.len() as int) =~= found@);
    let mut keys: Vec<Vec<char>> = Vec::new();
    let mut k: usize = 0;
    while k < items.len()
        invariant
            k <= items@.len(),
            keys@.len() == k,
            forall|t: int| 0 <= t < k ==> (#[trigger] keys@[t])@ == items@[t].name@,
        decreases items@.len() - k,
    {
        keys.push(chars_of(items[k].name.as_str()));
        k = k + 1;
    }
    let order = order_by_key(&keys);
    let ghost loaded = loaded_executables(found@);
    let ghost ov = order@.map_values(|i: usize| i as int);
    proof {
        assert(loaded == views(items@));
        assert(keys@.map_values(|k: Vec<char>| k@) =~= loaded.map_values(|it: ItemView| it.name));
        assert forall|t: int| 0 <= t < order@.len() implies (#[trigger] order@[t]) < items@.len() by {
            assert(ov.contains(ov[t]));
        }
    }
    let r = pick(items.as_slice(), order.as_slice());
    assert(views(r@) =~= ov.map_values(|i: int| loaded[i]));
    assert(run_listing(found@, ov, views(r@)));
    r
}

/// Activating an executable item launches it by name.
pub fn run_action(item: &Item) -> (r: Action)
    ensures
        r@ == ActionView::Launch(item.name@),
{
    Action::Launch(item.name.clone())
}

} // verus!
