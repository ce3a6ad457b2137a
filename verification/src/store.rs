//! The items of the crates that a program is compiled against, by name.

use vstd::prelude::*;
use crate::text::text_eq;

verus! {

/// What a name in a crate stands for.
#[derive(Clone, Copy, Debug, PartialEq, Eq, Structural)]
pub enum DefLike {
    /// A trait, by its identity.
    Trait(u32),
    /// A module, a type, a function or another definition that can hold
    /// further names, by its identity.
    Def(u32),
    /// An impl, by its identity.
    Impl(u32),
    /// A field: it holds no further names.
    Field,
}

/// A named item with the items below it.
#[derive(Debug, PartialEq, Eq)]
pub struct StoreItem {
    pub name: String,
    pub def: DefLike,
    pub children: Vec<StoreItem>,
}

/// A crate with its top-level items.
#[derive(Debug, PartialEq, Eq)]
pub struct CrateData {
    pub name: String,
    pub items: Vec<StoreItem>,
}

/// The crates that are loaded.
#[derive(Debug, PartialEq, Eq)]
pub struct CrateStore {
    pub crates: Vec<CrateData>,
}

/// The first item from `from` on that has the name `name`.
pub open spec fn first_named(items: Seq<StoreItem>, name: Seq<char>, from: int) -> Option<int>
    decreases items.len() - from,
{
    if from < 0 || from >= items.len() {
        None
    } else if items[from].name@ == name {
        Some(from)
    } else {
        first_named(items, name, from + 1)
    }
}

/// The first crate from `from` on that has the name `name`.
pub open spec fn first_crate(crates: Seq<CrateData>, name: Seq<char>, from: int) -> Option<int>
    decreases crates.len() - from,
{
    if from < 0 || from >= crates.len() {
        None
    } else if crates[from].name@ == name {
        Some(from)
    } else {
        first_crate(crates, name, from + 1)
    }
}

/// What the segments `path[k..]` lead to from `items`: each segment names
/// an item among those below the item before it; the last one is the
/// result. A segment that names nothing, or a field on the way, leads
/// nowhere.
pub open spec fn resolve_in(items: Seq<StoreItem>, path: Seq<Seq<char>>, k: int) -> Option<DefLike>
    decreases path.len() - k,
{
    if k < 0 || k >= path.len() {
        None
    } else {
        match first_named(items, path[k], 0) {
            Some(i) => if k + 1 == path.len() {
                Some(items[i].def)
            } else if items[i].def is Field {
                None
            } else {
                resolve_in(items[i].children@, path, k + 1)
            },
            None => None,
        }
    }
}

/// What the path leads to: its first segment names a crate, the others
/// lead on from the crate's items.
pub open spec fn path_to_def_spec(store: CrateStore, path: Seq<Seq<char>>) -> Option<DefLike> {
    if path.len() == 0 {
        None
    } else {
        match first_crate(store.crates@, path[0], 0) {
            Some(c) => resolve_in(store.crates@[c].items@, path, 1),
            None => None,
        }
    }
}

fn find_item<'a>(items: &'a Vec<StoreItem>, name: &str) -> (r: Option<&'a StoreItem>)
    ensures
        match r {
            Some(item) => first_named(items@, name@, 0).is_some() && *item == items@[first_named(
                items@,
                name@,
                0,
            ).unwrap()],
            None => first_named(items@, name@, 0).is_none(),
        },
{
    let n = items.len();
    let mut k: usize = 0;
    while k < n
        invariant
            k <= n == items.len(),
            first_named(items@, name@, k as int) == first_named(items@, name@, 0),
        decreases n - k,
    {
        if text_eq(items[k].name.as_str(), name) {
            return Some(&items[k]);
        }
        k += 1;
    }
    None
}

fn find_crate<'a>(crates: &'a Vec<CrateData>, name: &str) -> (r: Option<&'a CrateData>)
    ensures
        match r {
            Some(krate) => first_crate(crates@, name@, 0).is_some() && *krate == crates@[first_crate(
                crates@,
                name@,
                0,
            ).unwrap()],
            None => first_crate(crates@, name@, 0).is_none(),
        },
{
    let n = crates.len();
    let mut k: usize = 0;
    while k < n
        invariant
            k <= n == crates.len(),
            first_crate(crates@, name@, k as int) == first_crate(crates@, name@, 0),
        decreases n - k,
    {
        if text_eq(crates[k].name.as_str(), name) {
            return Some(&crates[k]);
        }
        k += 1;
    }
    None
}

/// Get the definition associated to a path.
pub fn path_to_def(store: &CrateStore, path: &[&str]) -> (r: Option<DefLike>)
    ensures
        r == path_to_def_spec(*store, path@.map_values(|p: &str| p@)),
{
    let ghost names = path@.map_values(|p: &str| p@);
    let n = path.len();
    if n == 0 {
        return None;
    }
    assert(names[0] == path[0]@);
    let krate = match find_crate(&store.crates, path[0]) {
        Some(krate) => krate,
        None => {
            return None;
        },
    };
    let mut items = &krate.items;
    let mut k: usize = 1;
    while k < n
        invariant
            1 <= k <= n == path.len(),
            names == path@.map_values(|p: &str| p@),
            resolve_in(items@, names, k as int) == path_to_def_spec(*store, names),
        decreases n - k,
    {
        assert(names[k as int] == path[k as int]@);
        let item = match find_item(items, path[k]) {
            Some(item) => item,
            None => {
                return None;
            },
        };
        if k + 1 == n {
            return Some(item.def);
        }
        match item.def {
            DefLike::Field => {
                return None;
            },
            _ => {},
        }
        items = &item.children;
        k += 1;
    }
    None
}

/// Convenience function to get the identity of a trait by path.
pub fn get_trait_def_id(store: &CrateStore, path: &[&str]) -> (r: Option<u32>)
    ensures
        r == match path_to_def_spec(*store, path@.map_values(|p: &str| p@)) {
            Some(DefLike::Trait(id)) => Some(id),
            _ => None,
        },
{
    match path_to_def(store, path) {
        Some(DefLike::Trait(id)) => Some(id),
        _ => None,
    }
}

} // verus!
