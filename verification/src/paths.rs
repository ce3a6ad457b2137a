//! The absolute paths of the items that the detectors know by name, each
//! with its segments joined by `::`.

use vstd::prelude::*;

verus! {

pub const BINARY_HEAP: &'static str = "collections::binary_heap::BinaryHeap";

pub const BTREEMAP: &'static str = "collections::btree::map::BTreeMap";

pub const BTREESET: &'static str = "collections::btree::set::BTreeSet";

pub const COW: &'static str = "collections::borrow::Cow";

pub const HASHMAP: &'static str = "std::collections::hash::map::HashMap";

pub const HASHSET: &'static str = "std::collections::hash::set::HashSet";

pub const ITERATOR: &'static str = "core::iter::iterator::Iterator";

pub const LINKED_LIST: &'static str = "collections::linked_list::LinkedList";

pub const OPTION: &'static str = "core::option::Option";

pub const RESULT: &'static str = "core::result::Result";

pub const VEC: &'static str = "collections::vec::Vec";

pub const VEC_DEQUE: &'static str = "collections::vec_deque::VecDeque";

} // verus!
