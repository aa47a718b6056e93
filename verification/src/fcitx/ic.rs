//! Input contexts of one connection.
//!
//! A client that calls `CreateInputContext` gets an object path that names a
//! context which the broker hosts. The registry hands out those paths and keeps
//! what is known of each context. Contexts are not shared between connections.

use vstd::prelude::*;

use crate::dbus::endian::{endian_u32, u32_bytes_len, u64_bytes, Endian};
use crate::dbus::marshal::{is_object_path, is_path_char};
use crate::text::{decimal, decimal_digits, decimal_injective, push_decimal, push_text, same_text};

verus! {

/// What the object paths of contexts start with.
pub const PORTAL_IC_PATH_PREFIX: &'static str = "/org/freedesktop/portal/inputcontext/";

/// What is known of one context.
#[derive(Debug, Clone, Copy, PartialEq, Eq)]
pub struct IcState {
    pub id: u64,
    pub uuid: [u8; 16],
    /// The flags of the last `SetCapability`.
    pub capability: u64,
    /// Whether the last of `FocusIn` and `FocusOut` was a `FocusIn`.
    pub focused: bool,
    /// The last reported cursor rectangle, in the client's coordinates.
    pub cursor_rect: Option<[i32; 4]>,
}

/// The object path of context `id`.
pub open spec fn ic_path(id: nat) -> Seq<char> {
    PORTAL_IC_PATH_PREFIX@ + decimal(id)
}

/// The uuid of context `id`: the number, and eight zeroes.
pub open spec fn ic_uuid(id: u64) -> Seq<u8> {
    u64_bytes(Endian::Little, id) + Seq::new(8, |i: int| 0u8)
}

/// Whether `state` is that of a context `id` of which nothing is known yet.
pub open spec fn fresh_state(state: IcState, id: u64) -> bool {
    &&& state.id == id
    &&& state.uuid@ == ic_uuid(id)
    &&& state.capability == 0
    &&& !state.focused
    &&& state.cursor_rect is None
}

/// Different contexts have different paths.
pub proof fn ic_path_injective(a: nat, b: nat)
    requires
        ic_path(a) == ic_path(b),
    ensures
        a == b,
{
    let n = PORTAL_IC_PATH_PREFIX@.len() as int;
    assert(ic_path(a).skip(n) =~= decimal(a));
    assert(ic_path(b).skip(n) =~= decimal(b));
    decimal_injective(a, b);
}

/// The path of a context is a valid object path.
pub proof fn ic_path_is_valid(id: nat)
    ensures
        is_object_path(ic_path(id)),
{
    reveal_strlit("/org/freedesktop/portal/inputcontext/");
    decimal_digits(id);
    let prefix = PORTAL_IC_PATH_PREFIX@;
    let p = ic_path(id);
    assert forall|i: int| 0 <= i < p.len() implies #[trigger] p[i] == '/' || is_path_char(p[i]) by {
        if i >= prefix.len() {
            assert(p[i] == decimal(id)[i - prefix.len()]);
        }
    }
    assert forall|i: int, j: int| 0 <= i < p.len() && j == i + 1 && j < p.len() implies !(
    #[trigger] p[i] == '/' && #[trigger] p[j] == '/') by {
        if j >= prefix.len() {
            assert(p[j] == decimal(id)[j - prefix.len()]);
        }
    }
    assert(p.last() == decimal(id).last());
}

/// What an [`IcRegistry`] stands for.
#[verifier::ext_equal]
pub struct RegistryView {
    /// The contexts by their paths.
    pub ics: Map<Seq<char>, IcState>,
    /// The number of the next context.
    pub next_id: u64,
}

/// A registry without contexts. Numbers start at 1; 0 stands for no context.
pub open spec fn empty_registry() -> RegistryView {
    RegistryView { ics: Map::empty(), next_id: 1 }
}

/// Input contexts of one connection.
#[derive(Debug)]
pub struct IcRegistry {
    ics: Vec<(String, IcState)>,
    next_id: u64,
}

/// Whether the entry at `i` has the path `path`.
spec fn is_at(entries: Seq<(String, IcState)>, path: Seq<char>, i: int) -> bool {
    0 <= i < entries.len() && entries[i].0@ == path
}

/// The entries by their paths.
spec fn entry_map(entries: Seq<(String, IcState)>) -> Map<Seq<char>, IcState> {
    Map::new(
        |path: Seq<char>| exists|i: int| is_at(entries, path, i),
        |path: Seq<char>| entries[choose|i: int| is_at(entries, path, i)].1,
    )
}

/// Whether no two entries have the same path.
spec fn distinct(entries: Seq<(String, IcState)>) -> bool {
    forall|i: int, j: int|
        0 <= i < j < entries.len() ==> (#[trigger] entries[i]).0@ != (#[trigger] entries[j]).0@
}

impl View for IcRegistry {
    type V = RegistryView;

    closed spec fn view(&self) -> RegistryView {
        RegistryView { ics: entry_map(self.ics@), next_id: self.next_id }
    }
}

/// The entry of a path.
proof fn entry_found(entries: Seq<(String, IcState)>, i: int)
    requires
        distinct(entries),
        0 <= i < entries.len(),
    ensures
        entry_map(entries).contains_key(entries[i].0@),
        entry_map(entries)[entries[i].0@] == entries[i].1,
{
    let path = entries[i].0@;
    assert(is_at(entries, path, i));
    let k = choose|k: int| is_at(entries, path, k);
    assert(is_at(entries, path, k));
    assert(k == i);
}

/// There are as many entries as paths.
proof fn entry_count(entries: Seq<(String, IcState)>)
    requires
        distinct(entries),
    ensures
        entry_map(entries).dom().finite(),
        entry_map(entries).dom().len() == entries.len(),
    decreases entries.len(),
{
    let dom = entry_map(entries).dom();
    if entries.len() == 0 {
        assert(dom =~= Set::empty());
    } else {
        let front = entries.drop_last();
        assert forall|i: int, j: int| 0 <= i < j < front.len() implies (#[trigger] front[i]).0@ != (
        #[trigger] front[j]).0@ by {
            assert(front[i] == entries[i] && front[j] == entries[j]);
        }
        entry_count(front);
        let last = entries.last().0@;
        let front_dom = entry_map(front).dom();
        assert(!front_dom.contains(last)) by {
            if front_dom.contains(last) {
                let i = choose|i: int| is_at(front, last, i);
                assert(is_at(front, last, i));
                assert(entries[i].0@ == entries[entries.len() - 1].0@);
            }
        }
        assert(dom =~= front_dom.insert(last)) by {
            assert forall|p: Seq<char>| dom.contains(p) <==> front_dom.insert(last).contains(p) by {
                if dom.contains(p) {
                    let i = choose|i: int| is_at(entries, p, i);
                    assert(is_at(entries, p, i));
                    if i < front.len() {
                        assert(is_at(front, p, i));
                    }
                }
                if front_dom.contains(p) {
                    let i = choose|i: int| is_at(front, p, i);
                    assert(is_at(front, p, i));
                    assert(is_at(entries, p, i));
                }
                assert(is_at(entries, last, entries.len() - 1));
            }
        }
    }
}

impl IcRegistry {
    /// No two contexts have the same path, and each has the path of a number
    /// that has been handed out.
    pub closed spec fn wf(&self) -> bool {
        &&& distinct(self.ics@)
        &&& forall|i: int|
            0 <= i < self.ics@.len() ==> exists|id: nat|
                id < self.next_id && (#[trigger] self.ics@[i]).0@ == #[trigger] ic_path(id)
    }

    /// A registry without contexts.
    pub fn new() -> (r: IcRegistry)
        ensures
            r@ == empty_registry(),
            r.wf(),
    {
        let r = IcRegistry { ics: Vec::new(), next_id: 1 };
        assert(r@.ics =~= Map::empty());
        r
    }

    /// Where the entry of `path` stands.
    fn position(&self, path: &str) -> (at: Option<usize>)
        requires
            self.wf(),
        ensures
            match at {
                Some(i) => i < self.ics@.len() && self.ics@[i as int].0@ == path@
                    && self@.ics.contains_key(path@) && self@.ics[path@] == self.ics@[i as int].1,
                None => !self@.ics.contains_key(path@),
            },
    {
        let mut i: usize = 0;
        while i < self.ics.len()
            invariant
                self.wf(),
                i <= self.ics@.len(),
                forall|k: int| 0 <= k < i ==> (#[trigger] self.ics@[k]).0@ != path@,
            decreases self.ics@.len() - i,
        {
            if same_text(&self.ics[i].0, path) {
                proof {
                    entry_found(self.ics@, i as int);
                }
                return Some(i);
            }
            i = i + 1;
        }
        assert(!self@.ics.contains_key(path@)) by {
            if self@.ics.contains_key(path@) {
                let k = choose|k: int| is_at(self.ics@, path@, k);
                assert(is_at(self.ics@, path@, k));
            }
        }
        None
    }

    /// The context of `path`.
    pub fn get(&self, path: &str) -> (state: Option<&IcState>)
        requires
            self.wf(),
        ensures
            match state {
                Some(s) => self@.ics.contains_key(path@) && *s == self@.ics[path@],
                None => !self@.ics.contains_key(path@),
            },
    {
        match self.position(path) {
            Some(i) => Some(&self.ics[i].1),
            None => None,
        }
    }

    /// How many contexts there are.
    pub fn len(&self) -> (n: usize)
        requires
            self.wf(),
        ensures
            self@.ics.dom().finite(),
            n == self@.ics.dom().len(),
    {
        proof {
            entry_count(self.ics@);
        }
        self.ics.len()
    }

    /// Whether there are none.
    pub fn is_empty(&self) -> (empty: bool)
        requires
            self.wf(),
        ensures
            empty == (self@.ics =~= Map::empty()),
    {
        proof {
            entry_count(self.ics@);
            if self.ics@.len() > 0 {
                entry_found(self.ics@, 0);
            }
        }
        self.ics.len() == 0
    }
}

impl Default for IcRegistry {
    fn default() -> (r: IcRegistry)
        ensures
            r@ == empty_registry(),
            r.wf(),
    {
        IcRegistry::new()
    }
}

/// Writes the uuid of context `id`.
fn make_uuid(id: u64) -> (uuid: [u8; 16])
    ensures
        uuid@ == ic_uuid(id),
{
    broadcast use u32_bytes_len;

    let low: [u8; 4] = endian_u32(Endian::Little, (id % 0x1_0000_0000) as u32);
    let high: [u8; 4] = endian_u32(Endian::Little, (id / 0x1_0000_0000) as u32);
    let uuid: [u8; 16] = [
        low[0],
        low[1],
        low[2],
        low[3],
        high[0],
        high[1],
        high[2],
        high[3],
        0,
        0,
        0,
        0,
        0,
        0,
        0,
        0,
    ];
    assert(uuid@ =~= ic_uuid(id));
    uuid
}

/// A new entry behind the others.
proof fn entry_pushed(entries: Seq<(String, IcState)>, entry: (String, IcState))
    requires
        distinct(entries),
        !entry_map(entries).contains_key(entry.0@),
    ensures
        distinct(entries.push(entry)),
        entry_map(entries.push(entry)) == entry_map(entries).insert(entry.0@, entry.1),
{
    let all = entries.push(entry);
    assert forall|i: int, j: int| 0 <= i < j < all.len() implies (#[trigger] all[i]).0@ != (
    #[trigger] all[j]).0@ by {
        if j == entries.len() {
            assert(all[i] == entries[i]);
            entry_found(entries, i);
        } else {
            assert(all[i] == entries[i] && all[j] == entries[j]);
        }
    }
    let map = entry_map(entries).insert(entry.0@, entry.1);
    assert forall|i: int| 0 <= i < all.len() implies map.contains_key((#[trigger] all[i]).0@)
        && map[all[i].0@] == all[i].1 by {
        if i < entries.len() {
            assert(all[i] == entries[i]);
            entry_found(entries, i);
        }
    }
    assert forall|path: Seq<char>| #[trigger] map.contains_key(path) implies exists|i: int|
        is_at(all, path, i) by {
        if path == entry.0@ {
            assert(is_at(all, path, entries.len() as int));
        } else {
            let i = choose|i: int| is_at(entries, path, i);
            assert(is_at(entries, path, i));
            assert(is_at(all, path, i));
        }
    }
    same_entries(all, map);
}

/// A map with the entries' paths and states is the map of the entries.
proof fn same_entries(entries: Seq<(String, IcState)>, map: Map<Seq<char>, IcState>)
    requires
        distinct(entries),
        forall|i: int|
            0 <= i < entries.len() ==> map.contains_key((#[trigger] entries[i]).0@)
                && map[entries[i].0@] == entries[i].1,
        forall|path: Seq<char>| #[trigger]
            map.contains_key(path) ==> exists|i: int| is_at(entries, path, i),
    ensures
        entry_map(entries) == map,
{
    let mine = entry_map(entries);
    assert forall|path: Seq<char>| #![auto]
        mine.contains_key(path) <==> map.contains_key(path) by {
        if mine.contains_key(path) {
            let i = choose|i: int| is_at(entries, path, i);
            assert(is_at(entries, path, i));
        }
    }
    assert forall|path: Seq<char>| #![auto] mine.contains_key(path) implies mine[path]
        == map[path] by {
        let i = choose|i: int| is_at(entries, path, i);
        assert(is_at(entries, path, i));
    }
    assert(mine =~= map);
}

/// An entry with another state.
proof fn entry_updated(entries: Seq<(String, IcState)>, i: int, entry: (String, IcState))
    requires
        distinct(entries),
        0 <= i < entries.len(),
        entry.0@ == entries[i].0@,
    ensures
        distinct(entries.update(i, entry)),
        entry_map(entries.update(i, entry)) == entry_map(entries).insert(entry.0@, entry.1),
{
    let all = entries.update(i, entry);
    assert forall|j: int| 0 <= j < all.len() implies (#[trigger] all[j]).0@ == entries[j].0@ by {}
    assert forall|j: int, k: int| 0 <= j < k < all.len() implies (#[trigger] all[j]).0@ != (
    #[trigger] all[k]).0@ by {
        assert(all[j].0@ == entries[j].0@ && all[k].0@ == entries[k].0@);
    }
    let map = entry_map(entries).insert(entry.0@, entry.1);
    assert forall|j: int| 0 <= j < all.len() implies map.contains_key((#[trigger] all[j]).0@)
        && map[all[j].0@] == all[j].1 by {
        if j != i {
            assert(all[j] == entries[j]);
            entry_found(entries, j);
        }
    }
    assert forall|path: Seq<char>| #[trigger] map.contains_key(path) implies exists|j: int|
        is_at(all, path, j) by {
        if path == entry.0@ {
            assert(is_at(all, path, i));
        } else {
            let j = choose|j: int| is_at(entries, path, j);
            assert(is_at(entries, path, j));
            assert(is_at(all, path, j));
        }
    }
    same_entries(all, map);
}

/// The entries without one.
proof fn entry_removed(entries: Seq<(String, IcState)>, i: int)
    requires
        distinct(entries),
        0 <= i < entries.len(),
    ensures
        distinct(entries.remove(i)),
        entry_map(entries.remove(i)) == entry_map(entries).remove(entries[i].0@),
{
    let all = entries.remove(i);
    let gone = entries[i].0@;
    assert forall|j: int| 0 <= j < all.len() implies #[trigger] all[j] == entries[if j < i {
        j
    } else {
        j + 1
    }] by {}
    assert forall|j: int, k: int| 0 <= j < k < all.len() implies (#[trigger] all[j]).0@ != (
    #[trigger] all[k]).0@ by {
        let jj = if j < i {
            j
        } else {
            j + 1
        };
        let kk = if k < i {
            k
        } else {
            k + 1
        };
        assert(all[j] == entries[jj] && all[k] == entries[kk]);
    }
    let map = entry_map(entries).remove(gone);
    assert forall|j: int| 0 <= j < all.len() implies map.contains_key((#[trigger] all[j]).0@)
        && map[all[j].0@] == all[j].1 by {
        let jj = if j < i {
            j
        } else {
            j + 1
        };
        assert(all[j] == entries[jj]);
        entry_found(entries, jj);
        assert(entries[jj].0@ != entries[i].0@);
    }
    assert forall|path: Seq<char>| #[trigger] map.contains_key(path) implies exists|j: int|
        is_at(all, path, j) by {
        let j = choose|j: int| is_at(entries, path, j);
        assert(is_at(entries, path, j));
        if j < i {
            assert(is_at(all, path, j));
        } else {
            assert(is_at(all, path, j - 1));
        }
    }
    same_entries(all, map);
}

impl IcRegistry {
    /// Makes a new context and gives its path and its state. No path is handed
    /// out twice.
    pub fn allocate(&mut self) -> (made: (String, IcState))
        requires
            old(self).wf(),
            old(self)@.next_id < u64::MAX,
        ensures
            final(self).wf(),
            made.0@ == ic_path(old(self)@.next_id as nat),
            fresh_state(made.1, old(self)@.next_id),
            !old(self)@.ics.contains_key(made.0@),
            final(self)@ == (RegistryView {
                ics: old(self)@.ics.insert(made.0@, made.1),
                next_id: (old(self)@.next_id + 1) as u64,
            }),
    {
        let id: u64 = self.next_id;
        self.next_id = id + 1;
        let mut path = String::new();
        push_text(&mut path, PORTAL_IC_PATH_PREFIX);
        push_decimal(&mut path, id);
        assert(path@ =~= ic_path(id as nat));
        let state = IcState {
            id,
            uuid: make_uuid(id),
            capability: 0,
            focused: false,
            cursor_rect: None,
        };
        let ghost entries = self.ics@;
        assert(!entry_map(entries).contains_key(path@)) by {
            if entry_map(entries).contains_key(path@) {
                let i = choose|i: int| is_at(entries, path@, i);
                assert(is_at(entries, path@, i));
                let known = choose|known: nat|
                    known < old(self).next_id && entries[i].0@ == #[trigger] ic_path(known);
                ic_path_injective(known, id as nat);
            }
        }
        let key = path.clone();
        proof {
            entry_pushed(entries, (key, state));
        }
        self.ics.push((key, state));
        proof {
            assert forall|i: int| 0 <= i < self.ics@.len() implies exists|known: nat|
                known < self.next_id && (#[trigger] self.ics@[i]).0@ == #[trigger] ic_path(known) by {
                if i < entries.len() {
                    assert(self.ics@[i] == entries[i]);
                    let known = choose|known: nat|
                        known < old(self).next_id && entries[i].0@ == #[trigger] ic_path(known);
                    assert(known < self.next_id && self.ics@[i].0@ == ic_path(known));
                } else {
                    assert(self.ics@[i].0@ == ic_path(id as nat));
                }
            }
        }
        (path, state)
    }

    /// The context of `path`, to be changed.
    pub fn get_mut(&mut self, path: &str) -> (state: Option<&mut IcState>)
        requires
            old(self).wf(),
        ensures
            final(self).wf(),
            match state {
                Some(s) => old(self)@.ics.contains_key(path@) && *s == old(self)@.ics[path@]
                    && final(self)@ == (RegistryView {
                    ics: old(self)@.ics.insert(path@, *final(s)),
                    ..old(self)@
                }),
                None => !old(self)@.ics.contains_key(path@) && final(self)@ == old(self)@,
            },
    {
        match self.position(path) {
            Some(i) => {
                let ghost entries = self.ics@;
                proof {
                    assert forall|s: IcState|
                        #![trigger entries.update(i as int, (entries[i as int].0, s))]
                        ({
                            let all = entries.update(i as int, (entries[i as int].0, s));
                            &&& distinct(all)
                            &&& entry_map(all) == entry_map(entries).insert(path@, s)
                            &&& forall|k: int|
                                0 <= k < all.len() ==> (#[trigger] all[k]).0@ == entries[k].0@
                        }) by {
                        entry_updated(entries, i as int, (entries[i as int].0, s));
                    }
                }
                Some(&mut self.ics[i].1)
            },
            None => None,
        }
    }

    /// Drops a context and gives what was known of it.
    pub fn destroy(&mut self, path: &str) -> (state: Option<IcState>)
        requires
            old(self).wf(),
        ensures
            final(self).wf(),
            final(self)@ == (RegistryView { ics: old(self)@.ics.remove(path@), ..old(self)@ }),
            match state {
                Some(s) => old(self)@.ics.contains_key(path@) && s == old(self)@.ics[path@],
                None => !old(self)@.ics.contains_key(path@),
            },
    {
        match self.position(path) {
            Some(i) => {
                let ghost entries = self.ics@;
                proof {
                    entry_removed(entries, i as int);
                }
                let entry = self.ics.remove(i);
                proof {
                    assert forall|j: int| 0 <= j < self.ics@.len() implies exists|id: nat|
                        id < self.next_id && (#[trigger] self.ics@[j]).0@ == #[trigger] ic_path(
                            id,
                        ) by {
                        let k = if j < i {
                            j
                        } else {
                            j + 1
                        };
                        assert(self.ics@[j] == entries[k]);
                    }
                }
                Some(entry.1)
            },
            None => {
                assert(self@.ics.remove(path@) =~= self@.ics);
                None
            },
        }
    }

    /// Each context with its path, in no stated order.
    pub fn iter(&self) -> (all: Vec<(&str, &IcState)>)
        requires
            self.wf(),
        ensures
            all@.len() == self@.ics.dom().len(),
            forall|i: int|
                0 <= i < all@.len() ==> self@.ics.contains_key((#[trigger] all@[i]).0@)
                    && *all@[i].1 == self@.ics[all@[i].0@],
            forall|i: int, j: int|
                0 <= i < j < all@.len() ==> (#[trigger] all@[i]).0@ != (#[trigger] all@[j]).0@,
    {
        proof {
            entry_count(self.ics@);
        }
        let mut all: Vec<(&str, &IcState)> = Vec::new();
        let mut i: usize = 0;
        while i < self.ics.len()
            invariant
                self.wf(),
                i <= self.ics@.len(),
                all@.len() == i,
                forall|k: int|
                    0 <= k < i ==> (#[trigger] all@[k]).0@ == self.ics@[k].0@ && *all@[k].1
                        == self.ics@[k].1,
            decreases self.ics@.len() - i,
        {
            all.push((self.ics[i].0.as_str(), &self.ics[i].1));
            i = i + 1;
        }
        proof {
            assert forall|k: int| 0 <= k < all@.len() implies self@.ics.contains_key(
                (#[trigger] all@[k]).0@,
            ) && *all@[k].1 == self@.ics[all@[k].0@] by {
                entry_found(self.ics@, k);
            }
            assert forall|k: int, j: int| 0 <= k < j < all@.len() implies (#[trigger] all@[k]).0@
                != (#[trigger] all@[j]).0@ by {
                assert(self.ics@[k].0@ != self.ics@[j].0@);
            }
        }
        all
    }
}

/// A path is not handed out again, whatever has become of its context: a
/// registry whose counter has moved on gives another one.
pub proof fn paths_are_not_reused(earlier: RegistryView, later: RegistryView)
    requires
        earlier.next_id < later.next_id,
    ensures
        ic_path(earlier.next_id as nat) != ic_path(later.next_id as nat),
{
    if ic_path(earlier.next_id as nat) == ic_path(later.next_id as nat) {
        ic_path_injective(earlier.next_id as nat, later.next_id as nat);
    }
}

} // verus!
