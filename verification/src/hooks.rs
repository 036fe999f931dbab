//! Named hooks: callbacks registered under a name, each for one type of
//! value, applied in order of priority, with a guard against a hook that
//! applies itself again while it runs.
use vstd::prelude::*;

use crate::table::{find_key, keys_unique, table_insert, table_map};
use crate::text::chars_of;

verus! {

/// The priority a hook gets when none is given.
pub const DEFAULT_PRIORITY: isize = 0;

/// A registered hook as the registry sees it: its id, its priority,
/// whether it is dropped after it first succeeds, and the type of value it
/// applies to (by the key that the caller gives each type).
#[derive(Debug, Clone, Copy, PartialEq, Eq, Structural)]
pub struct HookItem {
    pub id: u128,
    pub priority: isize,
    pub once: bool,
    pub type_key: u64,
}

impl HookItem {
    pub fn new(id: u128, type_key: u64, priority: isize, once: bool) -> (r: HookItem)
        ensures
            r == (HookItem { id, priority, once, type_key }),
    {
        HookItem { id, priority, once, type_key }
    }

    pub fn id(&self) -> (r: u128)
        ensures
            r == self.id,
    {
        self.id
    }

    pub fn priority(&self) -> (r: isize)
        ensures
            r == self.priority,
    {
        self.priority
    }

    pub fn once(&self) -> (r: bool)
        ensures
            r == self.once,
    {
        self.once
    }

    pub fn type_id(&self) -> (r: u64)
        ensures
            r == self.type_key,
    {
        self.type_key
    }
}

/// No two hooks share an id.
pub open spec fn ids_distinct(s: Seq<HookItem>) -> bool {
    forall|i: int, j: int| 0 <= i < s.len() && 0 <= j < s.len() && i != j ==> s[i].id != s[j].id
}

/// Which hooks a list is narrowed to.
#[derive(Debug, Clone, Copy)]
pub enum HookFilter {
    OfType(u64),
    NotId(u128),
    Picked(Option<isize>, Option<u64>),
    NotPicked(Option<isize>, Option<u64>),
}

/// The hook passes the filter.
pub open spec fn keeps(f: HookFilter, h: HookItem) -> bool {
    match f {
        HookFilter::OfType(key) => h.type_key == key,
        HookFilter::NotId(id) => h.id != id,
        HookFilter::Picked(p, t) => picked(h, p, t),
        HookFilter::NotPicked(p, t) => !picked(h, p, t),
    }
}

/// The hooks of a list that pass the filter, in order.
pub open spec fn keep_if(s: Seq<HookItem>, pred: HookFilter) -> Seq<HookItem>
    decreases s.len(),
{
    if s.len() == 0 {
        s
    } else if keeps(pred, s.last()) {
        keep_if(s.drop_last(), pred).push(s.last())
    } else {
        keep_if(s.drop_last(), pred)
    }
}

/// The hooks for one type of value, in order.
pub open spec fn of_type(s: Seq<HookItem>, key: u64) -> Seq<HookItem> {
    keep_if(s, HookFilter::OfType(key))
}

/// The hooks of a list without the one of an id, in order.
pub open spec fn without_id(s: Seq<HookItem>, id: u128) -> Seq<HookItem> {
    keep_if(s, HookFilter::NotId(id))
}

/// Higher priorities come first.
pub open spec fn by_priority(s: Seq<HookItem>) -> bool {
    forall|i: int, j: int| 0 <= i < j < s.len() ==> s[i].priority >= s[j].priority
}

/// The hooks of a list after `item` is registered: it replaces the hook
/// with its id, or is added at the end.
pub open spec fn with_hook(s: Seq<HookItem>, item: HookItem) -> Seq<HookItem> {
    if exists|i: int| 0 <= i < s.len() && s[i].id == item.id {
        let i = choose|i: int| 0 <= i < s.len() && s[i].id == item.id;
        s.update(i, item)
    } else {
        s.push(item)
    }
}

/// The hooks that a removal picks: those of the given priority and of the
/// given type, each where it is given.
pub open spec fn picked(h: HookItem, priority: Option<isize>, type_key: Option<u64>) -> bool {
    (priority is None || h.priority == priority->0) && (type_key is None || h.type_key == type_key->0)
}

/// The hooks of a list that a removal picks, in order.
pub open spec fn picked_of(s: Seq<HookItem>, priority: Option<isize>, type_key: Option<u64>) -> Seq<HookItem> {
    keep_if(s, HookFilter::Picked(priority, type_key))
}

/// The hooks of a list that a removal leaves, in order.
pub open spec fn kept_of(s: Seq<HookItem>, priority: Option<isize>, type_key: Option<u64>) -> Seq<HookItem> {
    keep_if(s, HookFilter::NotPicked(priority, type_key))
}

/// The ids of a list without one id.
pub open spec fn without_value(s: Seq<u128>, id: u128) -> Seq<u128>
    decreases s.len(),
{
    if s.len() == 0 {
        s
    } else if s.last() != id {
        without_value(s.drop_last(), id).push(s.last())
    } else {
        without_value(s.drop_last(), id)
    }
}

/// What `keep_if` keeps comes from the list and meets the predicate, it
/// keeps every such hook, and it keeps distinct ids distinct.
pub proof fn lemma_keep_if(s: Seq<HookItem>, pred: HookFilter)
    ensures
        keep_if(s, pred).len() <= s.len(),
        forall|i: int| 0 <= i < keep_if(s, pred).len() ==> s.contains(#[trigger] keep_if(s, pred)[i]) && keeps(pred, keep_if(s, pred)[i]),
        forall|i: int| 0 <= i < s.len() && keeps(pred, s[i]) ==> keep_if(s, pred).contains(#[trigger] s[i]),
        ids_distinct(s) ==> ids_distinct(keep_if(s, pred)),
    decreases s.len(),
{
    if s.len() > 0 {
        let d = s.drop_last();
        let k = keep_if(d, pred);
        lemma_keep_if(d, pred);
        assert forall|i: int| 0 <= i < k.len() implies s.contains(#[trigger] k[i]) by {
            let j = choose|j: int| 0 <= j < d.len() && d[j] == k[i];
            assert(s[j] == d[j]);
        }
        assert forall|i: int| 0 <= i < s.len() && keeps(pred, s[i]) implies keep_if(s, pred).contains(#[trigger] s[i]) by {
            if i < s.len() - 1 {
                assert(s[i] == d[i]);
                let j = choose|j: int| 0 <= j < k.len() && k[j] == d[i];
                if keeps(pred, s.last()) {
                    assert(keep_if(s, pred)[j] == k[j]);
                }
            } else {
                assert(keep_if(s, pred)[keep_if(s, pred).len() - 1] == s[i]);
            }
        }
        if ids_distinct(s) {
            assert(ids_distinct(d)) by {
                assert forall|a: int, b: int| 0 <= a < d.len() && 0 <= b < d.len() && a != b implies d[a].id != d[b].id by {
                    assert(d[a] == s[a] && d[b] == s[b]);
                }
            }
            if keeps(pred, s.last()) {
                let u = k.push(s.last());
                assert forall|a: int, b: int| 0 <= a < u.len() && 0 <= b < u.len() && a != b implies u[a].id != u[b].id by {
                    if a < k.len() && b < k.len() {
                        assert(u[a] == k[a] && u[b] == k[b]);
                    } else if a < k.len() {
                        assert(u[a] == k[a]);
                        let j = choose|j: int| 0 <= j < d.len() && d[j] == k[a];
                        assert(s[j] == d[j]);
                        assert(s[j].id != s[s.len() - 1].id);
                    } else {
                        assert(u[b] == k[b]);
                        let j = choose|j: int| 0 <= j < d.len() && d[j] == k[b];
                        assert(s[j] == d[j]);
                        assert(s[j].id != s[s.len() - 1].id);
                    }
                }
            }
        }
    }
}

/// The list stored under a name; empty when the name is unknown.
pub open spec fn list_under<T>(v: Seq<(String, Vec<T>)>, name: Seq<char>) -> Seq<T> {
    if table_map(v).contains_key(name) {
        table_map(v)[name]@
    } else {
        Seq::empty()
    }
}

/// A copy of a list.
fn copy_list<T: Copy>(v: &Vec<T>) -> (r: Vec<T>)
    ensures
        r@ == v@,
{
    let mut r: Vec<T> = Vec::new();
    let mut i: usize = 0;
    while i < v.len()
        invariant
            0 <= i <= v@.len(),
            r@ == v@.take(i as int),
        decreases v@.len() - i,
    {
        r.push(v[i]);
        assert(v@.take(i + 1) =~= v@.take(i as int).push(v@[i as int]));
        i = i + 1;
    }
    assert(v@.take(v@.len() as int) =~= v@);
    r
}

/// The registry of hooks, and the hooks running under each name.
#[derive(Debug)]
pub struct Hooks {
    pub hooks: Vec<(String, Vec<HookItem>)>,
    pub current: Vec<(String, Vec<u128>)>,
}

impl Hooks {
    /// No name occurs twice, and no id twice under one name.
    pub open spec fn well_formed(&self) -> bool {
        &&& keys_unique(self.hooks@)
        &&& keys_unique(self.current@)
        &&& forall|k: Seq<char>| ids_distinct(#[trigger] list_under(self.hooks@, k))
    }

    /// No hook and none running.
    pub fn new() -> (r: Hooks)
        ensures
            r.well_formed(),
            r.hooks@.len() == 0,
            r.current@.len() == 0,
    {
        Hooks { hooks: Vec::new(), current: Vec::new() }
    }

    /// The list under a name, copied; empty when the name is unknown.
    fn list_of<T: Copy>(v: &Vec<(String, Vec<T>)>, name: &[char]) -> (r: Vec<T>)
        requires
            keys_unique(v@),
        ensures
            r@ == list_under(v@, name@),
    {
        match find_key(v, name) {
            Some(i) => copy_list(&v[i].1),
            None => Vec::new(),
        }
    }

    /// Registers a hook under a name: it replaces the hook of its id there,
    /// or is added after the others.
    pub fn add_hook(&mut self, name: String, item: HookItem)
        requires
            old(self).well_formed(),
        ensures
            final(self).well_formed(),
            forall|k: Seq<char>| #[trigger] list_under(final(self).hooks@, k) == if k == name@ {
                with_hook(list_under(old(self).hooks@, k), item)
            } else {
                list_under(old(self).hooks@, k)
            },
            final(self).current@ == old(self).current@,
    {
        let nc = chars_of(name.as_str());
        let mut list = Self::list_of(&self.hooks, &nc);
        let ghost l0 = list@;
        let mut j: usize = 0;
        let mut found = false;
        while j < list.len() && !found
            invariant
                0 <= j <= list@.len(),
                list@ == l0,
                found ==> j < list@.len() && list@[j as int].id == item.id,
                forall|t: int| 0 <= t < j ==> list@[t].id != item.id,
            decreases list@.len() - j + (if found {
                0int
            } else {
                1int
            }),
        {
            if list[j].id == item.id {
                found = true;
            } else {
                j = j + 1;
            }
        }
        proof {
            assert(ids_distinct(l0)) by {
                assert(ids_distinct(list_under(old(self).hooks@, name@)));
            }
        }
        if found {
            proof {
                let c = choose|t: int| 0 <= t < l0.len() && l0[t].id == item.id;
                assert(l0[c].id == item.id);
                if c != j {
                    assert(l0[j as int].id != l0[c].id);
                }
            }
            list.set(j, item);
        } else {
            list.push(item);
        }
        assert(list@ == with_hook(l0, item));
        proof {
            assert(ids_distinct(list@)) by {
                assert forall|a: int, b: int| 0 <= a < list@.len() && 0 <= b < list@.len() && a != b implies list@[a].id != list@[b].id by {
                    if found {
                        if a != j && b != j {
                            assert(list@[a] == l0[a] && list@[b] == l0[b]);
                        } else if a == j {
                            assert(list@[b] == l0[b]);
                            assert(l0[b].id != l0[j as int].id);
                        } else {
                            assert(list@[a] == l0[a]);
                            assert(l0[a].id != l0[j as int].id);
                        }
                    } else {
                        if a < l0.len() && b < l0.len() {
                            assert(list@[a] == l0[a] && list@[b] == l0[b]);
                        } else if a < l0.len() {
                            assert(list@[a] == l0[a]);
                        } else {
                            assert(list@[b] == l0[b]);
                        }
                    }
                }
            }
        }
        let ghost h0 = self.hooks@;
        let ghost newl = list@;
        table_insert(&mut self.hooks, name, list);
        proof {
            assert forall|k: Seq<char>| #[trigger] list_under(self.hooks@, k) == if k == nc@ {
                newl
            } else {
                list_under(h0, k)
            } by {}
            assert forall|k: Seq<char>| ids_distinct(#[trigger] list_under(self.hooks@, k)) by {
                if k != nc@ {
                    assert(ids_distinct(list_under(h0, k)));
                }
            }
        }
    }


    /// Registers a new hook of an id for a type under a name.
    pub fn add(&mut self, name: String, id: u128, type_key: u64, priority: isize, once: bool)
        requires
            old(self).well_formed(),
        ensures
            final(self).well_formed(),
            forall|k: Seq<char>| #[trigger] list_under(final(self).hooks@, k) == if k == name@ {
                with_hook(list_under(old(self).hooks@, k), HookItem { id, priority, once, type_key })
            } else {
                list_under(old(self).hooks@, k)
            },
            final(self).current@ == old(self).current@,
    {
        self.add_hook(name, HookItem::new(id, type_key, priority, once));
    }

    /// Registers a hook that is dropped after it first succeeds.
    pub fn add_once(&mut self, name: String, id: u128, type_key: u64, priority: isize)
        requires
            old(self).well_formed(),
        ensures
            final(self).well_formed(),
            forall|k: Seq<char>| #[trigger] list_under(final(self).hooks@, k) == if k == name@ {
                with_hook(list_under(old(self).hooks@, k), HookItem { id, priority, once: true, type_key })
            } else {
                list_under(old(self).hooks@, k)
            },
            final(self).current@ == old(self).current@,
    {
        self.add(name, id, type_key, priority, true);
    }

    /// Registers a lasting hook of the default priority.
    pub fn add_default(&mut self, name: String, id: u128, type_key: u64)
        requires
            old(self).well_formed(),
        ensures
            final(self).well_formed(),
            forall|k: Seq<char>| #[trigger] list_under(final(self).hooks@, k) == if k == name@ {
                with_hook(
                    list_under(old(self).hooks@, k),
                    HookItem { id, priority: DEFAULT_PRIORITY, once: false, type_key },
                )
            } else {
                list_under(old(self).hooks@, k)
            },
            final(self).current@ == old(self).current@,
    {
        self.add(name, id, type_key, DEFAULT_PRIORITY, false);
    }

    /// The hooks of a list that pass a filter.
    fn filter_items(list: &Vec<HookItem>, f: HookFilter) -> (r: Vec<HookItem>)
        ensures
            r@ == keep_if(list@, f),
    {
        let mut r: Vec<HookItem> = Vec::new();
        let mut i: usize = 0;
        while i < list.len()
            invariant
                0 <= i <= list@.len(),
                r@ == keep_if(list@.take(i as int), f),
            decreases list@.len() - i,
        {
            let h = list[i];
            assert(list@.take(i + 1).drop_last() =~= list@.take(i as int));
            assert(list@.take(i + 1).last() == h);
            let pass = match f {
                HookFilter::OfType(key) => h.type_key == key,
                HookFilter::NotId(id) => h.id != id,
                HookFilter::Picked(p, t) => (match p {
                    Some(q) => h.priority == q,
                    None => true,
                }) && (match t {
                    Some(q) => h.type_key == q,
                    None => true,
                }),
                HookFilter::NotPicked(p, t) => !((match p {
                    Some(q) => h.priority == q,
                    None => true,
                }) && (match t {
                    Some(q) => h.type_key == q,
                    None => true,
                })),
            };
            if pass {
                r.push(h);
            }
            i = i + 1;
        }
        assert(list@.take(list@.len() as int) =~= list@);
        r
    }

    /// Stores a narrowed list back under a name that has one.
    fn store(&mut self, name: &str, list: Vec<HookItem>)
        requires
            old(self).well_formed(),
            table_map(old(self).hooks@).contains_key(name@),
            ids_distinct(list@),
        ensures
            final(self).well_formed(),
            forall|k: Seq<char>| #[trigger] list_under(final(self).hooks@, k) == if k == name@ {
                list@
            } else {
                list_under(old(self).hooks@, k)
            },
            final(self).current@ == old(self).current@,
    {
        let ghost h0 = self.hooks@;
        let ghost l = list@;
        let nc = chars_of(name);
        let key = crate::text::string_of(&nc);
        table_insert(&mut self.hooks, key, list);
        proof {
            assert forall|k: Seq<char>| #[trigger] list_under(self.hooks@, k) == if k == name@ {
                l
            } else {
                list_under(h0, k)
            } by {}
            assert forall|k: Seq<char>| ids_distinct(#[trigger] list_under(self.hooks@, k)) by {
                if k != name@ {
                    assert(ids_distinct(list_under(h0, k)));
                }
            }
        }
    }

    /// Drops the hook of an id from under a name.
    pub fn remove_by_id(&mut self, name: &str, id: u128)
        requires
            old(self).well_formed(),
        ensures
            final(self).well_formed(),
            forall|k: Seq<char>| #[trigger] list_under(final(self).hooks@, k) == if k == name@ {
                without_id(list_under(old(self).hooks@, k), id)
            } else {
                list_under(old(self).hooks@, k)
            },
            final(self).current@ == old(self).current@,
    {
        let nc = chars_of(name);
        match find_key(&self.hooks, &nc) {
            Some(i) => {
                let list = Self::filter_items(&self.hooks[i].1, HookFilter::NotId(id));
                proof {
                    assert(ids_distinct(list_under(self.hooks@, name@)));
                    lemma_keep_if(list_under(self.hooks@, name@), HookFilter::NotId(id));
                }
                self.store(name, list);
            },
            None => {
                assert(without_id(Seq::<HookItem>::empty(), id) == Seq::<HookItem>::empty());
            },
        }
    }

    /// Drops the hooks under a name that are of the given priority and of
    /// the given type (each where it is given) and hands them back.
    pub fn remove(&mut self, name: &str, priority: Option<isize>, type_key: Option<u64>) -> (r: Vec<HookItem>)
        requires
            old(self).well_formed(),
        ensures
            final(self).well_formed(),
            r@ == picked_of(list_under(old(self).hooks@, name@), priority, type_key),
            forall|k: Seq<char>| #[trigger] list_under(final(self).hooks@, k) == if k == name@ {
                kept_of(list_under(old(self).hooks@, k), priority, type_key)
            } else {
                list_under(old(self).hooks@, k)
            },
            final(self).current@ == old(self).current@,
    {
        let nc = chars_of(name);
        match find_key(&self.hooks, &nc) {
            Some(i) => {
                let gone = Self::filter_items(&self.hooks[i].1, HookFilter::Picked(priority, type_key));
                let kept = Self::filter_items(&self.hooks[i].1, HookFilter::NotPicked(priority, type_key));
                proof {
                    assert(ids_distinct(list_under(self.hooks@, name@)));
                    lemma_keep_if(list_under(self.hooks@, name@), HookFilter::NotPicked(priority, type_key));
                }
                self.store(name, kept);
                gone
            },
            None => {
                assert(picked_of(Seq::<HookItem>::empty(), priority, type_key) == Seq::<HookItem>::empty());
                assert(kept_of(Seq::<HookItem>::empty(), priority, type_key) == Seq::<HookItem>::empty());
                Vec::new()
            },
        }
    }

    /// Whether hooks under a name are running: the hook of the given id,
    /// or any hook when no id is given.
    pub fn in_hook(&self, name: &str, id: Option<u128>) -> (r: bool)
        requires
            self.well_formed(),
        ensures
            r == if !table_map(self.current@).contains_key(name@) {
                false
            } else {
                match id {
                    Some(x) => list_under(self.current@, name@).contains(x),
                    None => list_under(self.current@, name@).len() > 0,
                }
            },
    {
        let nc = chars_of(name);
        match find_key(&self.current, &nc) {
            Some(i) => match id {
                Some(x) => {
                    let ids = &self.current[i].1;
                    let ghost l = list_under(self.current@, name@);
                    assert(ids@ == l);
                    let mut j: usize = 0;
                    while j < ids.len()
                        invariant
                            0 <= j <= ids@.len(),
                            ids@ == l,
                            l == list_under(self.current@, name@),
                            table_map(self.current@).contains_key(name@),
                            id == Some(x),
                            forall|t: int| 0 <= t < j ==> ids@[t] != x,
                        decreases ids@.len() - j,
                    {
                        if ids[j] == x {
                            assert(l[j as int] == x);
                            return true;
                        }
                        j = j + 1;
                    }
                    false
                },
                None => self.current[i].1.len() > 0,
            },
            None => false,
        }
    }


    /// The hooks under a name for one type of value, in the order they are
    /// applied: higher priority first.
    pub fn apply_order(&self, name: &str, type_key: u64) -> (r: Vec<HookItem>)
        requires
            self.well_formed(),
        ensures
            by_priority(r@),
            ids_distinct(r@),
            r@.len() == of_type(list_under(self.hooks@, name@), type_key).len(),
            forall|x: HookItem| #[trigger] r@.contains(x) <==> of_type(list_under(self.hooks@, name@), type_key).contains(x),
    {
        let nc = chars_of(name);
        let list = Self::list_of(&self.hooks, &nc);
        let typed = Self::filter_items(&list, HookFilter::OfType(type_key));
        proof {
            assert(ids_distinct(list_under(self.hooks@, name@)));
            lemma_keep_if(list@, HookFilter::OfType(type_key));
        }
        let mut r: Vec<HookItem> = Vec::new();
        let mut i: usize = 0;
        while i < typed.len()
            invariant
                0 <= i <= typed@.len(),
                ids_distinct(typed@),
                by_priority(r@),
                ids_distinct(r@),
                r@.len() == i,
                forall|x: HookItem| #[trigger] r@.contains(x) <==> typed@.take(i as int).contains(x),
            decreases typed@.len() - i,
        {
            let h = typed[i];
            let mut k: usize = 0;
            while k < r.len() && r[k].priority >= h.priority
                invariant
                    0 <= k <= r@.len(),
                    forall|t: int| 0 <= t < k ==> r@[t].priority >= h.priority,
                decreases r@.len() - k,
            {
                k = k + 1;
            }
            let ghost old_r = r@;
            proof {
                old_r.insert_ensures(k as int, h);
                assert forall|x: HookItem| old_r.contains(x) implies x.id != h.id by {
                    let t = choose|t: int| 0 <= t < old_r.len() && old_r[t] == x;
                    assert(typed@.take(i as int).contains(x));
                    let u = choose|u: int| 0 <= u < i && typed@.take(i as int)[u] == x;
                    assert(typed@[u] == x);
                    assert(typed@[i as int] == h);
                }
            }
            r.insert(k, h);
            proof {
                assert(r@ == old_r.insert(k as int, h));
                assert forall|a: int, b: int| 0 <= a < b < r@.len() implies r@[a].priority >= r@[b].priority by {
                    if b < k {
                        assert(r@[a] == old_r[a] && r@[b] == old_r[b]);
                    } else if b == k {
                        assert(r@[a] == old_r[a]);
                    } else if a < k {
                        assert(r@[a] == old_r[a] && r@[b] == old_r[b - 1]);
                        assert(old_r[k as int].priority < h.priority);
                        assert(old_r[a].priority >= h.priority);
                    } else if a == k {
                        assert(r@[b] == old_r[b - 1]);
                        assert(old_r[k as int].priority < h.priority);
                        assert(old_r[k as int].priority >= old_r[b - 1].priority || b - 1 == k);
                    } else {
                        assert(r@[a] == old_r[a - 1] && r@[b] == old_r[b - 1]);
                    }
                }
                assert forall|a: int, b: int| 0 <= a < r@.len() && 0 <= b < r@.len() && a != b implies r@[a].id != r@[b].id by {
                    let a2 = if a < k { a } else { a - 1 };
                    let b2 = if b < k { b } else { b - 1 };
                    if a == k {
                        assert(r@[a] == h);
                        assert(old_r.contains(r@[b])) by {
                            assert(r@[b] == old_r[b2]);
                        }
                    } else if b == k {
                        assert(r@[b] == h);
                        assert(old_r.contains(r@[a])) by {
                            assert(r@[a] == old_r[a2]);
                        }
                    } else {
                        assert(r@[a] == old_r[a2] && r@[b] == old_r[b2]);
                    }
                }
                assert(typed@.take(i + 1) =~= typed@.take(i as int).push(h));
                assert forall|x: HookItem| #[trigger] r@.contains(x) <==> typed@.take(i + 1).contains(x) by {
                    if r@.contains(x) {
                        let t = choose|t: int| 0 <= t < r@.len() && r@[t] == x;
                        if t != k {
                            let t2 = if t < k { t } else { t - 1 };
                            assert(old_r[t2] == x);
                            assert(old_r.contains(x));
                            let u = choose|u: int| 0 <= u < i && typed@.take(i as int)[u] == x;
                            assert(typed@.take(i + 1)[u] == x);
                        } else {
                            assert(typed@.take(i + 1)[i as int] == x);
                        }
                    }
                    if typed@.take(i + 1).contains(x) {
                        let u = choose|u: int| 0 <= u < i + 1 && #[trigger] typed@.take(i + 1)[u] == x;
                        if u < i {
                            assert(typed@.take(i as int)[u] == x);
                            assert(old_r.contains(x));
                            let t = choose|t: int| 0 <= t < old_r.len() && old_r[t] == x;
                            let t2 = if t < k { t } else { t + 1 };
                            assert(r@[t2] == x);
                        } else {
                            assert(r@[k as int] == x);
                        }
                    }
                }
            }
            i = i + 1;
        }
        assert(typed@.take(typed@.len() as int) =~= typed@);
        r
    }


    /// Stores a list of running ids under a name.
    fn store_running(&mut self, name: &str, ids: Vec<u128>)
        requires
            old(self).well_formed(),
        ensures
            final(self).well_formed(),
            final(self).hooks@ == old(self).hooks@,
            table_map(final(self).current@).dom() == table_map(old(self).current@).dom().insert(name@),
            forall|k: Seq<char>| #[trigger] list_under(final(self).current@, k) == if k == name@ {
                ids@
            } else {
                list_under(old(self).current@, k)
            },
    {
        let nc = chars_of(name);
        let key = crate::text::string_of(&nc);
        let ghost l = ids@;
        table_insert(&mut self.current, key, ids);
        proof {
            assert forall|k: Seq<char>| #[trigger] list_under(self.current@, k) == if k == name@ {
                l
            } else {
                list_under(old(self).current@, k)
            } by {}
        }
    }

    /// Opens the applying of the hooks under a name: the name gets a list
    /// of running hooks, empty where it had none.
    pub fn start_apply(&mut self, name: &str)
        requires
            old(self).well_formed(),
        ensures
            final(self).well_formed(),
            final(self).hooks@ == old(self).hooks@,
            table_map(final(self).current@).dom() == table_map(old(self).current@).dom().insert(name@),
            forall|k: Seq<char>| #[trigger] list_under(final(self).current@, k) == list_under(old(self).current@, k),
    {
        let nc = chars_of(name);
        let ids: Vec<u128> = Self::list_of(&self.current, &nc);
        self.store_running(name, ids);
    }

    /// Marks the hook of an id under a name as running.
    pub fn enter(&mut self, name: &str, id: u128)
        requires
            old(self).well_formed(),
        ensures
            final(self).well_formed(),
            final(self).hooks@ == old(self).hooks@,
            table_map(final(self).current@).dom() == table_map(old(self).current@).dom().insert(name@),
            forall|k: Seq<char>| #[trigger] list_under(final(self).current@, k) == if k == name@ {
                if list_under(old(self).current@, k).contains(id) {
                    list_under(old(self).current@, k)
                } else {
                    list_under(old(self).current@, k).push(id)
                }
            } else {
                list_under(old(self).current@, k)
            },
    {
        let nc = chars_of(name);
        let mut ids: Vec<u128> = Self::list_of(&self.current, &nc);
        let ghost l = ids@;
        let mut j: usize = 0;
        let mut seen = false;
        while j < ids.len()
            invariant
                0 <= j <= ids@.len(),
                ids@ == l,
                seen == exists|t: int| 0 <= t < j && ids@[t] == id,
            decreases ids@.len() - j,
        {
            if ids[j] == id {
                seen = true;
            }
            j = j + 1;
        }
        if !seen {
            ids.push(id);
        }
        self.store_running(name, ids);
    }

    /// Marks the hook of an id under a name as no longer running; when the
    /// run succeeded and the hook runs once, the hook is dropped.
    pub fn leave(&mut self, name: &str, id: u128, succeeded: bool, once: bool)
        requires
            old(self).well_formed(),
        ensures
            final(self).well_formed(),
            table_map(final(self).current@).dom() == table_map(old(self).current@).dom().insert(name@),
            forall|k: Seq<char>| #[trigger] list_under(final(self).current@, k) == if k == name@ {
                without_value(list_under(old(self).current@, k), id)
            } else {
                list_under(old(self).current@, k)
            },
            forall|k: Seq<char>| #[trigger] list_under(final(self).hooks@, k) == if k == name@ && succeeded && once {
                without_id(list_under(old(self).hooks@, k), id)
            } else {
                list_under(old(self).hooks@, k)
            },
    {
        if succeeded && once {
            self.remove_by_id(name, id);
        }
        let nc = chars_of(name);
        let ids: Vec<u128> = Self::list_of(&self.current, &nc);
        let mut rest: Vec<u128> = Vec::new();
        let mut j: usize = 0;
        while j < ids.len()
            invariant
                0 <= j <= ids@.len(),
                rest@ == without_value(ids@.take(j as int), id),
            decreases ids@.len() - j,
        {
            assert(ids@.take(j + 1).drop_last() =~= ids@.take(j as int));
            if ids[j] != id {
                rest.push(ids[j]);
            }
            j = j + 1;
        }
        assert(ids@.take(ids@.len() as int) =~= ids@);
        self.store_running(name, rest);
    }

    /// Closes the applying of the hooks under a name: the name's list of
    /// running hooks is dropped when none runs.
    pub fn finish_apply(&mut self, name: &str)
        requires
            old(self).well_formed(),
        ensures
            final(self).well_formed(),
            final(self).hooks@ == old(self).hooks@,
            table_map(final(self).current@) == if table_map(old(self).current@).contains_key(name@)
                && list_under(old(self).current@, name@).len() == 0 {
                table_map(old(self).current@).remove(name@)
            } else {
                table_map(old(self).current@)
            },
    {
        let nc = chars_of(name);
        match find_key(&self.current, &nc) {
            Some(i) => {
                if self.current[i].1.len() == 0 {
                    proof {
                        crate::table::lemma_table_remove(self.current@, i as int);
                    }
                    self.current.remove(i);
                }
            },
            None => {},
        }
    }

}






/// A registered hook is among the hooks of its name, and it is the only
/// one with its id there; the hooks of other ids stay.
pub proof fn lemma_added_hook_present(s: Seq<HookItem>, item: HookItem)
    requires
        ids_distinct(s),
    ensures
        with_hook(s, item).contains(item),
        forall|i: int| 0 <= i < with_hook(s, item).len() && with_hook(s, item)[i].id == item.id ==> with_hook(s, item)[i] == item,
        forall|i: int| 0 <= i < s.len() && s[i].id != item.id ==> with_hook(s, item).contains(s[i]),
{
    let w = with_hook(s, item);
    if exists|i: int| 0 <= i < s.len() && s[i].id == item.id {
        let c = choose|i: int| 0 <= i < s.len() && s[i].id == item.id;
        assert(w[c] == item);
        assert forall|i: int| 0 <= i < w.len() && w[i].id == item.id implies w[i] == item by {
            if i != c {
                assert(w[i] == s[i]);
                assert(s[i].id != s[c].id);
            }
        }
        assert forall|i: int| 0 <= i < s.len() && s[i].id != item.id implies w.contains(s[i]) by {
            assert(w[i] == s[i]);
        }
    } else {
        assert(w[s.len() as int] == item);
        assert forall|i: int| 0 <= i < w.len() && w[i].id == item.id implies w[i] == item by {
            if i < s.len() {
                assert(w[i] == s[i]);
            }
        }
        assert forall|i: int| 0 <= i < s.len() && s[i].id != item.id implies w.contains(s[i]) by {
            assert(w[i] == s[i]);
        }
    }
}

} // verus!
