//! The middleware pipeline: which middleware is registered (one of each
//! type, by the key that the caller gives each type, with its priority),
//! and the order in which a request passes through them.
use vstd::prelude::*;

verus! {

/// A registered middleware as the pipeline sees it.
#[derive(Debug, Clone, Copy, PartialEq, Eq, Structural)]
pub struct MiddlewareEntry {
    pub type_key: u64,
    pub priority: isize,
}

/// No two entries are of one type.
pub open spec fn keys_distinct(s: Seq<MiddlewareEntry>) -> bool {
    forall|i: int, j: int| 0 <= i < s.len() && 0 <= j < s.len() && i != j ==> s[i].type_key != s[j].type_key
}

/// Some entry is of the type.
pub open spec fn has_key(s: Seq<MiddlewareEntry>, key: u64) -> bool {
    exists|i: int| 0 <= i < s.len() && s[i].type_key == key
}

/// The entries that are not of the type, in order.
pub open spec fn without_key(s: Seq<MiddlewareEntry>, key: u64) -> Seq<MiddlewareEntry>
    decreases s.len(),
{
    if s.len() == 0 {
        s
    } else {
        let rest = without_key(s.drop_last(), key);
        if s.last().type_key == key {
            rest
        } else {
            rest.push(s.last())
        }
    }
}

/// The entries after a middleware of the type is registered with the
/// priority: added at the end unless one of the type is there.
pub open spec fn registered(s: Seq<MiddlewareEntry>, key: u64, priority: isize) -> Seq<MiddlewareEntry> {
    if has_key(s, key) {
        s
    } else {
        s.push(MiddlewareEntry { type_key: key, priority })
    }
}

/// `x` placed into `s` after every entry of at least its priority that
/// leads `s`.
pub open spec fn insert_by_priority(s: Seq<MiddlewareEntry>, x: MiddlewareEntry) -> Seq<MiddlewareEntry>
    decreases s.len(),
{
    if s.len() == 0 {
        seq![x]
    } else if s[0].priority >= x.priority {
        seq![s[0]] + insert_by_priority(s.drop_first(), x)
    } else {
        seq![x] + s
    }
}

/// The entries ordered by descending priority, entries of equal priority
/// in the order they were registered.
pub open spec fn by_priority(s: Seq<MiddlewareEntry>) -> Seq<MiddlewareEntry>
    decreases s.len(),
{
    if s.len() == 0 {
        s
    } else {
        insert_by_priority(by_priority(s.drop_last()), s.last())
    }
}

/// Higher priorities come first.
pub open spec fn descending(s: Seq<MiddlewareEntry>) -> bool {
    forall|i: int, j: int| 0 <= i < j < s.len() ==> s[i].priority >= s[j].priority
}

/// Inserting at the first place whose entry has a lower priority.
proof fn lemma_insert_at(s: Seq<MiddlewareEntry>, x: MiddlewareEntry, k: int)
    requires
        0 <= k <= s.len(),
        forall|t: int| 0 <= t < k ==> s[t].priority >= x.priority,
        k < s.len() ==> s[k].priority < x.priority,
    ensures
        insert_by_priority(s, x) == s.insert(k, x),
    decreases s.len(),
{
    if s.len() == 0 {
        assert(s.insert(k, x) =~= seq![x]);
    } else if k == 0 {
        assert(s.insert(0, x) =~= seq![x] + s);
    } else {
        let d = s.drop_first();
        assert forall|t: int| 0 <= t < k - 1 implies d[t].priority >= x.priority by {
            assert(d[t] == s[t + 1]);
        }
        if k - 1 < d.len() {
            assert(d[k - 1] == s[k]);
        }
        lemma_insert_at(d, x, k - 1);
        assert(s.insert(k, x) =~= seq![s[0]] + d.insert(k - 1, x));
    }
}

/// Inserting into a descending list keeps it descending, adds the one entry
/// and keeps every other.
proof fn lemma_insert_keeps(s: Seq<MiddlewareEntry>, x: MiddlewareEntry)
    requires
        descending(s),
    ensures
        descending(insert_by_priority(s, x)),
        insert_by_priority(s, x).len() == s.len() + 1,
        insert_by_priority(s, x).to_multiset() == s.to_multiset().insert(x),
    decreases s.len(),
{
    broadcast use vstd::seq_lib::group_to_multiset_ensures;
    if s.len() == 0 {
        assert(seq![x] =~= Seq::<MiddlewareEntry>::empty().push(x));
    } else if s[0].priority >= x.priority {
        let d = s.drop_first();
        assert forall|i: int, j: int| 0 <= i < j < d.len() implies d[i].priority >= d[j].priority by {
            assert(d[i] == s[i + 1] && d[j] == s[j + 1]);
        }
        lemma_insert_keeps(d, x);
        let r = insert_by_priority(d, x);
        let whole = seq![s[0]] + r;
        assert forall|i: int, j: int| 0 <= i < j < whole.len() implies whole[i].priority >= whole[j].priority by {
            if i == 0 {
                assert(whole[j] == r[j - 1]);
                assert(r.to_multiset().count(r[j - 1]) > 0);
                assert(r.contains(r[j - 1]));
                if r[j - 1] != x {
                    assert(d.to_multiset().count(r[j - 1]) > 0);
                    assert(d.contains(r[j - 1]));
                    let t: int = choose|t: int| 0 <= t < d.len() && d[t] == r[j - 1];
                    assert(d[t] == s[t + 1]);
                }
            } else {
                assert(whole[i] == r[i - 1] && whole[j] == r[j - 1]);
            }
        }
        assert(s =~= seq![s[0]] + d);
        vstd::seq_lib::lemma_multiset_commutative(seq![s[0]], d);
        vstd::seq_lib::lemma_multiset_commutative(seq![s[0]], r);
        assert(s.to_multiset() == seq![s[0]].to_multiset().add(d.to_multiset()));
        assert(whole.to_multiset() =~= s.to_multiset().insert(x));
    } else {
        let whole = seq![x] + s;
        assert forall|i: int, j: int| 0 <= i < j < whole.len() implies whole[i].priority >= whole[j].priority by {
            if i == 0 {
                assert(whole[j] == s[j - 1]);
                assert(s[0].priority >= s[j - 1].priority || j - 1 == 0);
            } else {
                assert(whole[i] == s[i - 1] && whole[j] == s[j - 1]);
            }
        }
        vstd::seq_lib::lemma_multiset_commutative(seq![x], s);
        assert(whole.to_multiset() =~= s.to_multiset().insert(x));
    }
}

/// The dispatch order is descending in priority and holds every registered
/// entry once.
pub proof fn lemma_by_priority(s: Seq<MiddlewareEntry>)
    ensures
        descending(by_priority(s)),
        by_priority(s).len() == s.len(),
        by_priority(s).to_multiset() == s.to_multiset(),
    decreases s.len(),
{
    broadcast use vstd::seq_lib::group_to_multiset_ensures;
    if s.len() > 0 {
        lemma_by_priority(s.drop_last());
        lemma_insert_keeps(by_priority(s.drop_last()), s.last());
        assert(s =~= s.drop_last().push(s.last()));
    }
}

/// The pipeline of middleware that a request passes through.
pub struct Dispatcher {
    entries: Vec<MiddlewareEntry>,
}

/// What the dispatcher does for a request at a position of the pipeline.
#[derive(Debug, Clone, Copy, PartialEq, Eq, Structural)]
pub enum DispatchStep {
    /// Hand the request to this middleware, with the rest of the pipeline
    /// as its continuation.
    Middleware(MiddlewareEntry),
    /// Every middleware has run: hand the request to the wrapped service.
    Inner,
}

impl Dispatcher {
    pub closed spec fn entries(&self) -> Seq<MiddlewareEntry> {
        self.entries@
    }

    /// A dispatcher over the entries in the order given.
    pub fn new(middlewares: Vec<MiddlewareEntry>) -> (r: Dispatcher)
        ensures
            r.entries() == middlewares@,
    {
        Dispatcher { entries: middlewares }
    }

    /// The order in which a request meets the middleware: by descending
    /// priority, those of equal priority as they were registered.
    pub fn order(&self) -> (r: Vec<MiddlewareEntry>)
        ensures
            r@ == by_priority(self.entries()),
    {
        let mut r: Vec<MiddlewareEntry> = Vec::new();
        let mut i: usize = 0;
        while i < self.entries.len()
            invariant
                0 <= i <= self.entries@.len(),
                r@ == by_priority(self.entries@.take(i as int)),
            decreases self.entries@.len() - i,
        {
            let h = self.entries[i];
            proof {
                lemma_by_priority(self.entries@.take(i as int));
            }
            let mut k: usize = 0;
            while k < r.len() && r[k].priority >= h.priority
                invariant
                    0 <= k <= r@.len(),
                    forall|t: int| 0 <= t < k ==> r@[t].priority >= h.priority,
                decreases r@.len() - k,
            {
                k = k + 1;
            }
            proof {
                lemma_insert_at(r@, h, k as int);
                let p = self.entries@.take(i + 1);
                assert(p.drop_last() =~= self.entries@.take(i as int));
                assert(p.last() == h);
            }
            r.insert(k, h);
            i = i + 1;
        }
        assert(self.entries@.take(self.entries@.len() as int) =~= self.entries@);
        r
    }

    /// What a request does at a position of the ordered pipeline.
    pub fn step(order: &Vec<MiddlewareEntry>, index: usize) -> (r: DispatchStep)
        ensures
            index >= order@.len() ==> r == DispatchStep::Inner,
            index < order@.len() ==> r == DispatchStep::Middleware(order@[index as int]),
    {
        if index >= order.len() {
            DispatchStep::Inner
        } else {
            DispatchStep::Middleware(order[index])
        }
    }
}

/// The registered middleware, one of each type, in the order of
/// registration.
pub struct MiddlewareManager {
    middlewares: Vec<MiddlewareEntry>,
}

impl View for MiddlewareManager {
    type V = Seq<MiddlewareEntry>;

    closed spec fn view(&self) -> Seq<MiddlewareEntry> {
        self.middlewares@
    }
}

impl MiddlewareManager {
    pub open spec fn well_formed(&self) -> bool {
        keys_distinct(self@)
    }

    /// An empty pipeline.
    pub fn new() -> (r: MiddlewareManager)
        ensures
            r.well_formed(),
            r@ == Seq::<MiddlewareEntry>::empty(),
    {
        MiddlewareManager { middlewares: Vec::new() }
    }

    /// Some middleware of the type is registered.
    pub fn has(&self, type_key: u64) -> (r: bool)
        ensures
            r == has_key(self@, type_key),
    {
        let mut i: usize = 0;
        while i < self.middlewares.len()
            invariant
                0 <= i <= self.middlewares@.len(),
                forall|t: int| 0 <= t < i ==> self.middlewares@[t].type_key != type_key,
            decreases self.middlewares@.len() - i,
        {
            if self.middlewares[i].type_key == type_key {
                return true;
            }
            i = i + 1;
        }
        false
    }

    /// Registers a middleware of the type at the end of the pipeline; one
    /// that is already registered stays as it is.
    pub fn register(&mut self, type_key: u64, priority: isize)
        requires
            old(self).well_formed(),
        ensures
            final(self).well_formed(),
            final(self)@ == registered(old(self)@, type_key, priority),
    {
        if self.has(type_key) {
            return;
        }
        let ghost before = self@;
        self.middlewares.push(MiddlewareEntry { type_key, priority });
        proof {
            assert forall|i: int, j: int|
                0 <= i < self@.len() && 0 <= j < self@.len() && i != j implies self@[i].type_key
                != self@[j].type_key by {
                if i < before.len() && j < before.len() {
                    assert(self@[i] == before[i] && self@[j] == before[j]);
                } else if i < before.len() {
                    assert(self@[i] == before[i]);
                } else {
                    assert(self@[j] == before[j]);
                }
            }
        }
    }

    /// Takes the middleware of the type out of the pipeline.
    pub fn remove(&mut self, type_key: u64)
        requires
            old(self).well_formed(),
        ensures
            final(self).well_formed(),
            final(self)@ == without_key(old(self)@, type_key),
            !has_key(final(self)@, type_key),
    {
        let ghost before = self@;
        let mut kept: Vec<MiddlewareEntry> = Vec::new();
        let mut i: usize = 0;
        while i < self.middlewares.len()
            invariant
                0 <= i <= self.middlewares@.len(),
                self.middlewares@ == before,
                keys_distinct(before),
                kept@ == without_key(before.take(i as int), type_key),
                forall|t: int| 0 <= t < kept@.len() ==> kept@[t].type_key != type_key,
                forall|t: int|
                    0 <= t < kept@.len() ==> exists|u: int|
                        0 <= u < i && #[trigger] kept@[t] == before[u],
                forall|a: int, b: int|
                    0 <= a < b < kept@.len() ==> exists|u: int, w: int|
                        0 <= u < w < i && #[trigger] kept@[a] == before[u] && #[trigger] kept@[b]
                            == before[w],
            decreases self.middlewares@.len() - i,
        {
            let e = self.middlewares[i];
            let ghost p = before.take(i + 1);
            proof {
                assert(p.drop_last() =~= before.take(i as int));
                assert(p.last() == e);
            }
            if e.type_key != type_key {
                let ghost old_kept = kept@;
                kept.push(e);
                proof {
                    assert forall|t: int| 0 <= t < kept@.len() implies exists|u: int|
                        0 <= u < i + 1 && #[trigger] kept@[t] == before[u] by {
                        if t < old_kept.len() {
                            assert(kept@[t] == old_kept[t]);
                        } else {
                            assert(kept@[t] == before[i as int]);
                        }
                    }
                    assert forall|a: int, b: int| 0 <= a < b < kept@.len() implies exists|u: int, w: int|
                        0 <= u < w < i + 1 && #[trigger] kept@[a] == before[u] && #[trigger] kept@[b]
                            == before[w] by {
                        if b < old_kept.len() {
                            assert(kept@[a] == old_kept[a] && kept@[b] == old_kept[b]);
                        } else {
                            assert(kept@[a] == old_kept[a]);
                            let u: int = choose|u: int| 0 <= u < i && #[trigger] old_kept[a] == before[u];
                            assert(kept@[b] == before[i as int]);
                        }
                    }
                }
            }
            i = i + 1;
        }
        assert(before.take(before.len() as int) =~= before);
        proof {
            assert forall|a: int, b: int|
                0 <= a < kept@.len() && 0 <= b < kept@.len() && a != b implies kept@[a].type_key
                != kept@[b].type_key by {
                if a < b {
                    let (u, w) = choose|u: int, w: int|
                        0 <= u < w < before.len() && #[trigger] kept@[a] == before[u] && #[trigger] kept@[b]
                            == before[w];
                } else {
                    let (u, w) = choose|u: int, w: int|
                        0 <= u < w < before.len() && #[trigger] kept@[b] == before[u] && #[trigger] kept@[a]
                            == before[w];
                }
            }
        }
        self.middlewares = kept;
    }

    /// How many middleware are registered.
    pub fn len(&self) -> (r: usize)
        ensures
            r == self@.len(),
    {
        self.middlewares.len()
    }

    /// Empties the pipeline.
    pub fn clear(&mut self)
        ensures
            final(self).well_formed(),
            final(self)@ == Seq::<MiddlewareEntry>::empty(),
    {
        self.middlewares.clear();
    }

    /// The registered middleware, in the order of registration.
    pub fn entries(&self) -> (r: &Vec<MiddlewareEntry>)
        ensures
            r@ == self@,
    {
        &self.middlewares
    }

    /// A dispatcher over the registered middleware.
    pub fn create_dispatcher(&self) -> (r: Dispatcher)
        ensures
            r.entries() == self@,
    {
        Dispatcher::new(self.middlewares.clone())
    }
}

impl Default for MiddlewareManager {
    fn default() -> (r: MiddlewareManager)
        ensures
            r.well_formed(),
            r@ == Seq::<MiddlewareEntry>::empty(),
    {
        MiddlewareManager::new()
    }
}

/// After registering a type, it is registered, and registering it again,
/// with any priority, changes nothing.
pub proof fn lemma_register_idempotent(s: Seq<MiddlewareEntry>, key: u64, priority: isize, again: isize)
    ensures
        has_key(registered(s, key, priority), key),
        registered(registered(s, key, priority), key, again) == registered(s, key, priority),
{
    if !has_key(s, key) {
        let t = s.push(MiddlewareEntry { type_key: key, priority });
        assert(t[s.len() as int].type_key == key);
    }
}

} // verus!
