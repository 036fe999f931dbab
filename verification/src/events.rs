//! The bookkeeping of the event manager: one broadcast channel per event
//! type, with room for a bounded number of channels, where channels that no
//! one listens to any more are recycled.
use vstd::prelude::*;

use crate::config::clamp;
use crate::error::{Error, ErrorType};
use crate::text::{chars_of, dec, fmt_u128, push_all, string_of};

verus! {

pub const MAX_CHANNELS_CAPACITY: usize = 8192;
pub const MAX_CHANNEL_CAPACITY: usize = 8192;
pub const MIN_CHANNEL_CAPACITY: usize = 8;
pub const MIN_CHANNELS_CAPACITY: usize = 8;

/// One channel as the manager sees it: the event type it carries (by the
/// key that the caller gives each type), its capacity, and how many
/// receivers listen to it.
#[derive(Debug, Clone, Copy, PartialEq, Eq, Structural)]
pub struct Channel {
    pub type_key: u64,
    pub capacity: usize,
    pub receivers: usize,
}

impl Channel {
    /// A channel with its capacity brought into `8..=8192` and no receiver.
    pub fn new(type_key: u64, capacity: usize) -> (r: Channel)
        ensures
            r.type_key == type_key,
            r.capacity == clamp(capacity as int, 8, 8192),
            r.receivers == 0,
    {
        let c = if capacity < MIN_CHANNEL_CAPACITY {
            MIN_CHANNEL_CAPACITY
        } else if capacity > MAX_CHANNEL_CAPACITY {
            MAX_CHANNEL_CAPACITY
        } else {
            capacity
        };
        Channel { type_key, capacity: c, receivers: 0 }
    }

    pub fn capacity(&self) -> (r: usize)
        ensures
            r == self.capacity,
    {
        self.capacity
    }

    pub fn receiver_count(&self) -> (r: usize)
        ensures
            r == self.receivers,
    {
        self.receivers
    }
}

/// Some channel carries the event type.
pub open spec fn has_key(v: Seq<Channel>, key: u64) -> bool {
    exists|i: int| 0 <= i < v.len() && v[i].type_key == key
}

/// Where the channel of an event type is.
pub open spec fn key_index(v: Seq<Channel>, key: u64) -> int {
    choose|i: int| 0 <= i < v.len() && v[i].type_key == key
}

/// No two channels carry the same event type.
pub open spec fn keys_distinct(v: Seq<Channel>) -> bool {
    forall|i: int, j: int| 0 <= i < v.len() && 0 <= j < v.len() && i != j ==> v[i].type_key != v[j].type_key
}

/// Where the first channel that no receiver listens to is.
pub open spec fn first_unheard(v: Seq<Channel>) -> int {
    choose|i: int| 0 <= i < v.len() && v[i].receivers == 0 && forall|j: int| 0 <= j < i ==> v[j].receivers != 0
}

/// Some channel has no receiver.
pub open spec fn has_unheard(v: Seq<Channel>) -> bool {
    exists|i: int| 0 <= i < v.len() && v[i].receivers == 0
}

/// The channels with room made for one more: unchanged when there is
/// room, else without the first channel no receiver listens to.
pub open spec fn after_retain(v: Seq<Channel>, capacity: usize) -> Seq<Channel> {
    if v.len() < capacity || !has_unheard(v) {
        v
    } else {
        v.remove(first_unheard(v))
    }
}

/// The channels with one more receiver on the channel of `key`, which is
/// created with the given capacity where there is none.
pub open spec fn with_subscriber(v: Seq<Channel>, key: u64, capacity: int) -> Seq<Channel> {
    if has_key(v, key) {
        let i = key_index(v, key);
        v.update(i, Channel { type_key: key, capacity: v[i].capacity, receivers: (v[i].receivers + 1) as usize })
    } else {
        v.push(Channel { type_key: key, capacity: capacity as usize, receivers: 1 })
    }
}

/// The channels that some receiver still listens to, in order.
pub open spec fn listened(v: Seq<Channel>) -> Seq<Channel>
    decreases v.len(),
{
    if v.len() == 0 {
        v
    } else if v.last().receivers > 0 {
        listened(v.drop_last()).push(v.last())
    } else {
        listened(v.drop_last())
    }
}

/// The event types of the channels that no receiver listens to, in order.
pub open spec fn unheard_keys(v: Seq<Channel>) -> Seq<u64>
    decreases v.len(),
{
    if v.len() == 0 {
        Seq::empty()
    } else if v.last().receivers == 0 {
        unheard_keys(v.drop_last()).push(v.last().type_key)
    } else {
        unheard_keys(v.drop_last())
    }
}

/// The message of a subscription refused because every place is taken.
pub open spec fn capacity_message(capacity: usize) -> Seq<char> {
    "Channel capacity reached: "@ + dec(capacity as nat)
        + ". Consider increasing the capacity or removing unused channels."@
}

proof fn lemma_key_index(v: Seq<Channel>, key: u64, p: int)
    requires
        keys_distinct(v),
        0 <= p < v.len(),
        v[p].type_key == key,
    ensures
        has_key(v, key),
        key_index(v, key) == p,
{
    assert(has_key(v, key));
    let i = key_index(v, key);
    assert(v[i].type_key == key);
}

proof fn lemma_first_unheard(v: Seq<Channel>, p: int)
    requires
        0 <= p < v.len(),
        v[p].receivers == 0,
        forall|j: int| 0 <= j < p ==> v[j].receivers != 0,
    ensures
        has_unheard(v),
        first_unheard(v) == p,
{
    assert(has_unheard(v));
    let i = first_unheard(v);
    assert(0 <= i < v.len() && v[i].receivers == 0 && forall|j: int| 0 <= j < i ==> v[j].receivers != 0);
    if i < p {
        assert(v[i].receivers != 0);
    }
    if p < i {
        assert(v[p].receivers != 0);
    }
}

proof fn lemma_remove_distinct(v: Seq<Channel>, i: int)
    requires
        keys_distinct(v),
        0 <= i < v.len(),
    ensures
        keys_distinct(v.remove(i)),
{
    let w = v.remove(i);
    assert forall|a: int, b: int| 0 <= a < w.len() && 0 <= b < w.len() && a != b implies w[a].type_key
        != w[b].type_key by {
        let a2 = if a < i {
            a
        } else {
            a + 1
        };
        let b2 = if b < i {
            b
        } else {
            b + 1
        };
        assert(w[a] == v[a2]);
        assert(w[b] == v[b2]);
    }
}

proof fn lemma_unheard_min(v: Seq<Channel>, i: int)
    requires
        0 <= i < v.len(),
        v[i].receivers == 0,
    ensures
        0 <= first_unheard(v) < v.len(),
        v[first_unheard(v)].receivers == 0,
        forall|j: int| 0 <= j < first_unheard(v) ==> v[j].receivers != 0,
    decreases i,
{
    if exists|j: int| 0 <= j < i && v[j].receivers == 0 {
        let j = choose|j: int| 0 <= j < i && v[j].receivers == 0;
        lemma_unheard_min(v, j);
    } else {
        lemma_first_unheard(v, i);
    }
}

proof fn lemma_retain_keeps(v0: Seq<Channel>, capacity: usize, key: u64)
    requires
        keys_distinct(v0),
        v0.len() <= capacity,
        v0.len() < capacity || has_unheard(v0),
    ensures
        keys_distinct(after_retain(v0, capacity)),
        after_retain(v0, capacity).len() < capacity,
        has_key(after_retain(v0, capacity), key) ==> has_key(v0, key) && after_retain(v0, capacity)[key_index(
            after_retain(v0, capacity),
            key,
        )] == v0[key_index(v0, key)],
{
    let v1 = after_retain(v0, capacity);
    if v0.len() >= capacity {
        let w = choose|i: int| 0 <= i < v0.len() && v0[i].receivers == 0;
        lemma_unheard_min(v0, w);
        let p = first_unheard(v0);
        lemma_remove_distinct(v0, p);
        if has_key(v1, key) {
            let k = key_index(v1, key);
            let k0 = if k < p {
                k
            } else {
                k + 1
            };
            assert(v1[k] == v0[k0]);
            lemma_key_index(v0, key, k0);
        }
    } else if has_key(v1, key) {
        lemma_key_index(v0, key, key_index(v1, key));
    }
}

/// The channels of the event manager, at most `capacity` of them, and the
/// capacity new channels get by default.
#[derive(Debug)]
pub struct EventManager {
    pub channels: Vec<Channel>,
    pub capacity: usize,
    pub default_capacity: usize,
    pub task_running: bool,
}

impl EventManager {
    pub const DEFAULT_CHANNEL_CAPACITY: usize = 128;
    pub const DEFAULT_CHANNELS_CAPACITY: usize = 2048;

    /// No event type has two channels, and there are no more channels
    /// than the capacity allows.
    pub open spec fn well_formed(&self) -> bool {
        &&& keys_distinct(self.channels@)
        &&& self.channels@.len() <= self.capacity
        &&& MIN_CHANNELS_CAPACITY <= self.capacity <= MAX_CHANNELS_CAPACITY
        &&& MIN_CHANNEL_CAPACITY <= self.default_capacity <= MAX_CHANNEL_CAPACITY
    }

    /// A manager with no channel, room for `capacity` channels and
    /// `default_capacity` for new ones, both brought into `8..=8192`.
    pub fn new(capacity: usize, default_capacity: usize) -> (r: EventManager)
        ensures
            r.well_formed(),
            r.channels@.len() == 0,
            r.capacity == clamp(capacity as int, 8, 8192),
            r.default_capacity == clamp(default_capacity as int, 8, 8192),
            !r.task_running,
    {
        let c = if capacity < MIN_CHANNELS_CAPACITY {
            MIN_CHANNELS_CAPACITY
        } else if capacity > MAX_CHANNELS_CAPACITY {
            MAX_CHANNELS_CAPACITY
        } else {
            capacity
        };
        let d = if default_capacity < MIN_CHANNEL_CAPACITY {
            MIN_CHANNEL_CAPACITY
        } else if default_capacity > MAX_CHANNEL_CAPACITY {
            MAX_CHANNEL_CAPACITY
        } else {
            default_capacity
        };
        EventManager { channels: Vec::new(), capacity: c, default_capacity: d, task_running: false }
    }

    /// Where the channel of an event type is.
    fn position(&self, key: u64) -> (r: Option<usize>)
        requires
            keys_distinct(self.channels@),
        ensures
            match r {
                Some(i) => i < self.channels@.len() && has_key(self.channels@, key) && key_index(
                    self.channels@,
                    key,
                ) == i,
                None => !has_key(self.channels@, key),
            },
    {
        let mut i: usize = 0;
        while i < self.channels.len()
            invariant
                0 <= i <= self.channels@.len(),
                keys_distinct(self.channels@),
                forall|j: int| 0 <= j < i ==> self.channels@[j].type_key != key,
            decreases self.channels@.len() - i,
        {
            if self.channels[i].type_key == key {
                proof {
                    lemma_key_index(self.channels@, key, i as int);
                }
                return Some(i);
            }
            i = i + 1;
        }
        None
    }

    /// Whether a channel carries this event type.
    pub fn has(&self, key: u64) -> (r: bool)
        requires
            self.well_formed(),
        ensures
            r == has_key(self.channels@, key),
    {
        self.position(key).is_some()
    }

    /// Makes room for one more channel: true when there is room, after
    /// removing the first channel no receiver listens to when every place
    /// is taken; false when every place is taken by a listened channel.
    fn retain_capacity(&mut self) -> (r: bool)
        requires
            old(self).well_formed(),
        ensures
            final(self).well_formed(),
            final(self).capacity == old(self).capacity,
            final(self).default_capacity == old(self).default_capacity,
            final(self).task_running == old(self).task_running,
            final(self).channels@ == after_retain(old(self).channels@, old(self).capacity),
            r == (old(self).channels@.len() < old(self).capacity || has_unheard(old(self).channels@)),
    {
        if self.channels.len() < self.capacity {
            return true;
        }
        let mut i: usize = 0;
        while i < self.channels.len()
            invariant
                0 <= i <= self.channels@.len(),
                *self == *old(self),
                old(self).well_formed(),
                self.channels@.len() >= self.capacity,
                forall|j: int| 0 <= j < i ==> self.channels@[j].receivers != 0,
            decreases self.channels@.len() - i,
        {
            if self.channels[i].receivers == 0 {
                proof {
                    lemma_first_unheard(self.channels@, i as int);
                    lemma_remove_distinct(self.channels@, i as int);
                }
                self.channels.remove(i);
                return true;
            }
            i = i + 1;
        }
        false
    }

    /// One more receiver on the channel of `key`, created with the given
    /// capacity where there is none.
    fn add_subscriber(&mut self, key: u64, capacity: usize)
        requires
            old(self).well_formed(),
            has_key(old(self).channels@, key) || old(self).channels@.len() < old(self).capacity,
            has_key(old(self).channels@, key) ==> old(self).channels@[key_index(
                old(self).channels@,
                key,
            )].receivers < usize::MAX / 4,
        ensures
            final(self).well_formed(),
            final(self).capacity == old(self).capacity,
            final(self).default_capacity == old(self).default_capacity,
            final(self).task_running == old(self).task_running,
            final(self).channels@ == with_subscriber(old(self).channels@, key, capacity as int),
    {
        let ghost v1 = self.channels@;
        match self.position(key) {
            Some(i) => {
                let old_c = self.channels[i];
                let n = Channel { type_key: key, capacity: old_c.capacity, receivers: old_c.receivers + 1 };
                self.channels.set(i, n);
                proof {
                    assert forall|a: int, b: int|
                        0 <= a < self.channels@.len() && 0 <= b < self.channels@.len() && a != b implies self.channels@[a].type_key
                        != self.channels@[b].type_key by {
                        if a != i && b != i {
                            assert(self.channels@[a] == v1[a]);
                            assert(self.channels@[b] == v1[b]);
                        } else if a == i {
                            assert(self.channels@[b] == v1[b]);
                        } else {
                            assert(self.channels@[a] == v1[a]);
                        }
                    }
                }
            },
            None => {
                self.channels.push(Channel { type_key: key, capacity, receivers: 1 });
                proof {
                    assert forall|a: int, b: int|
                        0 <= a < self.channels@.len() && 0 <= b < self.channels@.len() && a != b implies self.channels@[a].type_key
                        != self.channels@[b].type_key by {
                        if a < v1.len() && b < v1.len() {
                            assert(self.channels@[a] == v1[a]);
                            assert(self.channels@[b] == v1[b]);
                        } else if a < v1.len() {
                            assert(self.channels@[a] == v1[a]);
                        } else {
                            assert(self.channels@[b] == v1[b]);
                        }
                    }
                }
            },
        }
    }

    /// Subscribes a receiver to the channel of an event type, as
    /// `with_subscriber` says, after making room as `after_retain` says; a
    /// new channel gets `capacity` brought into `8..=8192`. An error of
    /// kind `Other`, with nothing changed, when every place is taken by a
    /// channel that someone listens to.
    pub fn subscribe_with_capacity(&mut self, key: u64, capacity: usize) -> (r: Result<(), Error>)
        requires
            old(self).well_formed(),
            has_key(old(self).channels@, key) ==> old(self).channels@[key_index(
                old(self).channels@,
                key,
            )].receivers < usize::MAX / 4,
        ensures
            final(self).well_formed(),
            final(self).capacity == old(self).capacity,
            final(self).default_capacity == old(self).default_capacity,
            final(self).task_running == old(self).task_running,
            match r {
                Ok(()) => final(self).channels@ == with_subscriber(
                    after_retain(old(self).channels@, old(self).capacity),
                    key,
                    clamp(capacity as int, 8, 8192),
                ),
                Err(e) => final(self).channels@ == old(self).channels@ && e@ == (
                    ErrorType::Other,
                    capacity_message(old(self).capacity),
                ),
            },
            r is Err <==> (old(self).channels@.len() >= old(self).capacity && !has_unheard(
                old(self).channels@,
            )),
    {
        let ghost v0 = self.channels@;
        if !self.retain_capacity() {
            let mut t = chars_of("Channel capacity reached: ");
            let d = fmt_u128(self.capacity as u128);
            push_all(&mut t, &d);
            let tail = chars_of(". Consider increasing the capacity or removing unused channels.");
            push_all(&mut t, &tail);
            return Err(Error { error_type: ErrorType::Other, message: string_of(&t) });
        }
        proof {
            lemma_retain_keeps(v0, old(self).capacity, key);
        }
        let c = Channel::new(key, capacity);
        self.add_subscriber(key, c.capacity);
        Ok(())
    }

    /// Subscribes with the default capacity for a new channel.
    pub fn subscribe(&mut self, key: u64) -> (r: Result<(), Error>)
        requires
            old(self).well_formed(),
            has_key(old(self).channels@, key) ==> old(self).channels@[key_index(
                old(self).channels@,
                key,
            )].receivers < usize::MAX / 4,
        ensures
            final(self).well_formed(),
            final(self).capacity == old(self).capacity,
            final(self).default_capacity == old(self).default_capacity,
            match r {
                Ok(()) => final(self).channels@ == with_subscriber(
                    after_retain(old(self).channels@, old(self).capacity),
                    key,
                    old(self).default_capacity as int,
                ),
                Err(e) => final(self).channels@ == old(self).channels@ && e@ == (
                    ErrorType::Other,
                    capacity_message(old(self).capacity),
                ),
            },
            r is Err <==> (old(self).channels@.len() >= old(self).capacity && !has_unheard(
                old(self).channels@,
            )),
    {
        let d = self.default_capacity;
        self.subscribe_with_capacity(key, d)
    }

    /// Removes the channel of an event type and hands it back.
    pub fn remove(&mut self, key: u64) -> (r: Option<Channel>)
        requires
            old(self).well_formed(),
        ensures
            final(self).well_formed(),
            final(self).capacity == old(self).capacity,
            final(self).default_capacity == old(self).default_capacity,
            final(self).task_running == old(self).task_running,
            match r {
                Some(c) => has_key(old(self).channels@, key) && c == old(self).channels@[key_index(
                    old(self).channels@,
                    key,
                )] && final(self).channels@ == old(self).channels@.remove(
                    key_index(old(self).channels@, key),
                ),
                None => !has_key(old(self).channels@, key) && final(self).channels@ == old(
                    self,
                ).channels@,
            },
    {
        match self.position(key) {
            Some(i) => {
                proof {
                    lemma_remove_distinct(self.channels@, i as int);
                }
                let c = self.channels.remove(i);
                Some(c)
            },
            None => None,
        }
    }

    /// Sends an event to the channel of its type: `Ok` with the number of
    /// receivers reached, 0 when no channel carries the type; `Err` when
    /// the channel has no receiver.
    pub fn emit(&self, key: u64) -> (r: Result<usize, ()>)
        requires
            self.well_formed(),
        ensures
            r == if !has_key(self.channels@, key) {
                Ok(0usize)
            } else if self.channels@[key_index(self.channels@, key)].receivers == 0 {
                Err(())
            } else {
                Ok(self.channels@[key_index(self.channels@, key)].receivers)
            },
    {
        match self.position(key) {
            Some(i) => {
                let n = self.channels[i].receivers;
                if n == 0 {
                    Err(())
                } else {
                    Ok(n)
                }
            },
            None => Ok(0),
        }
    }

    /// The event types that have a channel, in order.
    pub fn channels_names(&self) -> (r: Vec<u64>)
        ensures
            r@ == Seq::new(self.channels@.len(), |i: int| self.channels@[i].type_key),
    {
        let mut r: Vec<u64> = Vec::new();
        let mut i: usize = 0;
        while i < self.channels.len()
            invariant
                0 <= i <= self.channels@.len(),
                r@ =~= Seq::new(i as nat, |j: int| self.channels@[j].type_key),
            decreases self.channels@.len() - i,
        {
            r.push(self.channels[i].type_key);
            i = i + 1;
        }
        r
    }

    /// Records how many receivers listen to the channel of an event type,
    /// as counted by the channel itself; nothing when there is none.
    pub fn set_receiver_count(&mut self, key: u64, receivers: usize)
        requires
            old(self).well_formed(),
        ensures
            final(self).well_formed(),
            final(self).capacity == old(self).capacity,
            final(self).default_capacity == old(self).default_capacity,
            final(self).task_running == old(self).task_running,
            final(self).channels@ == if has_key(old(self).channels@, key) {
                let i = key_index(old(self).channels@, key);
                old(self).channels@.update(
                    i,
                    Channel { type_key: key, capacity: old(self).channels@[i].capacity, receivers },
                )
            } else {
                old(self).channels@
            },
    {
        let ghost v1 = self.channels@;
        match self.position(key) {
            Some(i) => {
                let c = self.channels[i];
                self.channels.set(i, Channel { type_key: key, capacity: c.capacity, receivers });
                proof {
                    assert forall|a: int, b: int|
                        0 <= a < self.channels@.len() && 0 <= b < self.channels@.len() && a != b implies self.channels@[a].type_key
                        != self.channels@[b].type_key by {
                        if a != i && b != i {
                            assert(self.channels@[a] == v1[a]);
                            assert(self.channels@[b] == v1[b]);
                        } else if a == i {
                            assert(self.channels@[b] == v1[b]);
                        } else {
                            assert(self.channels@[a] == v1[a]);
                        }
                    }
                }
            },
            None => {},
        }
    }

    /// Removes every channel that no receiver listens to and hands back
    /// their event types, in order.
    pub fn recycle(&mut self) -> (r: Vec<u64>)
        requires
            old(self).well_formed(),
        ensures
            final(self).well_formed(),
            final(self).capacity == old(self).capacity,
            final(self).default_capacity == old(self).default_capacity,
            final(self).task_running == old(self).task_running,
            final(self).channels@ == listened(old(self).channels@),
            r@ == unheard_keys(old(self).channels@),
    {
        let ghost v0 = self.channels@;
        let mut kept: Vec<Channel> = Vec::new();
        let mut gone: Vec<u64> = Vec::new();
        let mut i: usize = 0;
        while i < self.channels.len()
            invariant
                0 <= i <= self.channels@.len(),
                self.channels@ == v0,
                keys_distinct(v0),
                kept@ == listened(v0.take(i as int)),
                gone@ == unheard_keys(v0.take(i as int)),
            decreases self.channels@.len() - i,
        {
            let c = self.channels[i];
            assert(v0.take(i + 1).drop_last() =~= v0.take(i as int));
            assert(v0.take(i + 1).last() == c);
            if c.receivers > 0 {
                kept.push(c);
            } else {
                gone.push(c.type_key);
            }
            i = i + 1;
        }
        assert(v0.take(v0.len() as int) =~= v0);
        proof {
            lemma_listened_sub(v0);
        }
        self.channels = kept;
        gone
    }

    /// Starts the background recycling unless it runs already: true when
    /// it is to be started.
    pub fn begin_auto_recycle(&mut self) -> (r: bool)
        ensures
            r == !old(self).task_running,
            final(self).task_running,
            final(self).channels == old(self).channels,
            final(self).capacity == old(self).capacity,
            final(self).default_capacity == old(self).default_capacity,
    {
        if self.task_running {
            return false;
        }
        self.task_running = true;
        true
    }

    /// One round of the background recycling: the channels no one listens
    /// to are removed; true when the recycling goes on, false when no
    /// channel is left, which ends it.
    pub fn auto_recycle_tick(&mut self) -> (r: bool)
        requires
            old(self).well_formed(),
        ensures
            final(self).well_formed(),
            final(self).channels@ == listened(old(self).channels@),
            r == (final(self).channels@.len() > 0),
            final(self).task_running == (old(self).task_running && r),
            final(self).capacity == old(self).capacity,
            final(self).default_capacity == old(self).default_capacity,
    {
        let _ = self.recycle();
        if self.channels.len() == 0 {
            self.task_running = false;
            return false;
        }
        true
    }
}


impl Default for EventManager {
    /// Room for 2048 channels, 128 for a new one.
    fn default() -> (r: EventManager)
        ensures
            r.well_formed(),
            r.channels@.len() == 0,
            r.capacity == 2048,
            r.default_capacity == 128,
            !r.task_running,
    {
        EventManager::new(Self::DEFAULT_CHANNELS_CAPACITY, Self::DEFAULT_CHANNEL_CAPACITY)
    }
}

/// The channels someone listens to are a part of the channels, in order:
/// each of them is one of the given channels, and none is without a receiver.
proof fn lemma_listened_sub(v: Seq<Channel>)
    ensures
        listened(v).len() <= v.len(),
        forall|i: int| 0 <= i < listened(v).len() ==> #[trigger] listened(v)[i].receivers > 0,
        forall|i: int| 0 <= i < listened(v).len() ==> exists|j: int| 0 <= j < v.len() && #[trigger] listened(v)[i] == v[j],
        keys_distinct(v) ==> keys_distinct(listened(v)),
    decreases v.len(),
{
    if v.len() > 0 {
        lemma_listened_sub(v.drop_last());
        let w = listened(v.drop_last());
        assert forall|i: int| 0 <= i < w.len() implies exists|j: int| 0 <= j < v.len() && #[trigger] w[i] == v[j] by {
            let j = choose|j: int| 0 <= j < v.drop_last().len() && w[i] == v.drop_last()[j];
            assert(v[j] == v.drop_last()[j]);
        }
        if v.last().receivers > 0 {
            let u = w.push(v.last());
            assert forall|i: int| 0 <= i < u.len() implies exists|j: int| 0 <= j < v.len() && #[trigger] u[i] == v[j] by {
                if i < w.len() {
                    assert(u[i] == w[i]);
                } else {
                    assert(u[i] == v[v.len() - 1]);
                }
            }
            if keys_distinct(v) {
                assert(keys_distinct(v.drop_last()));
                assert forall|a: int, b: int| 0 <= a < u.len() && 0 <= b < u.len() && a != b implies u[a].type_key
                    != u[b].type_key by {
                    if a < w.len() && b < w.len() {
                        assert(u[a] == w[a] && u[b] == w[b]);
                    } else if a < w.len() {
                        let ja = choose|j: int| 0 <= j < v.len() && #[trigger] w[a] == v[j];
                        assert(u[a] == w[a]);
                        assert(ja < v.len() - 1 || w[a] == v.last()) by {
                            let jj = choose|j: int| 0 <= j < v.drop_last().len() && w[a] == v.drop_last()[j];
                            assert(v[jj] == v.drop_last()[jj]);
                        }
                    } else {
                        let jb = choose|j: int| 0 <= j < v.len() && #[trigger] w[b] == v[j];
                        assert(u[b] == w[b]);
                    }
                }
            }
        } else if keys_distinct(v) {
            assert(keys_distinct(v.drop_last()));
        }
    }
}

/// Recycling leaves only channels that someone listens to, keeps each
/// such channel, and hands back exactly the event types of the others.
pub proof fn lemma_recycle_keeps_listened(v: Seq<Channel>)
    ensures
        forall|i: int| 0 <= i < listened(v).len() ==> #[trigger] listened(v)[i].receivers > 0,
        forall|i: int| 0 <= i < v.len() && v[i].receivers > 0 ==> listened(v).contains(#[trigger] v[i]),
        forall|i: int| 0 <= i < v.len() && v[i].receivers == 0 ==> unheard_keys(v).contains(#[trigger] v[i].type_key),
    decreases v.len(),
{
    lemma_listened_sub(v);
    if v.len() > 0 {
        lemma_recycle_keeps_listened(v.drop_last());
        assert forall|i: int| 0 <= i < v.len() && v[i].receivers > 0 implies listened(v).contains(#[trigger] v[i]) by {
            if i < v.len() - 1 {
                assert(v[i] == v.drop_last()[i]);
                assert(listened(v.drop_last()).contains(v.drop_last()[i]));
                let k = choose|k: int| 0 <= k < listened(v.drop_last()).len() && listened(v.drop_last())[k] == v.drop_last()[i];
                if v.last().receivers > 0 {
                    assert(listened(v)[k] == listened(v.drop_last())[k]);
                }
            } else {
                assert(listened(v)[listened(v).len() - 1] == v[i]);
            }
        }
        assert forall|i: int| 0 <= i < v.len() && v[i].receivers == 0 implies unheard_keys(v).contains(#[trigger] v[i].type_key) by {
            if i < v.len() - 1 {
                assert(v[i] == v.drop_last()[i]);
                assert(unheard_keys(v.drop_last()).contains(v.drop_last()[i].type_key));
                let k = choose|k: int| 0 <= k < unheard_keys(v.drop_last()).len() && unheard_keys(v.drop_last())[k] == v.drop_last()[i].type_key;
                if v.last().receivers == 0 {
                    assert(unheard_keys(v)[k] == unheard_keys(v.drop_last())[k]);
                }
            } else {
                assert(unheard_keys(v)[unheard_keys(v).len() - 1] == v[i].type_key);
            }
        }
    }
}


/// After a subscription the event type has a channel, with one receiver
/// more than before (one, for a new channel); the other channels stay.
pub proof fn lemma_subscribed_has(v: Seq<Channel>, key: u64, capacity: int)
    requires
        keys_distinct(v),
        0 <= capacity <= usize::MAX,
        has_key(v, key) ==> v[key_index(v, key)].receivers < usize::MAX,
    ensures
        has_key(with_subscriber(v, key, capacity), key),
        with_subscriber(v, key, capacity)[key_index(with_subscriber(v, key, capacity), key)].receivers == if has_key(v, key) {
            v[key_index(v, key)].receivers + 1
        } else {
            1
        },
        forall|i: int| 0 <= i < v.len() && v[i].type_key != key ==> with_subscriber(v, key, capacity)[i] == v[i],
{
    let w = with_subscriber(v, key, capacity);
    if has_key(v, key) {
        let i = key_index(v, key);
        assert(keys_distinct(w)) by {
            assert forall|a: int, b: int| 0 <= a < w.len() && 0 <= b < w.len() && a != b implies w[a].type_key != w[b].type_key by {
                if a == i {
                    assert(w[b] == v[b]);
                } else if b == i {
                    assert(w[a] == v[a]);
                } else {
                    assert(w[a] == v[a] && w[b] == v[b]);
                }
            }
        }
        lemma_key_index(w, key, i);
    } else {
        let n = v.len() as int;
        assert(keys_distinct(w)) by {
            assert forall|a: int, b: int| 0 <= a < w.len() && 0 <= b < w.len() && a != b implies w[a].type_key != w[b].type_key by {
                if a < n && b < n {
                    assert(w[a] == v[a] && w[b] == v[b]);
                } else if a < n {
                    assert(w[a] == v[a]);
                } else {
                    assert(w[b] == v[b]);
                }
            }
        }
        lemma_key_index(w, key, n);
    }
}

} // verus!
