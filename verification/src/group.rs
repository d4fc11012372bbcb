//! A keyed group of records: routes calls to whichever engine is active.

use crate::record::{Record, RecordModel};
use crate::{Command, Error};
use vstd::laws_eq::obeys_concrete_eq;
use vstd::prelude::*;

verus! {

/// The first position in `items` whose key equals `k`; the length when
/// no key matches.
pub open spec fn key_index<K, V>(items: Seq<(K, V)>, k: K) -> int
    decreases items.len(),
{
    if items.len() == 0 {
        0
    } else if items[0].0 == k {
        0
    } else {
        1 + key_index(items.skip(1), k)
    }
}

/// The position `key_index` finds: within the sequence, a matching key
/// when it is a proper position, and nothing below it matches.
pub proof fn lemma_key_index<K, V>(items: Seq<(K, V)>, k: K)
    ensures
        0 <= key_index(items, k) <= items.len(),
        key_index(items, k) < items.len() ==> items[key_index(items, k)].0 == k,
        forall|i: int| 0 <= i < key_index(items, k) ==> items[i].0 != k,
    decreases items.len(),
{
    if items.len() > 0 && items[0].0 != k {
        lemma_key_index(items.skip(1), k);
        assert forall|i: int| 0 <= i < key_index(items, k) implies items[i].0 != k by {
            if i > 0 {
                assert(items.skip(1)[i - 1] == items[i]);
            }
        }
        if key_index(items, k) < items.len() {
            assert(items.skip(1)[key_index(items.skip(1), k)] == items[key_index(items, k)]);
        }
    }
}

/// A position below which no key matches, holding a match or being the
/// length, is the position `key_index` finds.
pub proof fn lemma_key_index_is<K, V>(items: Seq<(K, V)>, k: K, i: int)
    requires
        0 <= i <= items.len(),
        forall|p: int| 0 <= p < i ==> items[p].0 != k,
        i < items.len() ==> items[i].0 == k,
    ensures
        key_index(items, k) == i,
    decreases i,
{
    if i == 0 {
    } else {
        assert(items[0].0 != k);
        assert forall|p: int| 0 <= p < i - 1 implies items.skip(1)[p].0 != k by {
            assert(items.skip(1)[p] == items[p + 1]);
        }
        assert(i - 1 < items.skip(1).len() ==> items.skip(1)[i - 1].0 == k);
        lemma_key_index_is(items.skip(1), k, i - 1);
    }
}

/// A group of records.
///
/// A keyed mapping from identifiers to engines, with at most one active
/// key at a time. Calls are forwarded to the active engine and return
/// `None` when nothing is active. Changes of the active entry are
/// reported, when enabled, as a list of events: the position of the
/// newly active entry, or `None` for none.
///
/// The key contracts hold whenever the key type's `==` behaves as plain
/// equality, as [`obeys_concrete_eq`] states it.
pub struct Group<K, V> {
    /// The keyed engines, in insertion order, keys unique.
    pub items: Vec<(K, V)>,
    /// The position of the active entry, if one is set.
    pub active: Option<usize>,
    /// The recorded activity changes, oldest first, when enabled.
    pub signals: Option<Vec<Option<usize>>>,
}

impl<K: PartialEq, V> Group<K, V> {
    /// The structural invariant: the active position stays within the
    /// items, and, whenever the key type's `==` behaves as plain
    /// equality, no two items share a key.
    pub open spec fn inv(self) -> bool {
        &&& match self.active {
            Some(a) => a < self.items@.len(),
            None => true,
        }
        &&& obeys_concrete_eq::<K>() ==> forall|i: int, j: int|
            0 <= i < j < self.items@.len() ==> self.items@[i].0 != self.items@[j].0
    }

    /// Returns a new group.
    pub fn new() -> (group: Group<K, V>)
        ensures
            group.items@.len() == 0,
            group.active is None,
            group.signals is None,
            group.inv(),
    {
        Group { items: Vec::new(), active: None, signals: None }
    }

    /// Returns a builder for a group.
    pub fn builder() -> (builder: GroupBuilder)
        ensures
            builder == (GroupBuilder { capacity: 0, signals: false }),
    {
        GroupBuilder { capacity: 0, signals: false }
    }

    /// Reserves capacity for at least `additional` more items.
    pub fn reserve(&mut self, additional: usize)
        ensures
            final(self).items@ == old(self).items@,
            final(self).active == old(self).active,
            final(self).signals == old(self).signals,
    {
        self.items.reserve(additional);
    }

    /// Returns the capacity of the group.
    pub fn capacity(&self) -> (capacity: usize)
        ensures
            capacity >= self.items@.len(),
    {
        crate::vec_capacity(&self.items)
    }

    /// Returns the number of items in the group.
    pub fn len(&self) -> (len: usize)
        ensures
            len == self.items@.len(),
    {
        self.items.len()
    }

    /// Returns `true` if the group is empty.
    pub fn is_empty(&self) -> (empty: bool)
        ensures
            empty == (self.items@.len() == 0),
    {
        self.items.len() == 0
    }

    /// Starts recording activity changes, replacing what was recorded
    /// before.
    pub fn set_signals(&mut self)
        ensures
            final(self).items == old(self).items,
            final(self).active == old(self).active,
            final(self).signals matches Some(events) && events@.len() == 0,
    {
        self.signals = Some(Vec::new());
    }

    /// Removes and returns the recorded activity changes.
    pub fn take_signals(&mut self) -> (events: Option<Vec<Option<usize>>>)
        ensures
            final(self).items == old(self).items,
            final(self).active == old(self).active,
            final(self).signals is None,
            events == old(self).signals,
    {
        self.signals.take()
    }

    /// The position of the key `k`, or the length when it is absent.
    fn find(&self, k: &K) -> (pos: usize)
        ensures
            obeys_concrete_eq::<K>() ==> pos == key_index(self.items@, *k),
            pos <= self.items@.len(),
    {
        let ghost items0 = self.items@;
        let mut i: usize = 0;
        while i < self.items.len()
            invariant
                i <= items0.len(),
                self.items@ == items0,
                obeys_concrete_eq::<K>() ==> forall|p: int| 0 <= p < i ==> items0[p].0 != *k,
            decreases items0.len() - i,
        {
            let hit = self.items[i].0 == *k;
            proof {
                if obeys_concrete_eq::<K>() {
                    reveal(vstd::laws_eq::obeys_concrete_eq);
                    assert(hit == (items0[i as int].0 == *k));
                    if hit {
                        lemma_key_index_is(items0, *k, i as int);
                    }
                }
            }
            if hit {
                return i;
            }
            i = i + 1;
        }
        proof {
            if obeys_concrete_eq::<K>() {
                lemma_key_index_is(items0, *k, items0.len() as int);
            }
        }
        i
    }

    /// Inserts an item into the group, replacing and returning the value
    /// stored under an equal key.
    pub fn insert(&mut self, k: K, v: V) -> (previous: Option<V>)
        requires
            old(self).inv(),
        ensures
            final(self).inv(),
            final(self).active == old(self).active,
            final(self).signals == old(self).signals,
            obeys_concrete_eq::<K>() ==> ({
                let at = key_index(old(self).items@, k);
                if at < old(self).items@.len() {
                    &&& previous == Some(old(self).items@[at].1)
                    &&& final(self).items@ == old(self).items@.update(at, (k, v))
                } else {
                    &&& previous is None
                    &&& final(self).items@ == old(self).items@.push((k, v))
                }
            }),
    {
        proof {
            if obeys_concrete_eq::<K>() {
                lemma_key_index(old(self).items@, k);
            }
        }
        let at = self.find(&k);
        if at < self.items.len() {
            let mut pair = (k, v);
            core::mem::swap(&mut pair, &mut self.items[at]);
            Some(pair.1)
        } else {
            self.items.push((k, v));
            None
        }
    }

    /// Removes the item stored under an equal key and returns its value.
    /// Removing the active item leaves the group with nothing active;
    /// removing an item below it keeps the same entry active.
    pub fn remove(&mut self, k: &K) -> (removed: Option<V>)
        requires
            old(self).inv(),
        ensures
            final(self).inv(),
            final(self).signals == old(self).signals,
            obeys_concrete_eq::<K>() ==> ({
                let at = key_index(old(self).items@, *k);
                if at < old(self).items@.len() {
                    &&& removed == Some(old(self).items@[at].1)
                    &&& final(self).items@ == old(self).items@.remove(at)
                } else {
                    &&& removed is None
                    &&& final(self).items@ == old(self).items@
                }
            }),
    {
        let at = self.find(k);
        if at < self.items.len() {
            let pair = self.items.remove(at);
            self.active = match self.active {
                Some(a) => if a == at {
                    None
                } else if a > at {
                    Some(a - 1)
                } else {
                    Some(a)
                },
                None => None,
            };
            proof {
                if obeys_concrete_eq::<K>() {
                    assert forall|i: int, j: int|
                        0 <= i < j < self.items@.len() implies self.items@[i].0
                        != self.items@[j].0 by {
                        assert(self.items@[i] == (if i < at {
                            old(self).items@[i]
                        } else {
                            old(self).items@[i + 1]
                        }));
                        assert(self.items@[j] == (if j < at {
                            old(self).items@[j]
                        } else {
                            old(self).items@[j + 1]
                        }));
                    }
                }
            }
            Some(pair.1)
        } else {
            None
        }
    }

    /// Gets a reference to the value of the current active item.
    pub fn get(&self) -> (value: Option<&V>)
        requires
            self.inv(),
        ensures
            match self.active {
                Some(a) => value == Some(&self.items@[a as int].1),
                None => value is None,
            },
    {
        match self.active {
            Some(a) => Some(&self.items[a].1),
            None => None,
        }
    }

    /// Gets a mutable reference to the value of the current active item.
    pub fn get_mut(&mut self) -> (value: Option<&mut V>)
        requires
            old(self).inv(),
        ensures
            final(self).active == old(self).active,
            final(self).signals == old(self).signals,
            final(self).inv(),
            old(self).active is None ==> value is None && final(self).items == old(self).items,
            match old(self).active {
                Some(a) => (value matches Some(r) && *r == old(self).items@[a as int].1 && final(self).items@ == old(self).items@.update(
                    a as int,
                    (old(self).items@[a as int].0, *final(r)),
                )),
                None => value is None,
            },
    {
        match self.active {
            Some(a) => Some(&mut self.items[a].1),
            None => None,
        }
    }

    /// Sets the current active item to the one stored under an equal
    /// key. Returns `None` if it was set; when the key is unknown, the
    /// group is unchanged and `k` is handed back. Switching away from a
    /// different active entry is recorded, when enabled; activating from
    /// nothing is not.
    pub fn set(&mut self, k: K) -> (rejected: Option<K>)
        requires
            old(self).inv(),
        ensures
            final(self).inv(),
            final(self).items == old(self).items,
            obeys_concrete_eq::<K>() ==> ({
                let at = key_index(old(self).items@, k);
                if at < old(self).items@.len() {
                    &&& rejected is None
                    &&& final(self).active == Some(at as usize)
                    &&& match (old(self).signals, final(self).signals) {
                        (Some(before), Some(after)) => after@ == (
                        if old(self).active matches Some(a) && a != at {
                            before@.push(Some(at as usize))
                        } else {
                            before@
                        }),
                        (None, None) => true,
                        _ => false,
                    }
                } else {
                    &&& rejected == Some(k)
                    &&& final(self).active == old(self).active
                    &&& final(self).signals == old(self).signals
                }
            }),
    {
        let at = self.find(&k);
        if at < self.items.len() {
            let changed = match self.active {
                Some(a) => a != at,
                None => false,
            };
            if changed {
                match &mut self.signals {
                    Some(events) => events.push(Some(at)),
                    None => (),
                }
            }
            self.active = Some(at);
            None
        } else {
            Some(k)
        }
    }

    /// Unsets the current active item; nothing is reported when nothing
    /// was active.
    pub fn unset(&mut self)
        requires
            old(self).inv(),
        ensures
            final(self).inv(),
            final(self).items == old(self).items,
            final(self).active is None,
            old(self).active is None ==> final(self).signals == old(self).signals,
            old(self).active is Some ==> match (old(self).signals, final(self).signals) {
                (Some(a), Some(b)) => b@ == a@.push(None::<usize>),
                (None, None) => true,
                _ => false,
            },
    {
        if self.active.is_some() {
            self.active = None;
            match &mut self.signals {
                Some(events) => events.push(None),
                None => (),
            }
        }
    }
}

impl<K: PartialEq, R, C: Command<R>> Group<K, Record<R, C>> {
    /// Every record of the group stays within its cursor bound.
    pub open spec fn records_bounded(self) -> bool {
        forall|i: int|
            0 <= i < self.items@.len() ==> (#[trigger] self.items@[i].1).bounded()
    }

    /// The group after an operation that touched only the active record,
    /// leaving it with the model `m` and the slot `s`.
    pub open spec fn with_active(self, m: RecordModel<R, C>, s: Option<crate::Slot>) -> bool {
        match self.active {
            Some(a) => self.items@[a as int].1@ == m && self.items@[a as int].1.slot == s,
            None => false,
        }
    }

    /// Everything but the active record's value is unchanged between the
    /// two group states.
    pub open spec fn same_but_active(pre: Self, post: Self) -> bool {
        &&& post.active == pre.active
        &&& post.signals == pre.signals
        &&& post.items@.len() == pre.items@.len()
        &&& forall|i: int|
            0 <= i < pre.items@.len() && Some(i as usize) != pre.active ==> post.items@[i]
                == pre.items@[i]
        &&& match pre.active {
            Some(a) => post.items@[a as int].0 == pre.items@[a as int].0,
            None => true,
        }
    }

    /// Marks the active record's receiver as saved. Returns `None` when
    /// nothing is active.
    pub fn set_saved(&mut self) -> (res: Option<()>)
        requires
            old(self).inv(),
            old(self).records_bounded(),
        ensures
            final(self).inv(),
            final(self).records_bounded(),
            Self::same_but_active(*old(self), *final(self)),
            res is None <==> old(self).active is None,
            old(self).active matches Some(a) ==> final(self).items@[a as int].1@ == (RecordModel {
                saved: Some(old(self).items@[a as int].1@.current),
                ..old(self).items@[a as int].1@
            }),
    {
        match self.active {
            Some(a) => {
                self.items[a].1.set_saved(true);
                Some(())
            },
            None => None,
        }
    }

    /// Marks the active record's receiver as unsaved. Returns `None`
    /// when nothing is active.
    pub fn set_unsaved(&mut self) -> (res: Option<()>)
        requires
            old(self).inv(),
            old(self).records_bounded(),
        ensures
            final(self).inv(),
            final(self).records_bounded(),
            Self::same_but_active(*old(self), *final(self)),
            res is None <==> old(self).active is None,
            old(self).active matches Some(a) ==> final(self).items@[a as int].1@ == (RecordModel {
                saved: None,
                ..old(self).items@[a as int].1@
            }),
    {
        match self.active {
            Some(a) => {
                self.items[a].1.set_saved(false);
                Some(())
            },
            None => None,
        }
    }

    /// Says whether the active record's receiver is in a saved state.
    /// Returns `None` when nothing is active.
    pub fn is_saved(&self) -> (res: Option<bool>)
        requires
            self.inv(),
        ensures
            res is None <==> self.active is None,
            self.active matches Some(a) ==> res == Some(self.items@[a as int].1@.is_saved()),
    {
        match self.active {
            Some(a) => Some(self.items[a].1.is_saved()),
            None => None,
        }
    }

    /// Calls apply on the active record. Returns `None` when nothing is
    /// active.
    pub fn apply(&mut self, command: C) -> (res: Option<Result<(), Error<R, C>>>)
        requires
            old(self).inv(),
            old(self).records_bounded(),
        ensures
            final(self).inv(),
            final(self).records_bounded(),
            Self::same_but_active(*old(self), *final(self)),
            res is None <==> old(self).active is None,
            res matches Some(r) ==> r is Ok ==> (old(self).active matches Some(a)
                && command.can_apply(old(self).items@[a as int].1@.receiver) && (exists|ts: i64|
                #[trigger] crate::record::applied_at(
                    old(self).items@[a as int].1@,
                    old(self).items@[a as int].1.slot,
                    final(self).items@[a as int].1@,
                    final(self).items@[a as int].1.slot,
                    command,
                    ts,
                ))),
    {
        match self.active {
            Some(a) => Some(self.items[a].1.apply(command)),
            None => None,
        }
    }

    /// Calls undo on the active record. Returns `None` when nothing is
    /// active or there is nothing to undo.
    pub fn undo(&mut self) -> (res: Option<Result<(), Error<R, C>>>)
        requires
            old(self).inv(),
            old(self).records_bounded(),
        ensures
            final(self).inv(),
            final(self).records_bounded(),
            Self::same_but_active(*old(self), *final(self)),
            res is None <==> (old(self).active is None || (old(self).active matches Some(a)
                && old(self).items@[a as int].1@.current == 0)),
            res is None ==> (old(self).active matches Some(a) ==> final(self).items@[a as int].1@
                == old(self).items@[a as int].1@ && final(self).items@[a as int].1.slot == old(self).items@[a as int].1.slot),
            res matches Some(r) ==> r is Ok ==> (old(self).active matches Some(a) && final(self).items@[a as int].1@ == old(self).items@[a as int].1@.undo_step().0),
            res matches Some(r) ==> r matches Err(err) ==> (old(self).active matches Some(a)
                && ({
                let m = old(self).items@[a as int].1@;
                let at = m.current - 1;
                &&& final(self).items@[a as int].1@.log == m.log.remove(at)
                &&& final(self).items@[a as int].1@.current == at
                &&& final(self).items@[a as int].1@.saved == m.saved_after_evict(at)
                &&& err.entry.timestamp == m.log[at].timestamp
            })),
    {
        match self.active {
            Some(a) => self.items[a].1.undo(),
            None => None,
        }
    }

    /// Calls redo on the active record. Returns `None` when nothing is
    /// active or there is nothing to redo.
    pub fn redo(&mut self) -> (res: Option<Result<(), Error<R, C>>>)
        requires
            old(self).inv(),
            old(self).records_bounded(),
        ensures
            final(self).inv(),
            final(self).records_bounded(),
            Self::same_but_active(*old(self), *final(self)),
            res is None <==> (old(self).active is None || (old(self).active matches Some(a)
                && old(self).items@[a as int].1@.current == old(self).items@[a as int].1@.log.len())),
            res is None ==> (old(self).active matches Some(a) ==> final(self).items@[a as int].1@
                == old(self).items@[a as int].1@ && final(self).items@[a as int].1.slot == old(self).items@[a as int].1.slot),
            res matches Some(r) ==> r is Ok ==> (old(self).active matches Some(a) && final(self).items@[a as int].1@ == old(self).items@[a as int].1@.redo_step().0),
            res matches Some(r) ==> r matches Err(err) ==> (old(self).active matches Some(a)
                && ({
                let m = old(self).items@[a as int].1@;
                let at = m.current;
                &&& final(self).items@[a as int].1@.log == m.log.remove(at)
                &&& final(self).items@[a as int].1@.current == at
                &&& final(self).items@[a as int].1@.saved == m.saved_after_evict(at)
                &&& err.entry.timestamp == m.log[at].timestamp
            })),
    {
        match self.active {
            Some(a) => self.items[a].1.redo(),
            None => None,
        }
    }

    /// Returns the keyed records, in insertion order.
    pub fn records(&self) -> (records: &Vec<(K, Record<R, C>)>)
        ensures
            records@ == self.items@,
    {
        &self.items
    }

    /// Renders the command the active record would undo next, using the
    /// given formatter. Returns `None` when nothing is active or there
    /// is nothing to undo.
    pub fn to_undo_string<F: Fn(&C) -> String>(&self, f: F) -> (res: Option<String>)
        requires
            self.inv(),
            self.records_bounded(),
            forall|c: &C| #[trigger] f.requires((c,)),
        ensures
            self.active is None ==> res is None,
    {
        match self.active {
            Some(a) => self.items[a].1.to_undo_string(f),
            None => None,
        }
    }

    /// Renders the command the active record would redo next, using the
    /// given formatter. Returns `None` when nothing is active or there
    /// is nothing to redo.
    pub fn to_redo_string<F: Fn(&C) -> String>(&self, f: F) -> (res: Option<String>)
        requires
            self.inv(),
            self.records_bounded(),
            forall|c: &C| #[trigger] f.requires((c,)),
        ensures
            self.active is None ==> res is None,
    {
        match self.active {
            Some(a) => self.items[a].1.to_redo_string(f),
            None => None,
        }
    }
}

/// Builder for a group.
pub struct GroupBuilder {
    /// The item storage to preallocate.
    pub capacity: usize,
    /// Whether the built group records activity changes.
    pub signals: bool,
}

impl GroupBuilder {
    /// Sets the capacity for the group.
    pub fn capacity(self, capacity: usize) -> (builder: GroupBuilder)
        ensures
            builder == (GroupBuilder { capacity, ..self }),
    {
        GroupBuilder { capacity, ..self }
    }

    /// Decides whether the group records activity changes.
    pub fn signals(self, signals: bool) -> (builder: GroupBuilder)
        ensures
            builder == (GroupBuilder { signals, ..self }),
    {
        GroupBuilder { signals, ..self }
    }

    /// Creates the group.
    pub fn build<K: PartialEq, V>(self) -> (group: Group<K, V>)
        ensures
            group.items@.len() == 0,
            group.active is None,
            group.signals is Some <==> self.signals,
            group.inv(),
    {
        Group {
            items: Vec::with_capacity(self.capacity),
            active: None,
            signals: if self.signals {
                Some(Vec::new())
            } else {
                None
            },
        }
    }
}

} // verus!
