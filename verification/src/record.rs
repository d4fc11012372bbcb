//! The linear undo-redo engine: a log of entries with a cursor.

use crate::{Command, Entry, Error, Merge, Signal, Slot, slot_emits};
use std::collections::VecDeque;
use vstd::prelude::*;

verus! {

/// The mathematical state of a [`Record`]: its log, receiver, cursor,
/// limit and saved marker. The connected slot is described separately,
/// through [`slot_emits`].
#[verifier::ext_equal]
pub ghost struct RecordModel<R, C> {
    /// The logged entries, oldest first.
    pub log: Seq<Entry<C>>,
    /// The receiver state.
    pub receiver: R,
    /// The boundary between the applied prefix and the redoable suffix.
    pub current: int,
    /// The largest number of entries the log may hold.
    pub limit: int,
    /// The cursor position considered persisted, if one is known.
    pub saved: Option<int>,
}

impl<R, C> RecordModel<R, C> {
    /// The structural invariant: the cursor and the saved marker stay
    /// within the log, the log stays within its positive limit, and the
    /// entries are ordered by creation time.
    pub open spec fn inv(self) -> bool {
        &&& 0 <= self.current <= self.log.len()
        &&& self.log.len() <= self.limit
        &&& 1 <= self.limit
        &&& match self.saved {
            Some(s) => 0 <= s <= self.log.len(),
            None => true,
        }
        &&& sorted_by_time(self.log)
    }

    /// The bare bound the engine's stepping needs: the cursor stays
    /// within the log.
    pub open spec fn bounds(self) -> bool {
        0 <= self.current <= self.log.len()
    }

    /// Whether the receiver counts as saved: the saved marker exists and
    /// sits exactly at the cursor.
    pub open spec fn is_saved(self) -> bool {
        self.saved == Some(self.current)
    }

    /// Whether an undo step is available.
    pub open spec fn can_undo(self) -> bool {
        self.current > 0
    }

    /// Whether a redo step is available.
    pub open spec fn can_redo(self) -> bool {
        self.current < self.log.len()
    }
}

impl<R, C: Command<R>> RecordModel<R, C> {
    /// The log, cursor and saved marker after a plain push of `e` onto the
    /// applied prefix `prefix`, evicting the oldest entry when the limit
    /// was reached; the final component reports that nothing was merged.
    pub open spec fn push_step(self, prefix: Seq<Entry<C>>, e: Entry<C>, saved: Option<int>) -> (
        Seq<Entry<C>>,
        int,
        Option<int>,
        bool,
    ) {
        if self.limit == self.current {
            let kept = if prefix.len() > 0 {
                prefix.skip(1)
            } else {
                prefix
            };
            (kept.push(e), self.current, shift_saved(saved, 1), false)
        } else {
            (prefix.push(e), self.current + 1, saved, false)
        }
    }

    /// The state after a successful apply of `e`: the redoable suffix is
    /// discarded, the new entry is merged into the tail entry unless the
    /// receiver was saved, and the outcome of the merge decides what the
    /// log keeps. Returns the new state, whether the entry was merged or
    /// annulled away, and the signals emitted.
    pub open spec fn apply_step(self, e: Entry<C>) -> (RecordModel<R, C>, bool, Seq<Signal>) {
        let (c2, r2) = e.command.after_apply(self.receiver);
        let prefix = self.log.take(self.current);
        let was_saved = self.is_saved();
        let saved1 = match self.saved {
            Some(s) => if s <= self.current {
                Some(s)
            } else {
                None
            },
            None => None,
        };
        let ts = if self.current > 0 && prefix.last().timestamp > e.timestamp {
            prefix.last().timestamp
        } else {
            e.timestamp
        };
        let parts = if self.current > 0 && !was_saved {
            match prefix.last().command.merge_out(c2) {
                Merge::Yes => (
                    prefix.update(
                        self.current - 1,
                        Entry {
                            command: prefix.last().command.merge_keep(c2),
                            timestamp: prefix.last().timestamp,
                        },
                    ),
                    self.current,
                    saved1,
                    true,
                ),
                Merge::Annul => (prefix.drop_last(), self.current - 1, saved1, true),
                Merge::No(c) => self.push_step(
                    prefix.update(
                        self.current - 1,
                        Entry {
                            command: prefix.last().command.merge_keep(c2),
                            timestamp: prefix.last().timestamp,
                        },
                    ),
                    Entry { command: c, timestamp: ts },
                    saved1,
                ),
            }
        } else {
            self.push_step(prefix, Entry { command: c2, timestamp: ts }, saved1)
        };
        let post = RecordModel {
            log: parts.0,
            receiver: r2,
            current: parts.1,
            limit: self.limit,
            saved: parts.2,
        };
        let sigs = seq![
            Signal::Cursor { old: self.current as usize, new: parts.1 as usize },
        ] + (if self.can_redo() {
            seq![Signal::Redo(false)]
        } else {
            Seq::empty()
        }) + (if !self.can_undo() {
            seq![Signal::Undo(true)]
        } else {
            Seq::empty()
        }) + (if was_saved {
            seq![Signal::Saved(false)]
        } else {
            Seq::empty()
        });
        (post, parts.3, sigs)
    }

    /// The state after a successful undo of the entry below the cursor:
    /// the entry stays in the log with its command left as the undo left
    /// it, and the cursor steps back. Returns the new state and the
    /// signals emitted.
    pub open spec fn undo_step(self) -> (RecordModel<R, C>, Seq<Signal>) {
        let e = self.log[self.current - 1];
        let (c2, r2) = e.command.after_undo(self.receiver);
        let post = RecordModel {
            log: self.log.update(self.current - 1, Entry { command: c2, timestamp: e.timestamp }),
            receiver: r2,
            current: self.current - 1,
            limit: self.limit,
            saved: self.saved,
        };
        let sigs = seq![
            Signal::Cursor { old: self.current as usize, new: (self.current - 1) as usize },
        ] + (if self.current == self.log.len() {
            seq![Signal::Redo(true)]
        } else {
            Seq::empty()
        }) + (if self.current == 1 {
            seq![Signal::Undo(false)]
        } else {
            Seq::empty()
        }) + (if self.is_saved() != post.is_saved() {
            seq![Signal::Saved(post.is_saved())]
        } else {
            Seq::empty()
        });
        (post, sigs)
    }

    /// The state after a successful redo of the entry at the cursor:
    /// symmetric to [`RecordModel::undo_step`].
    pub open spec fn redo_step(self) -> (RecordModel<R, C>, Seq<Signal>) {
        let e = self.log[self.current];
        let (c2, r2) = e.command.after_redo(self.receiver);
        let post = RecordModel {
            log: self.log.update(self.current, Entry { command: c2, timestamp: e.timestamp }),
            receiver: r2,
            current: self.current + 1,
            limit: self.limit,
            saved: self.saved,
        };
        let sigs = seq![
            Signal::Cursor { old: self.current as usize, new: (self.current + 1) as usize },
        ] + (if self.current == self.log.len() - 1 {
            seq![Signal::Redo(false)]
        } else {
            Seq::empty()
        }) + (if self.current == 0 {
            seq![Signal::Undo(true)]
        } else {
            Seq::empty()
        }) + (if self.is_saved() != post.is_saved() {
            seq![Signal::Saved(post.is_saved())]
        } else {
            Seq::empty()
        });
        (post, sigs)
    }

    /// The saved marker after the log position `at` was evicted because
    /// its entry failed: positions above it shift down, the rest stay.
    pub open spec fn saved_after_evict(self, at: int) -> Option<int> {
        match self.saved {
            Some(s) => if s > at {
                Some(s - 1)
            } else {
                Some(s)
            },
            None => None,
        }
    }

    /// The state after the limit is set to `n`: when `n` is smaller than
    /// the log, the oldest entries are dropped until the log fits, but
    /// never past the cursor, and the limit recorded is the length that
    /// was actually reached.
    pub open spec fn limit_step(self, n: int) -> RecordModel<R, C> {
        if n >= self.log.len() {
            RecordModel { limit: n, ..self }
        } else {
            let begin = if self.current < self.log.len() - n {
                self.current
            } else {
                self.log.len() - n
            };
            RecordModel {
                log: self.log.skip(begin),
                receiver: self.receiver,
                current: self.current - begin,
                limit: self.log.len() - begin,
                saved: shift_saved(self.saved, begin),
            }
        }
    }

    /// The signals a limit reduction emits: the edges between the states
    /// before and after, in the order cursor, undo, saved.
    pub open spec fn limit_signals(self, n: int) -> Seq<Signal> {
        if n >= self.log.len() {
            Seq::empty()
        } else {
            let post = self.limit_step(n);
            (if self.current != post.current {
                seq![
                    Signal::Cursor { old: self.current as usize, new: post.current as usize },
                ]
            } else {
                Seq::empty()
            }) + (if self.can_undo() != post.can_undo() {
                seq![Signal::Undo(post.can_undo())]
            } else {
                Seq::empty()
            }) + (if self.is_saved() != post.is_saved() {
                seq![Signal::Saved(post.is_saved())]
            } else {
                Seq::empty()
            })
        }
    }

    /// The state a walk of undo and redo steps reaches: the cursor is
    /// driven to `target`, one step at a time.
    pub open spec fn goto_walk(self, target: int) -> RecordModel<R, C>
        decreases (if target <= self.current {
            self.current - target
        } else {
            target - self.current
        }),
    {
        if target < self.current {
            self.undo_step().0.goto_walk(target)
        } else if target > self.current {
            self.redo_step().0.goto_walk(target)
        } else {
            self
        }
    }

    /// The aggregate edge signals a finished walk to `target` emits,
    /// comparing only the states before and after the whole walk.
    pub open spec fn goto_signals(self, target: int) -> Seq<Signal> {
        let len = self.log.len() as int;
        (if self.current != target {
            seq![Signal::Cursor { old: self.current as usize, new: target as usize }]
        } else {
            Seq::empty()
        }) + (if self.can_undo() != (target > 0) {
            seq![Signal::Undo(target > 0)]
        } else {
            Seq::empty()
        }) + (if self.can_redo() != (target < len) {
            seq![Signal::Redo(target < len)]
        } else {
            Seq::empty()
        }) + (if self.is_saved() != (self.saved == Some(target)) {
            seq![Signal::Saved(self.saved == Some(target))]
        } else {
            Seq::empty()
        })
    }
}

impl<R, C: Command<R>> RecordModel<R, C> {
    /// The state after applying each command in `cmds` in order, the
    /// entry of the k-th stamped with `tss[k]`.
    pub open spec fn apply_chain(self, cmds: Seq<C>, tss: Seq<i64>) -> RecordModel<R, C>
        decreases cmds.len(),
    {
        if cmds.len() == 0 {
            self
        } else {
            self.apply_step(Entry { command: cmds[0], timestamp: tss[0] }).0.apply_chain(
                cmds.skip(1),
                tss.skip(1),
            )
        }
    }
}

/// Applying one more command continues the chain: the chain of
/// `cmds + [c]` is the chain of `cmds` followed by one apply step.
pub proof fn lemma_apply_chain_snoc<R, C: Command<R>>(
    m: RecordModel<R, C>,
    cmds: Seq<C>,
    tss: Seq<i64>,
    c: C,
    ts: i64,
)
    requires
        cmds.len() == tss.len(),
    ensures
        m.apply_chain(cmds.push(c), tss.push(ts)) == m.apply_chain(cmds, tss).apply_step(
            Entry { command: c, timestamp: ts },
        ).0,
    decreases cmds.len(),
{
    if cmds.len() == 0 {
        assert(cmds.push(c)[0] == c);
        assert(tss.push(ts)[0] == ts);
        assert(cmds.push(c).skip(1) =~= cmds);
        assert(tss.push(ts).skip(1) =~= tss);
        assert(m.apply_chain(cmds.push(c), tss.push(ts)) == m.apply_step(
            Entry { command: c, timestamp: ts },
        ).0.apply_chain(cmds, tss));
    } else {
        assert(cmds.push(c)[0] == cmds[0]);
        assert(tss.push(ts)[0] == tss[0]);
        assert(cmds.push(c).skip(1) =~= cmds.skip(1).push(c));
        assert(tss.push(ts).skip(1) =~= tss.skip(1).push(ts));
        let m1 = m.apply_step(Entry { command: cmds[0], timestamp: tss[0] }).0;
        assert(m.apply_chain(cmds.push(c), tss.push(ts)) == m1.apply_chain(
            cmds.skip(1).push(c),
            tss.skip(1).push(ts),
        ));
        lemma_apply_chain_snoc(m1, cmds.skip(1), tss.skip(1), c, ts);
        assert(m.apply_chain(cmds, tss) == m1.apply_chain(cmds.skip(1), tss.skip(1)));
    }
}

/// Holds when the step from `pre` to `post` applied the commands `cmds`
/// in order, stamped with the creation times `tss`.
pub open spec fn extended_by<R, C: Command<R>>(
    pre: RecordModel<R, C>,
    post: RecordModel<R, C>,
    cmds: Seq<C>,
    tss: Seq<i64>,
) -> bool {
    tss.len() == cmds.len() && post == pre.apply_chain(cmds, tss)
}

/// A walk of undo and redo steps keeps the log's length, the saved marker
/// and the limit, lands the cursor on its target, and preserves the
/// invariant.
pub proof fn lemma_goto_walk<R, C: Command<R>>(m: RecordModel<R, C>, target: int)
    requires
        m.bounds(),
        0 <= target <= m.log.len(),
    ensures
        ({
            let w = m.goto_walk(target);
            &&& m.inv() ==> w.inv()
            &&& w.bounds()
            &&& w.current == target
            &&& w.log.len() == m.log.len()
            &&& w.saved == m.saved
            &&& w.limit == m.limit
        }),
    decreases (if target <= m.current {
        m.current - target
    } else {
        target - m.current
    }),
{
    if target < m.current {
        lemma_goto_walk(m.undo_step().0, target);
    } else if target > m.current {
        lemma_goto_walk(m.redo_step().0, target);
    }
}

/// Whether the entries of `log` are ordered by their creation time.
pub open spec fn sorted_by_time<C>(log: Seq<Entry<C>>) -> bool {
    forall|i: int, j: int| 0 <= i <= j < log.len() ==> log[i].timestamp <= log[j].timestamp
}

/// The saved marker after the `by` oldest log positions were dropped: it
/// shifts down with the entries, and is forgotten when it pointed into the
/// dropped range.
pub open spec fn shift_saved(saved: Option<int>, by: int) -> Option<int> {
    match saved {
        Some(s) => if s >= by {
            Some(s - by)
        } else {
            None
        },
        None => None,
    }
}

/// A record of commands.
///
/// The record owns a receiver and an ordered log of entries plus a cursor.
/// Entries below the cursor are applied and can be undone; entries from the
/// cursor on can be redone. Applying a new command while the cursor is not
/// at the end of the log discards the redoable suffix. The record can
/// notify the user about changes through a connected [`Slot`].
pub struct Record<R, C> {
    /// The logged entries, oldest first.
    pub commands: VecDeque<Entry<C>>,
    /// The receiver the commands operate on.
    pub receiver: R,
    /// The position of the current command.
    pub current: usize,
    /// The largest number of entries the log may hold; always positive.
    pub limit: usize,
    /// The cursor position considered persisted, if one is known.
    pub saved: Option<usize>,
    /// Where change signals are reported, if connected.
    pub slot: Option<Slot>,
}

impl<R, C> View for Record<R, C> {
    type V = RecordModel<R, C>;

    open spec fn view(&self) -> RecordModel<R, C> {
        RecordModel {
            log: self.commands@,
            receiver: self.receiver,
            current: self.current as int,
            limit: self.limit as int,
            saved: match self.saved {
                Some(s) => Some(s as int),
                None => None,
            },
        }
    }
}

impl<R, C> Record<R, C> {
    /// The structural invariant of the record.
    pub open spec fn wf(self) -> bool {
        self@.inv()
    }

    /// The bare cursor bound, all the engine's stepping needs. Replaying
    /// compensating actions can suspend the full invariant; it never
    /// suspends this bound.
    pub open spec fn bounded(self) -> bool {
        self@.bounds()
    }

    /// Returns a new record with an empty log, the cursor at zero, no
    /// retention limit, and the fresh receiver counted as saved.
    pub fn new(receiver: R) -> (record: Record<R, C>)
        ensures
            record@ == (RecordModel::<R, C> {
                log: Seq::empty(),
                receiver,
                current: 0,
                limit: usize::MAX as int,
                saved: Some(0int),
            }),
            record.slot is None,
            record.wf(),
    {
        Record {
            commands: VecDeque::new(),
            receiver,
            current: 0,
            limit: usize::MAX,
            saved: Some(0),
            slot: None,
        }
    }

    /// Returns a builder for a record.
    pub fn builder() -> (builder: RecordBuilder)
        ensures
            builder == (RecordBuilder { capacity: 0, limit: usize::MAX, saved: true }),
    {
        RecordBuilder::new()
    }

    /// Reserves capacity for at least `additional` more commands.
    pub fn reserve(&mut self, additional: usize)
        ensures
            final(self)@ == old(self)@,
            final(self).slot == old(self).slot,
    {
        self.commands.reserve(additional);
    }

    /// Returns the capacity of the record.
    pub fn capacity(&self) -> (capacity: usize)
        ensures
            capacity >= self@.log.len(),
    {
        deque_capacity(&self.commands)
    }

    /// Shrinks the capacity of the record as much as possible.
    pub fn shrink_to_fit(&mut self)
        ensures
            final(self)@ == old(self)@,
            final(self).slot == old(self).slot,
    {
        deque_shrink_to_fit(&mut self.commands);
    }

    /// Returns the number of commands in the record.
    pub fn len(&self) -> (len: usize)
        ensures
            len == self@.log.len(),
    {
        self.commands.len()
    }

    /// Returns `true` if the record is empty.
    pub fn is_empty(&self) -> (empty: bool)
        ensures
            empty == (self@.log.len() == 0),
    {
        self.commands.len() == 0
    }

    /// Returns the position of the current command.
    pub fn current(&self) -> (current: usize)
        ensures
            current == self@.current,
    {
        self.current
    }

    /// Returns the limit of the record.
    pub fn limit(&self) -> (limit: usize)
        ensures
            limit == self@.limit,
    {
        self.limit
    }

    /// Connects a slot for the record to report its signals to.
    ///
    /// The previous slot is returned if it exists.
    pub fn connect(&mut self, slot: Slot) -> (previous: Option<Slot>)
        ensures
            final(self).slot == Some(slot),
            previous == old(self).slot,
            final(self)@ == old(self)@,
    {
        let previous = self.slot.take();
        self.slot = Some(slot);
        previous
    }

    /// Creates a new record that uses the provided slot.
    pub fn connect_with(self, slot: Slot) -> (record: Record<R, C>)
        ensures
            record.slot == Some(slot),
            record@ == self@,
    {
        Record {
            commands: self.commands,
            receiver: self.receiver,
            current: self.current,
            limit: self.limit,
            saved: self.saved,
            slot: Some(slot),
        }
    }

    /// Removes and returns the slot, with every signal it has collected.
    pub fn disconnect(&mut self) -> (slot: Option<Slot>)
        ensures
            final(self).slot is None,
            slot == old(self).slot,
            final(self)@ == old(self)@,
    {
        self.slot.take()
    }

    /// Returns `true` if the receiver is in a saved state, `false`
    /// otherwise.
    pub fn is_saved(&self) -> (saved: bool)
        ensures
            saved == self@.is_saved(),
    {
        match self.saved {
            Some(s) => s == self.current,
            None => false,
        }
    }

    /// Returns `true` if the record can undo.
    pub fn can_undo(&self) -> (can: bool)
        ensures
            can == self@.can_undo(),
    {
        self.current > 0
    }

    /// Returns `true` if the record can redo.
    pub fn can_redo(&self) -> (can: bool)
        ensures
            can == self@.can_redo(),
    {
        self.current < self.commands.len()
    }

    /// Returns a reference to the receiver.
    pub fn as_receiver(&self) -> (receiver: &R)
        ensures
            *receiver == self@.receiver,
    {
        &self.receiver
    }

    /// Returns a mutable reference to the receiver.
    ///
    /// This method should **only** be used when doing changes that should
    /// not be able to be undone.
    pub fn as_mut_receiver(&mut self) -> (receiver: &mut R)
        ensures
            *receiver == old(self)@.receiver,
            final(self)@ == (RecordModel { receiver: *final(receiver), ..old(self)@ }),
            final(self).slot == old(self).slot,
    {
        &mut self.receiver
    }

    /// Consumes the record, returning the receiver.
    pub fn into_receiver(self) -> (receiver: R)
        ensures
            receiver == self@.receiver,
    {
        self.receiver
    }

    /// Opens a checkpoint over this record, consuming it; the checkpoint
    /// hands the record back when it is closed.
    pub fn checkpoint(self) -> (cp: crate::checkpoint::Checkpoint<Record<R, C>, C>) where C: Command<R>
        ensures
            cp.inner == self,
            cp.actions@.len() == 0,
            cp.outer@.len() == 0,
    {
        crate::checkpoint::Checkpoint::new(self)
    }

    /// Opens a queue over this record, consuming it; the queue hands the
    /// record back when it is closed.
    pub fn queue(self) -> (queue: crate::queue::Queue<Record<R, C>, C>) where C: Command<R>
        ensures
            queue.inner == self,
            queue.actions@.len() == 0,
            queue.outer@.len() == 0,
    {
        crate::queue::Queue::new(self)
    }

    /// Returns the logged entries, oldest first.
    pub fn commands(&self) -> (commands: &VecDeque<Entry<C>>)
        ensures
            commands@ == self@.log,
    {
        &self.commands
    }

    /// Renders the command which will be undone by the next call to undo,
    /// using the given formatter, or `None` if there is nothing to undo.
    pub fn to_undo_string<F: Fn(&C) -> String>(&self, f: F) -> (res: Option<String>)
        requires
            self.bounded(),
            forall|c: &C| #[trigger] f.requires((c,)),
        ensures
            res is Some <==> self@.can_undo(),
            res matches Some(s) ==> f.ensures((&self@.log[self@.current - 1].command,), s),
    {
        if self.current > 0 {
            Some(f(&self.commands[self.current - 1].command))
        } else {
            None
        }
    }

    /// Renders the command which will be redone by the next call to redo,
    /// using the given formatter, or `None` if there is nothing to redo.
    pub fn to_redo_string<F: Fn(&C) -> String>(&self, f: F) -> (res: Option<String>)
        requires
            self.bounded(),
            forall|c: &C| #[trigger] f.requires((c,)),
        ensures
            res is Some <==> self@.can_redo(),
            res matches Some(s) ==> f.ensures((&self@.log[self@.current].command,), s),
    {
        if self.current < self.commands.len() {
            Some(f(&self.commands[self.current].command))
        } else {
            None
        }
    }
}

/// Walking one boundary further down continues the walk with one more
/// undo step.
pub proof fn lemma_goto_walk_down<R, C: Command<R>>(m: RecordModel<R, C>, w: int)
    requires
        1 <= w <= m.current,
    ensures
        m.goto_walk(w - 1) == m.goto_walk(w).undo_step().0,
    decreases m.current - w,
{
    if w < m.current {
        assert(m.goto_walk(w - 1) == m.undo_step().0.goto_walk(w - 1));
        assert(m.goto_walk(w) == m.undo_step().0.goto_walk(w));
        lemma_goto_walk_down(m.undo_step().0, w);
    } else {
        assert(m.goto_walk(w) == m);
        assert(m.undo_step().0.current == w - 1);
        assert(m.goto_walk(w - 1) == m.undo_step().0.goto_walk(w - 1));
        assert(m.undo_step().0.goto_walk(w - 1) == m.undo_step().0);
    }
}

/// Walking one boundary further up continues the walk with one more
/// redo step.
pub proof fn lemma_goto_walk_up<R, C: Command<R>>(m: RecordModel<R, C>, w: int)
    requires
        m.current <= w,
    ensures
        m.goto_walk(w + 1) == m.goto_walk(w).redo_step().0,
    decreases w - m.current,
{
    if w > m.current {
        assert(m.goto_walk(w + 1) == m.redo_step().0.goto_walk(w + 1));
        assert(m.goto_walk(w) == m.redo_step().0.goto_walk(w));
        lemma_goto_walk_up(m.redo_step().0, w);
    } else {
        assert(m.goto_walk(w) == m);
        assert(m.redo_step().0.current == w + 1);
        assert(m.goto_walk(w + 1) == m.redo_step().0.goto_walk(w + 1));
        assert(m.redo_step().0.goto_walk(w + 1) == m.redo_step().0);
    }
}

/// Holds when a walk towards `target` performed its successful steps up
/// to the cursor `w` and then stopped because the step at `w` failed:
/// the failing entry was evicted, as a failing undo or redo evicts it.
/// What the failed step left of the receiver is the failing command's
/// responsibility, so the receiver is not described here.
pub open spec fn goto_stopped_at<R, C: Command<R>>(
    pre: RecordModel<R, C>,
    target: int,
    post: RecordModel<R, C>,
    w: int,
) -> bool {
    let part = pre.goto_walk(w);
    &&& (if target < pre.current {
        target < w <= pre.current
    } else {
        pre.current <= w < target
    })
    &&& (target < pre.current ==> post.log == part.log.remove(w - 1) && post.current == w - 1
        && post.saved == part.saved_after_evict(w - 1))
    &&& (target >= pre.current ==> post.log == part.log.remove(w) && post.current == w
        && post.saved == part.saved_after_evict(w))
    &&& post.limit == pre.limit
}

/// Holds when applying `command` at creation time `ts` explains the step
/// from the state `pre` with the slot `pre_slot` to the state `post` with
/// the slot `post_slot`, as [`RecordModel::apply_step`] describes it.
pub open spec fn applied_at<R, C: Command<R>>(
    pre: RecordModel<R, C>,
    pre_slot: Option<Slot>,
    post: RecordModel<R, C>,
    post_slot: Option<Slot>,
    command: C,
    ts: i64,
) -> bool {
    let (p, merged, sigs) = pre.apply_step(Entry { command, timestamp: ts });
    post == p && slot_emits(pre_slot, post_slot, sigs)
}

/// Holds when a time travel towards the moment `to` found `idx` as the
/// position of the first entry not older than `to`, and walked the state
/// `pre` with the slot `pre_slot` there, reaching the state `post` with
/// the slot `post_slot`.
pub open spec fn travelled_to<R, C: Command<R>>(
    pre: RecordModel<R, C>,
    pre_slot: Option<Slot>,
    post: RecordModel<R, C>,
    post_slot: Option<Slot>,
    to: i64,
    idx: int,
) -> bool {
    &&& 0 <= idx <= pre.log.len()
    &&& (idx < pre.log.len() ==> pre.log[idx].timestamp >= to)
    &&& (forall|i: int| 0 <= i < idx ==> pre.log[i].timestamp < to)
    &&& post == pre.goto_walk(idx)
    &&& slot_emits(pre_slot, post_slot, pre.goto_signals(idx))
}

/// Relies on VecDeque::capacity: the capacity is at least the length.
#[verifier::external_body]
fn deque_capacity<T>(v: &VecDeque<T>) -> (c: usize)
    ensures
        c >= v@.len(),
{
    v.capacity()
}

/// Relies on VecDeque::shrink_to_fit: the contents are untouched.
#[verifier::external_body]
fn deque_shrink_to_fit<T>(v: &mut VecDeque<T>)
    ensures
        final(v)@ == old(v)@,
{
    v.shrink_to_fit()
}

/// Relies on std::time::SystemTime::now and Duration::as_millis for the
/// current wall-clock time, reported in milliseconds since the epoch, as
/// a negative count for a clock reading before it. Nothing is promised
/// of the value: the clock is environment-dependent. Both arms of the
/// comparison against the epoch are handled, so the call cannot abort.
#[verifier::external_body]
pub(crate) fn now_millis() -> i64 {
    match std::time::SystemTime::now().duration_since(std::time::UNIX_EPOCH) {
        Ok(since) => since.as_millis() as i64,
        Err(before) => -(before.duration().as_millis() as i64),
    }
}

impl<R, C: Command<R>> Record<R, C> {
    /// Pushes the command on top of the record and executes its apply
    /// method, stamping the entry with the current time.
    ///
    /// # Errors
    /// If the apply fails, the command is not added to the log and is
    /// handed back inside the error.
    pub fn apply(&mut self, command: C) -> (res: Result<(), Error<R, C>>)
        requires
            old(self).bounded(),
        ensures
            final(self).bounded(),
            old(self).wf() ==> final(self).wf(),
            final(self)@.limit == old(self)@.limit,
            res matches Err(e) ==> final(self)@.log == old(self)@.log
                && final(self)@.current == old(self)@.current
                && final(self)@.saved == old(self)@.saved
                && final(self).slot == old(self).slot,
            res is Ok ==> command.can_apply(old(self)@.receiver) && (exists|ts: i64|
                #[trigger] applied_at(
                    old(self)@,
                    old(self).slot,
                    final(self)@,
                    final(self).slot,
                    command,
                    ts,
                )),
    {
        let timestamp = now_millis();
        let ghost pre = self@;
        let ghost pre_slot = self.slot;
        match self.__apply(Entry { command, timestamp }) {
            Ok(_) => {
                proof {
                    assert(applied_at(pre, pre_slot, self@, self.slot, command, timestamp));
                }
                Ok(())
            },
            Err(e) => Err(e),
        }
    }

    /// The engine step behind [`Record::apply`]: takes a ready entry,
    /// returns whether it was merged or annulled away, together with the
    /// redoable suffix that the apply discarded.
    pub fn __apply(&mut self, entry: Entry<C>) -> (res: Result<
        (bool, VecDeque<Entry<C>>),
        Error<R, C>,
    >)
        requires
            old(self).bounded(),
        ensures
            final(self).bounded(),
            old(self).wf() ==> final(self).wf(),
            final(self)@.limit == old(self)@.limit,
            res matches Err(e) ==> final(self)@.log == old(self)@.log
                && final(self)@.current == old(self)@.current
                && final(self)@.saved == old(self)@.saved
                && final(self).slot == old(self).slot,
            res matches Ok(p) ==> ({
                let (post, merged, sigs) = old(self)@.apply_step(entry);
                &&& entry.command.can_apply(old(self)@.receiver)
                &&& final(self)@ == post
                &&& p.0 == merged
                &&& p.1@ == old(self)@.log.skip(old(self)@.current)
                &&& slot_emits(old(self).slot, final(self).slot, sigs)
            }),
    {
        let mut entry = entry;
        let ghost entry0 = entry;
        if let Err(error) = entry.command.apply(&mut self.receiver) {
            return Err(Error { entry, error });
        }
        let old_current = self.current;
        let could_undo = self.can_undo();
        let could_redo = self.can_redo();
        let was_saved = self.is_saved();
        // Pop off all elements after the cursor from the log.
        let tail = self.commands.split_off(self.current);
        // Check whether the saved state was popped off.
        self.saved = match self.saved {
            Some(s) => if s <= self.current {
                Some(s)
            } else {
                None
            },
            None => None,
        };
        // Keep the log ordered by creation time even if the clock stepped
        // backwards between two applies.
        if self.current > 0 {
            let prev_ts = self.commands[self.current - 1].timestamp;
            if prev_ts > entry.timestamp {
                entry.timestamp = prev_ts;
            }
        }
        // Try to merge into the tail entry unless the receiver is saved.
        let merged_or_annulled: bool;
        if self.current > 0 && !was_saved {
            let popped = self.commands.pop_back();
            match popped {
                Some(mut last) => {
                    let ghost last0 = last;
                    let ghost entry1 = entry;
                    match last.merge(entry) {
                        Merge::Yes => {
                            self.commands.push_back(last);
                            merged_or_annulled = true;
                            proof {
                                assert(self@.log =~= old(self)@.apply_step(entry0).0.log);
                            }
                        },
                        Merge::Annul => {
                            self.current = self.current - 1;
                            merged_or_annulled = true;
                        },
                        Merge::No(e) => {
                            self.commands.push_back(last);
                            proof {
                                assert(self@.log =~= old(self)@.log.take(
                                    old(self)@.current,
                                ).update(
                                    old(self)@.current - 1,
                                    Entry {
                                        command: last0.command.merge_keep(entry1.command),
                                        timestamp: last0.timestamp,
                                    },
                                ));
                            }
                            self.push_or_evict(e);
                            merged_or_annulled = false;
                        },
                    }
                },
                None => {
                    proof {
                        assert(false);
                    }
                    merged_or_annulled = false;
                },
            }
        } else {
            self.push_or_evict(entry);
            merged_or_annulled = false;
        }
        let new_current = self.current;
        match &mut self.slot {
            Some(slot) => {
                // This signal is emitted even when the commands were
                // merged, so consumers learn a command was processed.
                slot.signals.push(Signal::Cursor { old: old_current, new: new_current });
                if could_redo {
                    slot.signals.push(Signal::Redo(false));
                }
                if !could_undo {
                    slot.signals.push(Signal::Undo(true));
                }
                if was_saved {
                    slot.signals.push(Signal::Saved(false));
                }
            },
            None => (),
        }
        proof {
            assert(self@ =~= old(self)@.apply_step(entry0).0);
        }
        Ok((merged_or_annulled, tail))
    }

    /// Pushes the applied entry onto the tail, first evicting the oldest
    /// entry when the limit is reached.
    fn push_or_evict(&mut self, e: Entry<C>)
        requires
            old(self)@.current == old(self)@.log.len(),
        ensures
            ({
                let parts = old(self)@.push_step(old(self)@.log, e, old(self)@.saved);
                &&& final(self)@ == (RecordModel {
                    log: parts.0,
                    current: parts.1,
                    saved: parts.2,
                    ..old(self)@
                })
                &&& final(self)@.bounds()
                &&& final(self).slot == old(self).slot
            }),
    {
        if self.limit == self.current {
            self.commands.pop_front();
            self.saved = match self.saved {
                Some(s) => if s >= 1 {
                    Some(s - 1)
                } else {
                    None
                },
                None => None,
            };
            self.commands.push_back(e);
        } else {
            self.commands.push_back(e);
            self.current = self.commands.len();
        }
        proof {
            let parts = old(self)@.push_step(old(self)@.log, e, old(self)@.saved);
            assert(self@.log =~= parts.0);
            assert(self@ =~= (RecordModel {
                log: parts.0,
                current: parts.1,
                saved: parts.2,
                ..old(self)@
            }));
        }
    }

    /// Calls the undo method for the active entry and sets the previous
    /// one as the new active one.
    ///
    /// Returns `None` when there is nothing to undo. On failure the
    /// offending entry is evicted from the log, since its reversibility is
    /// no longer trusted, and handed back inside the error; the cursor
    /// moves to the boundary the eviction left behind and no signal is
    /// emitted. What a failed undo left of the receiver is the command's
    /// responsibility.
    pub fn undo(&mut self) -> (res: Option<Result<(), Error<R, C>>>)
        requires
            old(self).bounded(),
        ensures
            final(self).bounded(),
            old(self).wf() ==> final(self).wf(),
            res is None <==> old(self)@.current == 0,
            res is None ==> final(self)@ == old(self)@ && final(self).slot == old(self).slot,
            res matches Some(r) ==> r is Ok ==> ({
                let (post, sigs) = old(self)@.undo_step();
                &&& old(self)@.log[old(self)@.current - 1].command.can_undo(old(self)@.receiver)
                &&& final(self)@ == post
                &&& slot_emits(old(self).slot, final(self).slot, sigs)
            }),
            res matches Some(r) ==> r matches Err(err) ==> ({
                let at = old(self)@.current - 1;
                &&& final(self)@.log == old(self)@.log.remove(at)
                &&& final(self)@.current == at
                &&& final(self)@.saved == old(self)@.saved_after_evict(at)
                &&& final(self)@.limit == old(self)@.limit
                &&& final(self).slot == old(self).slot
                &&& err.entry.timestamp == old(self)@.log[at].timestamp
            }),
    {
        if self.current == 0 {
            return None;
        }
        let was_saved = self.is_saved();
        let old_current = self.current;
        let len = self.commands.len();
        let removed = self.commands.remove(self.current - 1);
        match removed {
            Some(mut entry) => {
                match entry.command.undo(&mut self.receiver) {
                    Ok(()) => {
                        self.commands.insert(self.current - 1, entry);
                        self.current = self.current - 1;
                        proof {
                            assert(self@.log =~= old(self)@.undo_step().0.log);
                            assert(self@ =~= old(self)@.undo_step().0);
                        }
                        let new_current = self.current;
                        let is_saved = self.is_saved();
                        match &mut self.slot {
                            Some(slot) => {
                                slot.signals.push(
                                    Signal::Cursor { old: old_current, new: new_current },
                                );
                                if old_current == len {
                                    slot.signals.push(Signal::Redo(true));
                                }
                                if old_current == 1 {
                                    slot.signals.push(Signal::Undo(false));
                                }
                                if was_saved != is_saved {
                                    slot.signals.push(Signal::Saved(is_saved));
                                }
                            },
                            None => (),
                        }
                        Some(Ok(()))
                    },
                    Err(error) => {
                        self.current = self.current - 1;
                        self.saved = match self.saved {
                            Some(s) => if s > old_current - 1 {
                                Some(s - 1)
                            } else {
                                Some(s)
                            },
                            None => None,
                        };
                        Some(Err(Error { entry, error }))
                    },
                }
            },
            None => {
                proof {
                    assert(false);
                }
                None
            },
        }
    }

    /// Calls the redo method for the active entry and sets the next one as
    /// the new active one.
    ///
    /// Returns `None` when there is nothing to redo. On failure the
    /// offending entry is evicted from the log and handed back inside the
    /// error; the cursor does not move and no signal is emitted. What a
    /// failed redo left of the receiver is the command's responsibility.
    pub fn redo(&mut self) -> (res: Option<Result<(), Error<R, C>>>)
        requires
            old(self).bounded(),
        ensures
            final(self).bounded(),
            old(self).wf() ==> final(self).wf(),
            res is None <==> old(self)@.current == old(self)@.log.len(),
            res is None ==> final(self)@ == old(self)@ && final(self).slot == old(self).slot,
            res matches Some(r) ==> r is Ok ==> ({
                let (post, sigs) = old(self)@.redo_step();
                &&& old(self)@.log[old(self)@.current].command.can_redo(old(self)@.receiver)
                &&& final(self)@ == post
                &&& slot_emits(old(self).slot, final(self).slot, sigs)
            }),
            res matches Some(r) ==> r matches Err(err) ==> ({
                let at = old(self)@.current;
                &&& final(self)@.log == old(self)@.log.remove(at)
                &&& final(self)@.current == at
                &&& final(self)@.saved == old(self)@.saved_after_evict(at)
                &&& final(self)@.limit == old(self)@.limit
                &&& final(self).slot == old(self).slot
                &&& err.entry.timestamp == old(self)@.log[at].timestamp
            }),
    {
        if self.current == self.commands.len() {
            return None;
        }
        let was_saved = self.is_saved();
        let old_current = self.current;
        let len = self.commands.len();
        let removed = self.commands.remove(self.current);
        match removed {
            Some(mut entry) => {
                match entry.command.redo(&mut self.receiver) {
                    Ok(()) => {
                        self.commands.insert(self.current, entry);
                        self.current = self.current + 1;
                        proof {
                            assert(self@.log =~= old(self)@.redo_step().0.log);
                            assert(self@ =~= old(self)@.redo_step().0);
                        }
                        let new_current = self.current;
                        let is_saved = self.is_saved();
                        match &mut self.slot {
                            Some(slot) => {
                                slot.signals.push(
                                    Signal::Cursor { old: old_current, new: new_current },
                                );
                                if old_current == len - 1 {
                                    slot.signals.push(Signal::Redo(false));
                                }
                                if old_current == 0 {
                                    slot.signals.push(Signal::Undo(true));
                                }
                                if was_saved != is_saved {
                                    slot.signals.push(Signal::Saved(is_saved));
                                }
                            },
                            None => (),
                        }
                        Some(Ok(()))
                    },
                    Err(error) => {
                        self.saved = match self.saved {
                            Some(s) => if s > old_current {
                                Some(s - 1)
                            } else {
                                Some(s)
                            },
                            None => None,
                        };
                        Some(Err(Error { entry, error }))
                    },
                }
            },
            None => {
                proof {
                    assert(false);
                }
                None
            },
        }
    }

    /// Repeatedly calls undo or redo until the entry at `target` becomes
    /// the active one.
    ///
    /// Returns `None` when `target` is out of range. The slot is
    /// suppressed while walking, and the aggregate edges are reported
    /// once, comparing only the states before and after the walk. If a
    /// step fails, the walk stops where it is, the slot is restored
    /// without reporting anything, and the step's error is returned.
    #[verifier::loop_isolation(false)]
    pub fn go_to(&mut self, target: usize) -> (res: Option<Result<(), Error<R, C>>>)
        requires
            old(self).bounded(),
        ensures
            final(self).bounded(),
            old(self).wf() ==> final(self).wf(),
            res is None <==> target > old(self)@.log.len(),
            res is None ==> final(self)@ == old(self)@ && final(self).slot == old(self).slot,
            res matches Some(r) ==> r is Ok ==> final(self)@ == old(self)@.goto_walk(
                target as int,
            ) && slot_emits(
                old(self).slot,
                final(self).slot,
                old(self)@.goto_signals(target as int),
            ),
            target == old(self)@.current ==> (res matches Some(r) && r is Ok),
            res matches Some(r) ==> r is Err ==> final(self).slot == old(self).slot
                && final(self)@.limit == old(self)@.limit && (exists|w: int|
                #[trigger] goto_stopped_at(old(self)@, target as int, final(self)@, w)),
    {
        if target > self.commands.len() {
            return None;
        }
        let could_undo = self.can_undo();
        let could_redo = self.can_redo();
        let was_saved = self.is_saved();
        let old_current = self.current;
        // Suppress the slot so the steps do not report one by one.
        let taken = self.slot.take();
        let ghost m0 = self@;
        proof {
            lemma_goto_walk(m0, target as int);
        }
        while self.current != target
            invariant
                self.bounded(),
                m0.inv() ==> self.wf(),
                target <= self@.log.len(),
                self.slot is None,
                self@.goto_walk(target as int) == m0.goto_walk(target as int),
                self@ == m0.goto_walk(self@.current),
                target as int <= self@.current <= m0.current || m0.current <= self@.current
                    <= target as int,
                self@.log.len() == m0.log.len(),
                self@.limit == m0.limit,
                self@.saved == m0.saved,
            decreases (if target as int <= self@.current {
                self@.current - target
            } else {
                target - self@.current
            }),
        {
            let ghost w = self@.current;
            if target > self.current {
                match self.redo() {
                    Some(Ok(())) => {
                        proof {
                            lemma_goto_walk_up(m0, w);
                        }
                    },
                    Some(Err(e)) => {
                        self.slot = taken;
                        proof {
                            assert(goto_stopped_at(m0, target as int, self@, w));
                        }
                        return Some(Err(e));
                    },
                    None => {
                        proof {
                            assert(false);
                        }
                        self.slot = taken;
                        return None;
                    },
                }
            } else {
                match self.undo() {
                    Some(Ok(())) => {
                        proof {
                            lemma_goto_walk_down(m0, w);
                        }
                    },
                    Some(Err(e)) => {
                        self.slot = taken;
                        proof {
                            assert(goto_stopped_at(m0, target as int, self@, w));
                        }
                        return Some(Err(e));
                    },
                    None => {
                        proof {
                            assert(false);
                        }
                        self.slot = taken;
                        return None;
                    },
                }
            }
        }
        // Add the slot back and report the aggregate edges once.
        self.slot = taken;
        let can_undo = self.can_undo();
        let can_redo = self.can_redo();
        let is_saved = self.is_saved();
        match &mut self.slot {
            Some(slot) => {
                if old_current != target {
                    slot.signals.push(Signal::Cursor { old: old_current, new: target });
                }
                if could_undo != can_undo {
                    slot.signals.push(Signal::Undo(can_undo));
                }
                if could_redo != can_redo {
                    slot.signals.push(Signal::Redo(can_redo));
                }
                if was_saved != is_saved {
                    slot.signals.push(Signal::Saved(is_saved));
                }
            },
            None => (),
        }
        Some(Ok(()))
    }

    /// Reverts the receiver to its saved state by walking the cursor back
    /// to the saved marker. Returns `None` when no saved state is known.
    pub fn revert(&mut self) -> (res: Option<Result<(), Error<R, C>>>)
        requires
            old(self).wf(),
        ensures
            final(self).wf(),
            res is None <==> old(self)@.saved is None,
            res is None ==> final(self)@ == old(self)@ && final(self).slot == old(self).slot,
            res matches Some(r) ==> r is Ok ==> (old(self)@.saved matches Some(s)
                && final(self)@ == old(self)@.goto_walk(s)
                && slot_emits(old(self).slot, final(self).slot, old(self)@.goto_signals(s))),
            res matches Some(r) ==> r is Err ==> final(self).slot == old(self).slot,
    {
        match self.saved {
            Some(s) => self.go_to(s),
            None => None,
        }
    }

    /// Goes to the position of the entry made closest at or after the
    /// given moment, in milliseconds since the epoch. The log is ordered
    /// by creation time, so the position found by binary search is the
    /// first entry not older than `to`; entries older than it stay
    /// applied. Returns `None` when the record is empty.
    pub fn time_travel(&mut self, to: i64) -> (res: Option<Result<(), Error<R, C>>>)
        requires
            old(self).wf(),
        ensures
            final(self).wf(),
            res is None <==> old(self)@.log.len() == 0,
            res is None ==> final(self)@ == old(self)@ && final(self).slot == old(self).slot,
            res matches Some(r) ==> r is Ok ==> (exists|idx: int|
                #[trigger] travelled_to(
                    old(self)@,
                    old(self).slot,
                    final(self)@,
                    final(self).slot,
                    to,
                    idx,
                )),
            res matches Some(r) ==> r is Err ==> final(self).slot == old(self).slot,
    {
        if self.commands.len() == 0 {
            return None;
        }
        let mut lo: usize = 0;
        let mut hi: usize = self.commands.len();
        while lo < hi
            invariant
                self.wf(),
                lo <= hi <= self@.log.len(),
                forall|i: int| 0 <= i < lo ==> self@.log[i].timestamp < to,
                forall|j: int| hi <= j < self@.log.len() ==> self@.log[j].timestamp >= to,
            decreases hi - lo,
        {
            let mid = lo + (hi - lo) / 2;
            if self.commands[mid].timestamp < to {
                lo = mid + 1;
            } else {
                hi = mid;
            }
        }
        let ghost pre = self@;
        let ghost pre_slot = self.slot;
        let res = self.go_to(lo);
        proof {
            if res matches Some(ref r) && r is Ok {
                assert(travelled_to(pre, pre_slot, self@, self.slot, to, lo as int));
            }
        }
        res
    }

    /// Applies each command in order, stamping each entry with the time
    /// of its own apply. Signals are reported per apply, as by
    /// [`Record::apply`].
    ///
    /// # Errors
    /// At the first failure the remaining commands are discarded and the
    /// failing command is handed back inside the error.
    pub fn extend(&mut self, commands: Vec<C>) -> (res: Result<(), Error<R, C>>)
        requires
            old(self).bounded(),
        ensures
            final(self).bounded(),
            old(self).wf() ==> final(self).wf(),
            final(self)@.limit == old(self)@.limit,
            res is Ok ==> (exists|tss: Seq<i64>|
                #[trigger] extended_by(old(self)@, final(self)@, commands@, tss)),
            res is Err ==> (exists|i: int, tss: Seq<i64>|
                {
                    &&& 0 <= i < commands@.len()
                    &&& tss.len() == i
                    &&& final(self)@.log == (#[trigger] old(self)@.apply_chain(
                        commands@.take(i),
                        tss,
                    )).log
                    &&& final(self)@.current == old(self)@.apply_chain(
                        commands@.take(i),
                        tss,
                    ).current
                    &&& final(self)@.saved == old(self)@.apply_chain(
                        commands@.take(i),
                        tss,
                    ).saved
                }),
    {
        let ghost m0 = self@;
        let ghost cmds0 = commands@;
        let mut commands = commands;
        let ghost mut done: Seq<C> = Seq::empty();
        let ghost mut tss: Seq<i64> = Seq::empty();
        #[verifier::loop_isolation(false)]
        while commands.len() > 0
            invariant
                self.bounded(),
                m0.inv() ==> self.wf(),
                done.len() == tss.len(),
                done + commands@ =~= cmds0,
                self@ == m0.apply_chain(done, tss),
                self@.limit == m0.limit,
            decreases commands.len(),
        {
            let command = commands.remove(0);
            let ghost pre = self@;
            let ghost pre_slot = self.slot;
            let ghost c = command;
            match self.apply(command) {
                Ok(()) => {
                    proof {
                        let ts = choose|ts: i64|
                            applied_at(pre, pre_slot, self@, self.slot, c, ts);
                        lemma_apply_chain_snoc(m0, done, tss, c, ts);
                        done = done.push(c);
                        tss = tss.push(ts);
                        assert(done + commands@ =~= cmds0);
                    }
                },
                Err(e) => {
                    proof {
                        assert(cmds0.take(done.len() as int) =~= done);
                    }
                    return Err(e);
                },
            }
        }
        proof {
            assert(done =~= cmds0);
            assert(extended_by(m0, self@, cmds0, tss));
        }
        Ok(())
    }

    /// Marks the receiver as currently being in a saved or unsaved state,
    /// and reports the edge if the state actually changed.
    pub fn set_saved(&mut self, saved: bool)
        requires
            old(self).bounded(),
        ensures
            final(self).bounded(),
            old(self).wf() ==> final(self).wf(),
            final(self)@ == (RecordModel {
                saved: if saved {
                    Some(old(self)@.current)
                } else {
                    None
                },
                ..old(self)@
            }),
            slot_emits(
                old(self).slot,
                final(self).slot,
                if saved != old(self)@.is_saved() {
                    seq![Signal::Saved(saved)]
                } else {
                    Seq::empty()
                },
            ),
    {
        let was_saved = self.is_saved();
        if saved {
            self.saved = Some(self.current);
            match &mut self.slot {
                Some(slot) => if !was_saved {
                    slot.signals.push(Signal::Saved(true));
                },
                None => (),
            }
        } else {
            self.saved = None;
            match &mut self.slot {
                Some(slot) => if was_saved {
                    slot.signals.push(Signal::Saved(false));
                },
                None => (),
            }
        }
    }

    /// Removes all commands from the record without undoing them.
    pub fn clear(&mut self)
        requires
            old(self).wf(),
        ensures
            final(self).wf(),
            final(self)@ == (RecordModel::<R, C> {
                log: Seq::empty(),
                receiver: old(self)@.receiver,
                current: 0,
                limit: old(self)@.limit,
                saved: if old(self)@.is_saved() {
                    Some(0int)
                } else {
                    None
                },
            }),
            slot_emits(
                old(self).slot,
                final(self).slot,
                (if old(self)@.current != 0 {
                    seq![Signal::Cursor { old: old(self)@.current as usize, new: 0 }]
                } else {
                    Seq::empty()
                }) + (if old(self)@.can_undo() {
                    seq![Signal::Undo(false)]
                } else {
                    Seq::empty()
                }) + (if old(self)@.can_redo() {
                    seq![Signal::Redo(false)]
                } else {
                    Seq::empty()
                }),
            ),
    {
        let old_current = self.current;
        let could_undo = self.can_undo();
        let could_redo = self.can_redo();
        let was_saved = self.is_saved();
        self.commands.clear();
        self.saved = if was_saved {
            Some(0)
        } else {
            None
        };
        self.current = 0;
        match &mut self.slot {
            Some(slot) => {
                if old_current != 0 {
                    slot.signals.push(Signal::Cursor { old: old_current, new: 0 });
                }
                if could_undo {
                    slot.signals.push(Signal::Undo(false));
                }
                if could_redo {
                    slot.signals.push(Signal::Redo(false));
                }
            },
            None => (),
        }
    }

    /// Sets the limit of the record and returns the new limit.
    ///
    /// When the new limit is smaller than the log, the oldest entries are
    /// dropped until the log fits, but never past the cursor: the entries
    /// the cursor depends on are kept, and the limit recorded is then the
    /// length that was actually reached. A limit of zero is a
    /// configuration error and is rejected up front.
    pub fn set_limit(&mut self, limit: usize) -> (result: usize)
        requires
            limit >= 1,
            old(self).wf(),
        ensures
            final(self).wf(),
            result == final(self)@.limit,
            final(self)@ == old(self)@.limit_step(limit as int),
            slot_emits(
                old(self).slot,
                final(self).slot,
                old(self)@.limit_signals(limit as int),
            ),
    {
        self.limit = limit;
        if limit < self.commands.len() {
            let old_current = self.current;
            let could_undo = self.can_undo();
            let was_saved = self.is_saved();
            let len = self.commands.len();
            let begin = if old_current < len - limit {
                old_current
            } else {
                len - limit
            };
            let rest = self.commands.split_off(begin);
            self.commands = rest;
            self.limit = self.commands.len();
            self.current = self.current - begin;
            self.saved = match self.saved {
                Some(s) => if s >= begin {
                    Some(s - begin)
                } else {
                    None
                },
                None => None,
            };
            let new_current = self.current;
            let can_undo = self.can_undo();
            let is_saved = self.is_saved();
            match &mut self.slot {
                Some(slot) => {
                    if old_current != new_current {
                        slot.signals.push(
                            Signal::Cursor { old: old_current, new: new_current },
                        );
                    }
                    if could_undo != can_undo {
                        slot.signals.push(Signal::Undo(can_undo));
                    }
                    if was_saved != is_saved {
                        slot.signals.push(Signal::Saved(is_saved));
                    }
                },
                None => (),
            }
            proof {
                let m = old(self)@;
                let b = if m.current < m.log.len() - limit {
                    m.current
                } else {
                    m.log.len() - limit
                };
                assert(b == begin as int);
                assert(self@.log =~= m.log.skip(b));
                assert(self@ =~= (RecordModel {
                    log: m.log.skip(b),
                    receiver: m.receiver,
                    current: m.current - b,
                    limit: m.log.len() - b,
                    saved: shift_saved(m.saved, b),
                }));
            }
        }
        self.limit
    }
}

/// Builder for a record.
pub struct RecordBuilder {
    /// The log storage to preallocate.
    pub capacity: usize,
    /// The largest number of entries the log may hold; always positive.
    pub limit: usize,
    /// Whether the freshly built record starts in a saved state.
    pub saved: bool,
}

impl RecordBuilder {
    /// Returns a builder for a record.
    pub fn new() -> (builder: RecordBuilder)
        ensures
            builder == (RecordBuilder { capacity: 0, limit: usize::MAX, saved: true }),
    {
        RecordBuilder { capacity: 0, limit: usize::MAX, saved: true }
    }

    /// Sets the capacity for the record.
    pub fn capacity(self, capacity: usize) -> (builder: RecordBuilder)
        ensures
            builder == (RecordBuilder { capacity, ..self }),
    {
        RecordBuilder { capacity, ..self }
    }

    /// Sets the limit of the record. A limit of zero is a configuration
    /// error and is rejected up front.
    pub fn limit(self, limit: usize) -> (builder: RecordBuilder)
        requires
            limit >= 1,
        ensures
            builder == (RecordBuilder { limit, ..self }),
    {
        RecordBuilder { limit, ..self }
    }

    /// Sets if the receiver is initially in a saved state. By default the
    /// receiver is in a saved state.
    pub fn saved(self, saved: bool) -> (builder: RecordBuilder)
        ensures
            builder == (RecordBuilder { saved, ..self }),
    {
        RecordBuilder { saved, ..self }
    }

    /// Builds the record.
    pub fn build<R, C>(self, receiver: R) -> (record: Record<R, C>)
        requires
            self.limit >= 1,
        ensures
            record@ == (RecordModel::<R, C> {
                log: Seq::empty(),
                receiver,
                current: 0,
                limit: self.limit as int,
                saved: if self.saved {
                    Some(0int)
                } else {
                    None
                },
            }),
            record.slot is None,
            record.wf(),
    {
        Record {
            commands: VecDeque::with_capacity(self.capacity),
            receiver,
            current: 0,
            limit: self.limit,
            saved: if self.saved {
                Some(0)
            } else {
                None
            },
            slot: None,
        }
    }

    /// Builds the record with the slot connected.
    pub fn build_with<R, C>(self, receiver: R, slot: Slot) -> (record: Record<R, C>)
        requires
            self.limit >= 1,
        ensures
            record@ == (RecordModel::<R, C> {
                log: Seq::empty(),
                receiver,
                current: 0,
                limit: self.limit as int,
                saved: if self.saved {
                    Some(0int)
                } else {
                    None
                },
            }),
            record.slot == Some(slot),
            record.wf(),
    {
        Record {
            commands: VecDeque::with_capacity(self.capacity),
            receiver,
            current: 0,
            limit: self.limit,
            saved: if self.saved {
                Some(0)
            } else {
                None
            },
            slot: Some(slot),
        }
    }
}

impl RecordBuilder {
    /// Builds the record with a defaulted receiver.
    pub fn default<R: Default, C>(self) -> (record: Record<R, C>)
        requires
            self.limit >= 1,
        ensures
            record@.log.len() == 0,
            record@.current == 0,
            record@.limit == self.limit,
            record@.saved == (if self.saved {
                Some(0int)
            } else {
                None
            }),
            record.slot is None,
            record.wf(),
    {
        self.build(R::default())
    }

    /// Builds the record with a defaulted receiver and the slot
    /// connected.
    pub fn default_with<R: Default, C>(self, slot: Slot) -> (record: Record<R, C>)
        requires
            self.limit >= 1,
        ensures
            record@.log.len() == 0,
            record@.current == 0,
            record@.limit == self.limit,
            record@.saved == (if self.saved {
                Some(0int)
            } else {
                None
            }),
            record.slot == Some(slot),
            record.wf(),
    {
        self.build_with(R::default(), slot)
    }
}

} // verus!
