//! The branch-preserving undo-redo engine: a record whose divergent
//! applies keep the discarded redo-suffix as a branch.
//!
//! A history owns one active timeline, materialized as a [`Record`], plus
//! an arena of inactive branches. A branch stores the suffix of entries
//! from its divergence point on, the branch it diverged from, and its own
//! saved marker; branch ids are allocated in creation order and branches
//! are never deleted. Switching the active branch walks the receiver to
//! the divergence point, exchanges the suffixes, and reports
//! [`Signal::Root`].
//!
//! Two details the surrounding description leaves open are settled here:
//! a saved marker that sits beyond the divergence point migrates into the
//! branch that keeps those entries, and a divergent apply re-parents the
//! branches that hung off the moved suffix onto the branch that now holds
//! it.

use crate::record::{applied_at, now_millis, Record, RecordModel};
use crate::{Command, Entry, Error, Signal, Slot};
use std::collections::VecDeque;
use vstd::prelude::*;

verus! {

/// One inactive timeline: the entries above its divergence point, kept
/// so the timeline can be made active again.
pub struct Branch<C> {
    /// The branch this one diverged from.
    pub parent: usize,
    /// The cursor position in the parent's timeline where this branch
    /// diverges; the stored entries continue from there.
    pub at: usize,
    /// The entries from the divergence point on, oldest first.
    pub entries: VecDeque<Entry<C>>,
    /// This branch's own saved marker, in absolute positions.
    pub saved: Option<usize>,
}

/// The mathematical state of a [`Branch`].
#[verifier::ext_equal]
pub ghost struct BranchModel<C> {
    /// The branch this one diverged from.
    pub parent: int,
    /// The divergence position.
    pub at: int,
    /// The stored suffix.
    pub entries: Seq<Entry<C>>,
    /// The branch's saved marker.
    pub saved: Option<int>,
}

impl<C> View for Branch<C> {
    type V = BranchModel<C>;

    open spec fn view(&self) -> BranchModel<C> {
        BranchModel {
            parent: self.parent as int,
            at: self.at as int,
            entries: self.entries@,
            saved: match self.saved {
                Some(s) => Some(s as int),
                None => None,
            },
        }
    }
}

/// The mathematical state of a [`History`]: the active timeline, the
/// branch arena, and the active branch id. The connected slot is
/// described separately, as for a record.
#[verifier::ext_equal]
pub ghost struct HistoryModel<R, C> {
    /// The active timeline.
    pub record: RecordModel<R, C>,
    /// The branch arena; the active branch's slot is empty.
    pub branches: Seq<Option<BranchModel<C>>>,
    /// The id of the active branch.
    pub root: int,
}

/// Whether `child` names a stored branch that diverges directly from
/// the active branch, within the active branch's log.
pub open spec fn can_switch<R, C>(h: HistoryModel<R, C>, child: int) -> bool {
    &&& 0 <= child < h.branches.len()
    &&& child != h.root
    &&& (h.branches[child] matches Some(b) && b.parent == h.root && b.at
        <= h.record.log.len())
}

/// The state after making the stored direct child `child` active: the
/// receiver walks to the divergence point, the suffixes are exchanged
/// there, the saved markers swap places, and the child becomes the
/// root.
pub open spec fn switch_step<R, C: Command<R>>(
    h: HistoryModel<R, C>,
    child: int,
) -> HistoryModel<R, C>
    recommends
        can_switch(h, child),
{
    let b = match h.branches[child] {
        Some(b) => b,
        None => BranchModel { parent: 0, at: 0, entries: Seq::empty(), saved: None },
    };
    let walked = h.record.goto_walk(b.at);
    HistoryModel {
        record: RecordModel {
            log: walked.log.take(b.at) + b.entries,
            receiver: walked.receiver,
            current: b.at,
            limit: walked.limit,
            saved: b.saved,
        },
        branches: h.branches.update(
            h.root,
            Some(
                BranchModel {
                    parent: child,
                    at: b.at,
                    entries: walked.log.skip(b.at),
                    saved: walked.saved,
                },
            ),
        ).update(child, None),
        root: child,
    }
}

/// How a walk to `(branch, cursor)` relates the state before to the
/// state after, on success: within the active branch it is the exact
/// walk; one divergence away it is the exact switch followed by the
/// walk; further away the result is pinned to the requested position,
/// reached one divergence at a time.
pub open spec fn hgoto_rel<R, C: Command<R>>(
    h: HistoryModel<R, C>,
    branch: int,
    cursor: int,
    h2: HistoryModel<R, C>,
) -> bool {
    if branch == h.root {
        &&& 0 <= cursor <= h.record.log.len()
        &&& h2 == (HistoryModel { record: h.record.goto_walk(cursor), ..h })
    } else if can_switch(h, branch) {
        let hopped = switch_step(h, branch);
        &&& 0 <= cursor <= hopped.record.log.len()
        &&& h2 == (HistoryModel { record: hopped.record.goto_walk(cursor), ..hopped })
    } else {
        &&& h2.root == branch
        &&& h2.record.current == cursor
        &&& h2.branches.len() == h.branches.len()
    }
}

/// A stored branch as a divergent apply at position `at` of the branch
/// `root` leaves it: one that hung off the moved suffix follows it onto
/// the fresh branch, the rest stay as they were.
pub open spec fn reparented<C>(b: BranchModel<C>, root: int, at: int, fresh: int) -> BranchModel<
    C,
> {
    if b.parent == root && b.at >= at {
        BranchModel { parent: fresh, ..b }
    } else {
        b
    }
}

/// How a successful apply relates the state before to the state after,
/// the reported signals aside: the active timeline takes the apply step
/// at some creation time; a divergent apply preserves the suffix as a
/// fresh branch and re-parents the branches that hung off it, and a
/// straight apply leaves the arena alone.
pub open spec fn happly_rel<R, C: Command<R>>(
    h: HistoryModel<R, C>,
    c: C,
    h2: HistoryModel<R, C>,
) -> bool {
    &&& h2.root == h.root
    &&& (exists|ts: i64|
        h2.record == (#[trigger] h.record.apply_step(Entry { command: c, timestamp: ts })).0)
    &&& (h.record.current < h.record.log.len() ==> {
        &&& h2.branches.len() == h.branches.len() + 1
        &&& (h2.branches.last() matches Some(b) && b.entries == h.record.log.skip(
            h.record.current,
        ) && b.at == h.record.current && b.parent == h.root)
        &&& forall|i: int|
            0 <= i < h.branches.len() ==> ((h.branches[i] is None
                <==> #[trigger] h2.branches[i] is None) && (h.branches[i] matches Some(b)
                ==> (h2.branches[i] matches Some(nb) && nb == reparented(
                b,
                h.root,
                h.record.current,
                h.branches.len() as int,
            ))))
    })
    &&& (h.record.current == h.record.log.len() ==> h2.branches == h.branches)
}

/// A history of commands: a record that preserves divergent timelines.
pub struct History<R, C> {
    /// The active timeline.
    pub record: Record<R, C>,
    /// The branch arena, indexed by branch id. The active branch's slot
    /// is empty; every other slot holds the stored branch.
    pub branches: Vec<Option<Branch<C>>>,
    /// The id of the active branch.
    pub root: usize,
}

impl<R, C> View for History<R, C> {
    type V = HistoryModel<R, C>;

    open spec fn view(&self) -> HistoryModel<R, C> {
        HistoryModel {
            record: self.record@,
            branches: Seq::new(
                self.branches@.len(),
                |i: int|
                    match self.branches@[i] {
                        Some(b) => Some(b@),
                        None => None,
                    },
            ),
            root: self.root as int,
        }
    }
}

impl<R, C> History<R, C> {
    /// The structural invariant: the active record is in bounds, the
    /// root id names the one empty arena slot.
    pub open spec fn inv(self) -> bool {
        &&& self.record.bounded()
        &&& self.root < self.branches@.len()
        &&& self.branches@[self.root as int] is None
        &&& forall|i: int|
            0 <= i < self.branches@.len() && i != self.root ==> self.branches@[i] is Some
    }

    /// Returns a new history with one empty active branch.
    pub fn new(receiver: R) -> (history: History<R, C>)
        ensures
            history.inv(),
            history.record@ == (RecordModel::<R, C> {
                log: Seq::empty(),
                receiver,
                current: 0,
                limit: usize::MAX as int,
                saved: Some(0int),
            }),
            history.root == 0,
            history.branches@.len() == 1,
    {
        let mut branches: Vec<Option<Branch<C>>> = Vec::new();
        branches.push(None);
        History { record: Record::new(receiver), branches, root: 0 }
    }

    /// Returns the id of the active branch.
    pub fn root(&self) -> (root: usize)
        ensures
            root == self.root,
    {
        self.root
    }

    /// Returns the position of the current command in the active branch.
    pub fn current(&self) -> (current: usize)
        ensures
            current == self.record@.current,
    {
        self.record.current()
    }

    /// Returns the number of commands in the active branch.
    pub fn len(&self) -> (len: usize)
        ensures
            len == self.record@.log.len(),
    {
        self.record.len()
    }

    /// Returns the number of branches, the active one included.
    pub fn branch_count(&self) -> (count: usize)
        ensures
            count == self.branches@.len(),
    {
        self.branches.len()
    }

    /// Returns the stored branch with the given id, or `None` for the
    /// active branch or an unknown id.
    pub fn branch(&self, id: usize) -> (branch: Option<&Branch<C>>)
        ensures
            id < self.branches@.len() ==> branch == (match self.branches@[id as int] {
                Some(b) => Some(&b),
                None => None,
            }),
            id >= self.branches@.len() ==> branch is None,
    {
        if id < self.branches.len() {
            match &self.branches[id] {
                Some(b) => Some(b),
                None => None,
            }
        } else {
            None
        }
    }

    /// Returns `true` if the active branch can undo.
    pub fn can_undo(&self) -> (can: bool)
        ensures
            can == self.record@.can_undo(),
    {
        self.record.can_undo()
    }

    /// Returns `true` if the active branch can redo.
    pub fn can_redo(&self) -> (can: bool)
        ensures
            can == self.record@.can_redo(),
    {
        self.record.can_redo()
    }

    /// Returns `true` if the receiver is in a saved state of the active
    /// branch.
    pub fn is_saved(&self) -> (saved: bool)
        ensures
            saved == self.record@.is_saved(),
    {
        self.record.is_saved()
    }

    /// Connects a slot for the history to report its signals to. The
    /// previous slot is returned if it exists.
    pub fn connect(&mut self, slot: Slot) -> (previous: Option<Slot>)
        ensures
            final(self).record.slot == Some(slot),
            previous == old(self).record.slot,
            final(self).record@ == old(self).record@,
            final(self).branches == old(self).branches,
            final(self).root == old(self).root,
            old(self).inv() ==> final(self).inv(),
    {
        self.record.connect(slot)
    }

    /// Removes and returns the slot, with every signal it has collected.
    pub fn disconnect(&mut self) -> (slot: Option<Slot>)
        ensures
            final(self).record.slot is None,
            slot == old(self).record.slot,
            final(self).record@ == old(self).record@,
            final(self).branches == old(self).branches,
            final(self).root == old(self).root,
            old(self).inv() ==> final(self).inv(),
    {
        self.record.disconnect()
    }

    /// Returns a reference to the receiver.
    pub fn as_receiver(&self) -> (receiver: &R)
        ensures
            *receiver == self.record@.receiver,
    {
        self.record.as_receiver()
    }

    /// Returns a mutable reference to the receiver.
    ///
    /// This method should **only** be used when doing changes that should
    /// not be able to be undone.
    pub fn as_mut_receiver(&mut self) -> (receiver: &mut R)
        ensures
            *receiver == old(self).record@.receiver,
            final(self).record@ == (RecordModel {
                receiver: *final(receiver),
                ..old(self).record@
            }),
            final(self).branches == old(self).branches,
            final(self).root == old(self).root,
            final(self).record.slot == old(self).record.slot,
            old(self).inv() ==> final(self).inv(),
    {
        self.record.as_mut_receiver()
    }

    /// Opens a checkpoint over this history, consuming it; the
    /// checkpoint hands the history back when it is closed.
    pub fn checkpoint(self) -> (cp: crate::checkpoint::Checkpoint<History<R, C>, C>) where C: Command<R>
        ensures
            cp.inner == self,
            cp.actions@.len() == 0,
            cp.outer@.len() == 0,
    {
        crate::checkpoint::Checkpoint::new_history(self)
    }

    /// Opens a queue over this history, consuming it; the queue hands
    /// the history back when it is closed.
    pub fn queue(self) -> (queue: crate::queue::Queue<History<R, C>, C>) where C: Command<R>
        ensures
            queue.inner == self,
            queue.actions@.len() == 0,
            queue.outer@.len() == 0,
    {
        crate::queue::Queue::new_history(self)
    }

    /// Consumes the history, returning the receiver.
    pub fn into_receiver(self) -> (receiver: R)
        ensures
            receiver == self.record@.receiver,
    {
        self.record.into_receiver()
    }
}

impl<R, C: Command<R>> History<R, C> {
    /// Marks the receiver as being in a saved or unsaved state of the
    /// active branch.
    pub fn set_saved(&mut self, saved: bool)
        requires
            old(self).inv(),
        ensures
            final(self).inv(),
            final(self).record@ == (RecordModel {
                saved: if saved {
                    Some(old(self).record@.current)
                } else {
                    None
                },
                ..old(self).record@
            }),
            final(self).branches == old(self).branches,
            final(self).root == old(self).root,
    {
        self.record.set_saved(saved)
    }

    /// Pushes the command onto the active branch and executes its apply
    /// method. When the cursor was not at the end of the branch, the
    /// redoable suffix is not discarded: it becomes a new branch rooted
    /// at the divergence point, the branches that hung off the moved
    /// entries are re-parented onto it, and a saved marker beyond the
    /// divergence migrates with it.
    ///
    /// # Errors
    /// If the apply fails, nothing changes and the command is handed back
    /// inside the error.
    #[verifier::loop_isolation(false)]
    pub fn apply(&mut self, command: C) -> (res: Result<(), Error<R, C>>)
        requires
            old(self).inv(),
        ensures
            final(self).inv(),
            final(self).root == old(self).root,
            res is Err ==> final(self).record@.log == old(self).record@.log && final(self).record@.current == old(self).record@.current && final(self).branches@.len() == old(self).branches@.len(),
            res is Ok ==> command.can_apply(old(self).record@.receiver) && (exists|ts: i64|
                #[trigger] applied_at(
                    old(self).record@,
                    old(self).record.slot,
                    final(self).record@,
                    final(self).record.slot,
                    command,
                    ts,
                )),
            // A divergent apply preserves the whole old timeline: the new
            // branch keeps the discarded suffix at the divergence point.
            res is Ok && old(self).record@.current < old(self).record@.log.len() ==> final(self).branches@.len() == old(self).branches@.len() + 1 && (final(self).branches@.last() matches Some(b) && b@.entries == old(self).record@.log.skip(
                old(self).record@.current,
            ) && b@.at == old(self).record@.current && b@.parent == old(self).root),
            res is Ok && old(self).record@.current < old(self).record@.log.len() ==> (forall|
                i: int,
            |
                0 <= i < old(self).branches@.len() ==> ((old(self).branches@[i] is None
                    <==> #[trigger] final(self).branches@[i] is None) && (old(self).branches@[i] matches Some(b) ==> (final(self).branches@[i] matches Some(nb)
                    && nb@ == reparented(
                    b@,
                    old(self).root as int,
                    old(self).record@.current,
                    old(self).branches@.len() as int,
                ))))),
            res is Ok && old(self).record@.current == old(self).record@.log.len() ==> final(self).branches == old(self).branches,
            res is Err ==> final(self).branches == old(self).branches,
            res is Ok ==> happly_rel(old(self)@, command, final(self)@),
    {
        let timestamp = now_millis();
        let ghost h0 = self@;
        let ghost c0 = command;
        let ghost pre = self.record@;
        let ghost pre_slot = self.record.slot;
        let at = self.record.current();
        let old_saved = self.record.is_saved();
        let migrated = match self.record.saved {
            Some(s) => if s > at {
                Some(s)
            } else {
                None
            },
            None => None,
        };
        match self.record.__apply(Entry { command, timestamp }) {
            Ok((_, tail)) => {
                proof {
                    assert(applied_at(
                        pre,
                        pre_slot,
                        self.record@,
                        self.record.slot,
                        command,
                        timestamp,
                    ));
                }
                if tail.len() > 0 {
                    let ghost rec_after = self.record;
                    let fresh = self.branches.len();
                    // Branches that hung off the moved suffix follow it.
                    let mut i: usize = 0;
                    while i < self.branches.len()
                        invariant
                            self.record == rec_after,
                            self.branches@.len() == old(self).branches@.len(),
                            i <= self.branches@.len(),
                            self.root == old(self).root,
                            forall|j: int|
                                i <= j < self.branches@.len() ==> self.branches@[j] == old(self).branches@[j],
                            forall|j: int|
                                0 <= j < i ==> ((old(self).branches@[j] is None
                                    <==> #[trigger] self.branches@[j] is None) && (old(self).branches@[j] matches Some(b) ==> (
                                self.branches@[j] matches Some(nb) && nb@ == reparented(
                                    b@,
                                    old(self).root as int,
                                    at as int,
                                    fresh as int,
                                )))),
                        decreases self.branches@.len() - i,
                    {
                        let reparent = match &self.branches[i] {
                            Some(b) => b.parent == self.root && b.at >= at,
                            None => false,
                        };
                        if reparent {
                            let mut taken: Option<Branch<C>> = None;
                            core::mem::swap(&mut taken, &mut self.branches[i]);
                            match taken {
                                Some(b) => {
                                    let moved = Branch { parent: fresh, ..b };
                                    let mut put = Some(moved);
                                    core::mem::swap(&mut put, &mut self.branches[i]);
                                },
                                None => {
                                    proof {
                                        assert(false);
                                    }
                                },
                            }
                        }
                        i = i + 1;
                    }
                    self.branches.push(
                        Some(Branch { parent: self.root, at, entries: tail, saved: migrated }),
                    );
                }
                proof {
                    assert(self@.record == h0.record.apply_step(
                        Entry { command: c0, timestamp },
                    ).0);
                    if h0.record.current == h0.record.log.len() {
                        assert(self@.branches =~= h0.branches);
                    }
                    assert(happly_rel(h0, c0, self@));
                }
                Ok(())
            },
            Err(e) => Err(e),
        }
    }

    /// Calls the undo method for the active entry of the active branch,
    /// as [`Record::undo`] does.
    pub fn undo(&mut self) -> (res: Option<Result<(), Error<R, C>>>)
        requires
            old(self).inv(),
        ensures
            final(self).inv(),
            final(self).branches == old(self).branches,
            final(self).root == old(self).root,
            res is None <==> old(self).record@.current == 0,
            res is None ==> final(self).record@ == old(self).record@ && final(self).record.slot
                == old(self).record.slot,
            res matches Some(r) ==> r is Ok ==> ({
                let (post, sigs) = old(self).record@.undo_step();
                final(self).record@ == post && crate::slot_emits(
                    old(self).record.slot,
                    final(self).record.slot,
                    sigs,
                )
            }),
            res matches Some(r) ==> r matches Err(err) ==> ({
                let at = old(self).record@.current - 1;
                &&& final(self).record@.log == old(self).record@.log.remove(at)
                &&& final(self).record@.current == at
                &&& final(self).record@.saved == old(self).record@.saved_after_evict(at)
                &&& final(self).record@.limit == old(self).record@.limit
                &&& final(self).record.slot == old(self).record.slot
                &&& err.entry.timestamp == old(self).record@.log[at].timestamp
            }),
    {
        self.record.undo()
    }

    /// Calls the redo method for the next entry of the active branch, as
    /// [`Record::redo`] does.
    pub fn redo(&mut self) -> (res: Option<Result<(), Error<R, C>>>)
        requires
            old(self).inv(),
        ensures
            final(self).inv(),
            final(self).branches == old(self).branches,
            final(self).root == old(self).root,
            res is None <==> old(self).record@.current == old(self).record@.log.len(),
            res is None ==> final(self).record@ == old(self).record@ && final(self).record.slot
                == old(self).record.slot,
            res matches Some(r) ==> r is Ok ==> ({
                let (post, sigs) = old(self).record@.redo_step();
                final(self).record@ == post && crate::slot_emits(
                    old(self).record.slot,
                    final(self).record.slot,
                    sigs,
                )
            }),
            res matches Some(r) ==> r matches Err(err) ==> ({
                let at = old(self).record@.current;
                &&& final(self).record@.log == old(self).record@.log.remove(at)
                &&& final(self).record@.current == at
                &&& final(self).record@.saved == old(self).record@.saved_after_evict(at)
                &&& final(self).record@.limit == old(self).record@.limit
                &&& final(self).record.slot == old(self).record.slot
                &&& err.entry.timestamp == old(self).record@.log[at].timestamp
            }),
    {
        self.record.redo()
    }

    /// Makes the stored branch `child`, which diverges from the active
    /// branch, the active one: walks the receiver to the divergence
    /// point, exchanges the suffixes there, swaps the saved markers, and
    /// reports the root change.
    ///
    /// Returns `None`, changing nothing, when `child` is not a stored
    /// direct child of the active branch or its divergence point is out
    /// of range.
    fn switch_to(&mut self, child: usize) -> (res: Option<Result<(), Error<R, C>>>)
        requires
            old(self).inv(),
        ensures
            final(self).inv(),
            final(self).branches@.len() == old(self).branches@.len(),
            can_switch(old(self)@, child as int) ==> res is Some,
            res is None ==> *final(self) == *old(self) && !can_switch(
                old(self)@,
                child as int,
            ),
            res matches Some(r) ==> r is Ok ==> final(self)@ == switch_step(
                old(self)@,
                child as int,
            ) && final(self).root == child,
            res matches Some(r) ==> r is Err ==> final(self).root == old(self).root && final(self)@.branches == old(self)@.branches,
    {
        if child >= self.branches.len() || child == self.root {
            return None;
        }
        let fits = match &self.branches[child] {
            Some(b) => b.parent == self.root && b.at <= self.record.len(),
            None => false,
        };
        if !fits {
            return None;
        }
        let mut taken: Option<Branch<C>> = None;
        core::mem::swap(&mut taken, &mut self.branches[child]);
        match taken {
            Some(b) => {
                // Walk to the divergence point first.
                let ghost prerec = self.record@;
                match self.record.go_to(b.at) {
                    Some(Ok(())) => {
                        proof {
                            crate::record::lemma_goto_walk(prerec, b.at as int);
                        }
                    },
                    Some(Err(e)) => {
                        let mut put = Some(b);
                        core::mem::swap(&mut put, &mut self.branches[child]);
                        return Some(Err(e));
                    },
                    None => {
                        proof {
                            assert(false);
                        }
                        let mut put = Some(b);
                        core::mem::swap(&mut put, &mut self.branches[child]);
                        return None;
                    },
                }
                // Exchange the suffixes and the saved markers.
                let old_suffix = self.record.commands.split_off(b.at);
                let mut incoming = b.entries;
                self.record.commands.append(&mut incoming);
                let old_saved = self.record.saved;
                self.record.saved = b.saved;
                let stored = Branch {
                    parent: child,
                    at: b.at,
                    entries: old_suffix,
                    saved: old_saved,
                };
                let old_root = self.root;
                let mut put = Some(stored);
                core::mem::swap(&mut put, &mut self.branches[old_root]);
                self.root = child;
                match &mut self.record.slot {
                    Some(slot) => {
                        slot.signals.push(Signal::Root { old: old_root, new: child });
                    },
                    None => (),
                }
                proof {
                    let target = switch_step(old(self)@, child as int);
                    assert(self@.record.log =~= target.record.log);
                    assert(self@.record =~= target.record);
                    assert(self@.branches =~= target.branches);
                    assert(self@ =~= target);
                }
                Some(Ok(()))
            },
            None => {
                proof {
                    assert(false);
                }
                None
            },
        }
    }

    /// Repeatedly switches branches and walks within them until the
    /// cursor `cursor` of branch `branch` becomes the active position.
    ///
    /// The target branch is reached by climbing its parent chain up to
    /// the active branch and switching one divergence at a time; each
    /// branch change reports [`Signal::Root`]. Returns `None`, changing
    /// nothing, when the branch id is unknown or the cursor is out of
    /// range. If a step fails, the walk stops where it is and the step's
    /// error is returned.
    #[verifier::loop_isolation(false)]
    pub fn go_to(&mut self, branch: usize, cursor: usize) -> (res: Option<
        Result<(), Error<R, C>>,
    >)
        requires
            old(self).inv(),
        ensures
            final(self).inv(),
            final(self).branches@.len() == old(self).branches@.len(),
            res matches Some(r) ==> r is Ok ==> final(self).root == branch && final(self).record@.current == cursor,
            res matches Some(r) ==> r is Ok ==> hgoto_rel(
                old(self)@,
                branch as int,
                cursor as int,
                final(self)@,
            ),
            branch == old(self).root && cursor <= old(self).record@.log.len() ==> res is Some,
            branch != old(self).root && can_switch(old(self)@, branch as int) && cursor
                <= switch_step(old(self)@, branch as int).record.log.len() ==> res is Some,
            res is None ==> !(branch == old(self).root && cursor <= old(self).record@.log.len())
                && !(can_switch(old(self)@, branch as int) && cursor <= switch_step(
                old(self)@,
                branch as int,
            ).record.log.len()),
            branch == old(self).root ==> (res matches Some(r) ==> r is Ok ==> final(self).record@ == old(self).record@.goto_walk(cursor as int) && crate::slot_emits(
                old(self).record.slot,
                final(self).record.slot,
                old(self).record@.goto_signals(cursor as int),
            )),
    {
        if branch == self.root {
            let ghost prerec = self.record@;
            let walked = self.record.go_to(cursor);
            proof {
                if cursor <= prerec.log.len() {
                    crate::record::lemma_goto_walk(prerec, cursor as int);
                }
                if walked matches Some(ref r) && r is Ok {
                    assert(self@ =~= (HistoryModel {
                        record: old(self)@.record.goto_walk(cursor as int),
                        ..old(self)@
                    }));
                }
            }
            return walked;
        }
        if branch >= self.branches.len() {
            return None;
        }
        // A stored direct child: one exact switch, then the walk.
        let direct = match &self.branches[branch] {
            Some(b) => b.parent == self.root && b.at <= self.record.len(),
            None => false,
        };
        if direct {
            match self.switch_to(branch) {
                Some(Ok(())) => (),
                Some(Err(e)) => {
                    return Some(Err(e));
                },
                None => {
                    proof {
                        assert(false);
                    }
                    return None;
                },
            }
            let ghost hopped = self@;
            let ghost prerec = self.record@;
            let walked = self.record.go_to(cursor);
            proof {
                if cursor <= prerec.log.len() {
                    crate::record::lemma_goto_walk(prerec, cursor as int);
                }
                if walked matches Some(ref r) && r is Ok {
                    assert(self@ =~= (HistoryModel {
                        record: hopped.record.goto_walk(cursor as int),
                        ..hopped
                    }));
                }
            }
            return walked;
        }
        // Climb the parent chain from the target to the active branch.
        let mut path: Vec<usize> = Vec::new();
        let mut cur = branch;
        let mut steps: usize = 0;
        while cur != self.root && steps < self.branches.len()
            invariant
                self.inv(),
                *self == *old(self),
                cur != self.root ==> cur < self.branches@.len(),
                path@.len() <= steps,
            decreases self.branches@.len() - steps,
        {
            match &self.branches[cur] {
                Some(b) => {
                    path.push(cur);
                    let parent = b.parent;
                    if parent >= self.branches.len() {
                        return None;
                    }
                    cur = parent;
                },
                None => {
                    proof {
                        assert(false);
                    }
                    return None;
                },
            }
            steps = steps + 1;
        }
        if cur != self.root {
            // The parent chain did not reach the active branch; with
            // intact links this cannot happen.
            return None;
        }
        // Switch one divergence at a time, nearest first.
        while path.len() > 0
            invariant
                self.inv(),
                self.branches@.len() == old(self).branches@.len(),
            decreases path@.len(),
        {
            let next = match path.pop() {
                Some(id) => id,
                None => {
                    proof {
                        assert(false);
                    }
                    return None;
                },
            };
            match self.switch_to(next) {
                Some(Ok(())) => (),
                Some(Err(e)) => return Some(Err(e)),
                None => return None,
            }
        }
        if branch != self.root {
            return None;
        }
        let ghost prerec = self.record@;
        let walked = self.record.go_to(cursor);
        proof {
            if cursor <= prerec.log.len() {
                crate::record::lemma_goto_walk(prerec, cursor as int);
            }
        }
        walked
    }
}

} // verus!
