//! A checkpoint wrapper: makes a scope of operations on a record or a
//! history revocable through compensating actions.

use crate::history::{can_switch, happly_rel, hgoto_rel, switch_step, History, HistoryModel};
use crate::record::{applied_at, Record, RecordModel};
use crate::{Command, Entry, Error};
use std::collections::VecDeque;
use vstd::prelude::*;

verus! {

/// A compensating action, describing how to reverse one forwarded call.
#[derive(Debug)]
pub enum Action<C> {
    /// Reverse a successful apply: undo the applied command, then splice
    /// the redoable suffix that the apply had truncated back in.
    Apply(VecDeque<Entry<C>>),
    /// Reverse a successful undo by redoing.
    Undo,
    /// Reverse a successful redo by undoing.
    Redo,
    /// Return to the branch and cursor a call moved away from.
    GoTo(usize, usize),
}

/// The state reached by replaying one compensating action, provided every
/// engine step it takes succeeds. A step that is not available (an undo
/// at the bottom, a cursor out of range) is skipped, as the replay skips
/// it.
pub open spec fn unwind_one<R, C: Command<R>>(
    m: RecordModel<R, C>,
    a: Action<C>,
) -> RecordModel<R, C> {
    match a {
        Action::Apply(d) => {
            let u = if m.current > 0 {
                m.undo_step().0
            } else {
                m
            };
            RecordModel { log: u.log.take(u.current) + d@, ..u }
        },
        Action::Undo => if m.current < m.log.len() {
            m.redo_step().0
        } else {
            m
        },
        Action::Redo => if m.current > 0 {
            m.undo_step().0
        } else {
            m
        },
        Action::GoTo(b, c) => if c <= m.log.len() {
            m.goto_walk(c as int)
        } else {
            m
        },
    }
}

/// The state reached by replaying a whole action stack in reverse,
/// newest action first, provided every engine step succeeds.
pub open spec fn unwind_all<R, C: Command<R>>(
    m: RecordModel<R, C>,
    actions: Seq<Action<C>>,
) -> RecordModel<R, C>
    decreases actions.len(),
{
    if actions.len() == 0 {
        m
    } else {
        unwind_all(unwind_one(m, actions.last()), actions.drop_last())
    }
}

/// A checkpoint wrapper.
///
/// Owns a [`Record`] or a [`History`] for the length of a transaction and
/// records one compensating action per successful forwarded call.
/// [`Checkpoint::commit`] discards the innermost scope's actions;
/// [`Checkpoint::cancel`] replays them in reverse. Scopes nest: a call to
/// [`Checkpoint::checkpoint`] opens an inner scope whose commit folds its
/// actions into nothing, since every call was already taken against the
/// owned engine itself.
pub struct Checkpoint<T, C> {
    /// The engine the checkpoint operates on.
    pub inner: T,
    /// The compensating actions of the innermost open scope, oldest
    /// first.
    pub actions: Vec<Action<C>>,
    /// The suspended action stacks of the enclosing scopes.
    pub outer: Vec<Vec<Action<C>>>,
}

impl<R, C: Command<R>> Checkpoint<Record<R, C>, C> {
    /// Opens a checkpoint over the record.
    pub fn new(inner: Record<R, C>) -> (cp: Checkpoint<Record<R, C>, C>)
        ensures
            cp.inner == inner,
            cp.actions@.len() == 0,
            cp.outer@.len() == 0,
    {
        Checkpoint { inner, actions: Vec::new(), outer: Vec::new() }
    }

    /// Opens a nested scope: later calls are recorded in it until it is
    /// committed or cancelled, and the current scope is suspended.
    pub fn checkpoint(&mut self)
        ensures
            final(self).inner == old(self).inner,
            final(self).actions@.len() == 0,
            final(self).outer@ == old(self).outer@.push(old(self).actions),
    {
        let mut opened = Vec::new();
        core::mem::swap(&mut opened, &mut self.actions);
        self.outer.push(opened);
    }

    /// Calls [`Record::apply`] and records how to reverse it, keeping the
    /// suffix the apply truncated so a cancel can splice it back.
    pub fn apply(&mut self, command: C) -> (res: Result<(), Error<R, C>>)
        requires
            old(self).inner.bounded(),
        ensures
            final(self).inner.bounded(),
            old(self).inner.wf() ==> final(self).inner.wf(),
            final(self).outer@ == old(self).outer@,
            res is Err ==> final(self).inner@.log == old(self).inner@.log && final(self).inner@.current == old(self).inner@.current && final(self).actions@ == old(self).actions@,
            res is Ok ==> command.can_apply(old(self).inner@.receiver) && (exists|ts: i64|
                #[trigger] applied_at(
                    old(self).inner@,
                    old(self).inner.slot,
                    final(self).inner@,
                    final(self).inner.slot,
                    command,
                    ts,
                )) && final(self).actions@.len() == old(self).actions@.len() + 1 && final(self).actions@.take(old(self).actions@.len() as int) == old(self).actions@ && (final(self).actions@.last() matches Action::Apply(d) && d@ == old(self).inner@.log.skip(
                old(self).inner@.current,
            )),
    {
        let timestamp = crate::record::now_millis();
        let ghost pre = self.inner@;
        let ghost pre_slot = self.inner.slot;
        match self.inner.__apply(Entry { command, timestamp }) {
            Ok((_, tail)) => {
                proof {
                    assert(applied_at(
                        pre,
                        pre_slot,
                        self.inner@,
                        self.inner.slot,
                        command,
                        timestamp,
                    ));
                }
                self.actions.push(Action::Apply(tail));
                Ok(())
            },
            Err(e) => Err(e),
        }
    }

    /// Calls [`Record::undo`] and, on success, records that a cancel must
    /// redo.
    pub fn undo(&mut self) -> (res: Option<Result<(), Error<R, C>>>)
        requires
            old(self).inner.bounded(),
        ensures
            final(self).inner.bounded(),
            old(self).inner.wf() ==> final(self).inner.wf(),
            final(self).outer@ == old(self).outer@,
            res is None <==> old(self).inner@.current == 0,
            res is None ==> final(self).inner@ == old(self).inner@ && final(self).inner.slot
                == old(self).inner.slot && final(self).actions@ == old(self).actions@,
            res matches Some(r) ==> r is Ok ==> final(self).inner@ == old(self).inner@.undo_step().0 && final(self).actions@ == old(self).actions@.push(
                Action::Undo,
            ),
            res matches Some(r) ==> r is Err ==> final(self).actions@ == old(self).actions@,
    {
        match self.inner.undo() {
            Some(r) => match r {
                Ok(()) => {
                    self.actions.push(Action::Undo);
                    Some(Ok(()))
                },
                Err(e) => Some(Err(e)),
            },
            None => None,
        }
    }

    /// Calls [`Record::redo`] and, on success, records that a cancel must
    /// undo.
    pub fn redo(&mut self) -> (res: Option<Result<(), Error<R, C>>>)
        requires
            old(self).inner.bounded(),
        ensures
            final(self).inner.bounded(),
            old(self).inner.wf() ==> final(self).inner.wf(),
            final(self).outer@ == old(self).outer@,
            res is None <==> old(self).inner@.current == old(self).inner@.log.len(),
            res is None ==> final(self).inner@ == old(self).inner@ && final(self).inner.slot
                == old(self).inner.slot && final(self).actions@ == old(self).actions@,
            res matches Some(r) ==> r is Ok ==> final(self).inner@ == old(self).inner@.redo_step().0 && final(self).actions@ == old(self).actions@.push(
                Action::Redo,
            ),
            res matches Some(r) ==> r is Err ==> final(self).actions@ == old(self).actions@,
    {
        match self.inner.redo() {
            Some(r) => match r {
                Ok(()) => {
                    self.actions.push(Action::Redo);
                    Some(Ok(()))
                },
                Err(e) => Some(Err(e)),
            },
            None => None,
        }
    }

    /// Calls [`Record::go_to`] and, on success, records the cursor the
    /// walk started from.
    pub fn go_to(&mut self, cursor: usize) -> (res: Option<Result<(), Error<R, C>>>)
        requires
            old(self).inner.bounded(),
        ensures
            final(self).inner.bounded(),
            old(self).inner.wf() ==> final(self).inner.wf(),
            final(self).outer@ == old(self).outer@,
            res is None <==> cursor > old(self).inner@.log.len(),
            res is None ==> final(self).inner@ == old(self).inner@ && final(self).inner.slot
                == old(self).inner.slot && final(self).actions@ == old(self).actions@,
            res matches Some(r) ==> r is Ok ==> final(self).inner@ == old(self).inner@.goto_walk(cursor as int) && final(self).actions@ == old(self).actions@.push(
                Action::GoTo(0, old(self).inner@.current as usize),
            ),
            res matches Some(r) ==> r is Err ==> final(self).actions@ == old(self).actions@,
    {
        let before = self.inner.current();
        match self.inner.go_to(cursor) {
            Some(r) => match r {
                Ok(()) => {
                    self.actions.push(Action::GoTo(0, before));
                    Some(Ok(()))
                },
                Err(e) => Some(Err(e)),
            },
            None => None,
        }
    }

    /// Commits the innermost scope: its compensating actions are
    /// discarded and the engine keeps everything the forwarded calls did.
    pub fn commit(&mut self)
        ensures
            final(self).inner == old(self).inner,
            old(self).outer@.len() == 0 ==> final(self).actions@.len() == 0 && final(self).outer@.len() == 0,
            old(self).outer@.len() > 0 ==> final(self).actions == old(self).outer@.last()
                && final(self).outer@ == old(self).outer@.drop_last(),
    {
        match self.outer.pop() {
            Some(previous) => {
                self.actions = previous;
            },
            None => {
                self.actions = Vec::new();
            },
        }
    }

    /// Cancels the innermost scope: its compensating actions are replayed
    /// newest first. If every inverse step succeeds, the engine is left
    /// in the state [`unwind_all`] describes; if one fails, the replay
    /// stops at once and the engine keeps whatever the successful inverse
    /// steps produced — a documented best-effort limitation.
    #[verifier::loop_isolation(false)]
    pub fn cancel(&mut self) -> (res: Result<(), Error<R, C>>)
        requires
            old(self).inner.bounded(),
        ensures
            final(self).inner.bounded(),
            res is Ok ==> final(self).inner@ == unwind_all(
                old(self).inner@,
                old(self).actions@,
            ),
            res is Ok ==> (old(self).outer@.len() == 0 ==> final(self).actions@.len() == 0
                && final(self).outer@.len() == 0),
            res is Ok ==> (old(self).outer@.len() > 0 ==> final(self).actions == old(self).outer@.last() && final(self).outer@ == old(self).outer@.drop_last()),
            res is Err ==> final(self).outer@ == old(self).outer@,
    {
        let ghost m0 = self.inner@;
        let ghost acts0 = self.actions@;
        while self.actions.len() > 0
            invariant
                self.inner.bounded(),
                self.outer@ == old(self).outer@,
                unwind_all(self.inner@, self.actions@) == unwind_all(m0, acts0),
            decreases self.actions.len(),
        {
            let ghost prev = self.inner@;
            let ghost acts_prev = self.actions@;
            let action = self.actions.pop();
            match action {
                Some(a) => {
                    match a {
                        Action::Apply(mut d) => {
                            let ghost d0 = d;
                            match self.inner.undo() {
                                Some(Err(e)) => return Err(e),
                                _ => (),
                            }
                            let cur = self.inner.current;
                            self.inner.commands.truncate(cur);
                            self.inner.commands.append(&mut d);
                            proof {
                                assert(self.inner@.log =~= unwind_one(
                                    prev,
                                    Action::Apply(d0),
                                ).log);
                                assert(self.inner@ =~= unwind_one(prev, Action::Apply(d0)));
                            }
                        },
                        Action::Undo => {
                            match self.inner.redo() {
                                Some(Err(e)) => return Err(e),
                                _ => (),
                            }
                        },
                        Action::Redo => {
                            match self.inner.undo() {
                                Some(Err(e)) => return Err(e),
                                _ => (),
                            }
                        },
                        Action::GoTo(_, cursor) => {
                            match self.inner.go_to(cursor) {
                                Some(Err(e)) => return Err(e),
                                _ => (),
                            }
                        },
                    }
                    proof {
                        assert(acts_prev.drop_last() == self.actions@);
                    }
                },
                None => {
                    proof {
                        assert(false);
                    }
                },
            }
        }
        match self.outer.pop() {
            Some(previous) => {
                self.actions = previous;
            },
            None => {
                self.actions = Vec::new();
            },
        }
        Ok(())
    }

    /// Returns a reference to the receiver.
    pub fn as_receiver(&self) -> (receiver: &R)
        ensures
            *receiver == self.inner@.receiver,
    {
        self.inner.as_receiver()
    }

    /// Returns a mutable reference to the receiver.
    ///
    /// This method should **only** be used when doing changes that should
    /// not be able to be undone.
    pub fn as_mut_receiver(&mut self) -> (receiver: &mut R)
        ensures
            *receiver == old(self).inner@.receiver,
            final(self).inner@ == (RecordModel {
                receiver: *final(receiver),
                ..old(self).inner@
            }),
            final(self).actions@ == old(self).actions@,
            final(self).outer@ == old(self).outer@,
    {
        self.inner.as_mut_receiver()
    }

    /// Closes the checkpoint, handing the record back as the forwarded
    /// calls left it. Open scopes are abandoned without rollback, as a
    /// commit of each would leave them.
    pub fn into_inner(self) -> (inner: Record<R, C>)
        ensures
            inner == self.inner,
    {
        self.inner
    }
}

/// How replaying one compensating action relates history states: an
/// undo action replays a redo step, a redo action an undo step, and a
/// recorded position a walk back to it. A step that is not available is
/// skipped, and a walk whose target the arena no longer offers leaves
/// only the arena's size pinned. A history checkpoint never records a
/// suffix action, so one is skipped.
pub open spec fn hunwind_one_rel<R, C: Command<R>>(
    h: HistoryModel<R, C>,
    a: Action<C>,
    h2: HistoryModel<R, C>,
) -> bool {
    match a {
        Action::Apply(d) => h2 == h,
        Action::Undo => h2 == (if h.record.current < h.record.log.len() {
            HistoryModel { record: h.record.redo_step().0, ..h }
        } else {
            h
        }),
        Action::Redo => h2 == (if h.record.current > 0 {
            HistoryModel { record: h.record.undo_step().0, ..h }
        } else {
            h
        }),
        Action::GoTo(b, c) => hgoto_rel(h, b as int, c as int, h2) || (!(b == h.root && c
            <= h.record.log.len()) && !(can_switch(h, b as int) && c <= switch_step(
            h,
            b as int,
        ).record.log.len()) && h2.branches.len() == h.branches.len()),
    }
}

/// Replaying a whole action stack newest-first, step by step.
pub open spec fn hunwind_rel<R, C: Command<R>>(
    h: HistoryModel<R, C>,
    actions: Seq<Action<C>>,
    h2: HistoryModel<R, C>,
) -> bool
    decreases actions.len(),
{
    if actions.len() == 0 {
        h2 == h
    } else {
        exists|mid: HistoryModel<R, C>|
            #[trigger] hunwind_one_rel(h, actions.last(), mid) && hunwind_rel(
                mid,
                actions.drop_last(),
                h2,
            )
    }
}

impl<R, C: Command<R>> Checkpoint<History<R, C>, C> {
    /// Opens a checkpoint over the history.
    pub fn new_history(inner: History<R, C>) -> (cp: Checkpoint<History<R, C>, C>)
        ensures
            cp.inner == inner,
            cp.actions@.len() == 0,
            cp.outer@.len() == 0,
    {
        Checkpoint { inner, actions: Vec::new(), outer: Vec::new() }
    }

    /// Opens a nested scope: later calls are recorded in it until it is
    /// committed or cancelled, and the current scope is suspended.
    pub fn checkpoint(&mut self)
        ensures
            final(self).inner == old(self).inner,
            final(self).actions@.len() == 0,
            final(self).outer@ == old(self).outer@.push(old(self).actions),
    {
        let mut opened = Vec::new();
        core::mem::swap(&mut opened, &mut self.actions);
        self.outer.push(opened);
    }

    /// Calls [`History::apply`] and records the branch and cursor the
    /// call moved away from; a cancel walks back there, and the
    /// branch-preserving apply guarantees the old timeline still exists.
    pub fn apply(&mut self, command: C) -> (res: Result<(), Error<R, C>>)
        requires
            old(self).inner.inv(),
        ensures
            final(self).inner.inv(),
            final(self).outer@ == old(self).outer@,
            res is Ok ==> command.can_apply(old(self).inner.record@.receiver) && final(self).actions@ == old(self).actions@.push(
                Action::GoTo(old(self).inner.root, old(self).inner.record@.current as usize),
            ),
            res is Ok ==> happly_rel(old(self).inner@, command, final(self).inner@) && (exists|
                ts: i64,
            |
                #[trigger] applied_at(
                    old(self).inner.record@,
                    old(self).inner.record.slot,
                    final(self).inner.record@,
                    final(self).inner.record.slot,
                    command,
                    ts,
                )),
            res is Err ==> final(self).actions@ == old(self).actions@,
    {
        let root = self.inner.root();
        let before = self.inner.current();
        match self.inner.apply(command) {
            Ok(()) => {
                self.actions.push(Action::GoTo(root, before));
                Ok(())
            },
            Err(e) => Err(e),
        }
    }

    /// Calls [`History::undo`] and, on success, records that a cancel
    /// must redo.
    pub fn undo(&mut self) -> (res: Option<Result<(), Error<R, C>>>)
        requires
            old(self).inner.inv(),
        ensures
            final(self).inner.inv(),
            final(self).outer@ == old(self).outer@,
            res is None <==> old(self).inner.record@.current == 0,
            final(self).inner.branches == old(self).inner.branches,
            final(self).inner.root == old(self).inner.root,
            res matches Some(r) ==> r is Ok ==> final(self).inner.record@ == old(self).inner.record@.undo_step().0 && final(self).actions@ == old(self).actions@.push(
                Action::Undo,
            ),
            res matches Some(r) ==> r matches Err(err) ==> ({
                let at = old(self).inner.record@.current - 1;
                &&& final(self).inner.record@.log == old(self).inner.record@.log.remove(at)
                &&& final(self).inner.record@.current == at
                &&& final(self).actions@ == old(self).actions@
            }),
    {
        match self.inner.undo() {
            Some(r) => match r {
                Ok(()) => {
                    self.actions.push(Action::Undo);
                    Some(Ok(()))
                },
                Err(e) => Some(Err(e)),
            },
            None => None,
        }
    }

    /// Calls [`History::redo`] and, on success, records that a cancel
    /// must undo.
    pub fn redo(&mut self) -> (res: Option<Result<(), Error<R, C>>>)
        requires
            old(self).inner.inv(),
        ensures
            final(self).inner.inv(),
            final(self).outer@ == old(self).outer@,
            res is None <==> old(self).inner.record@.current == old(self).inner.record@.log.len(),
            final(self).inner.branches == old(self).inner.branches,
            final(self).inner.root == old(self).inner.root,
            res matches Some(r) ==> r is Ok ==> final(self).inner.record@ == old(self).inner.record@.redo_step().0 && final(self).actions@ == old(self).actions@.push(
                Action::Redo,
            ),
            res matches Some(r) ==> r matches Err(err) ==> ({
                let at = old(self).inner.record@.current;
                &&& final(self).inner.record@.log == old(self).inner.record@.log.remove(at)
                &&& final(self).inner.record@.current == at
                &&& final(self).actions@ == old(self).actions@
            }),
    {
        match self.inner.redo() {
            Some(r) => match r {
                Ok(()) => {
                    self.actions.push(Action::Redo);
                    Some(Ok(()))
                },
                Err(e) => Some(Err(e)),
            },
            None => None,
        }
    }

    /// Calls [`History::go_to`] and, on success, records the branch and
    /// cursor the walk started from.
    pub fn go_to(&mut self, branch: usize, cursor: usize) -> (res: Option<
        Result<(), Error<R, C>>,
    >)
        requires
            old(self).inner.inv(),
        ensures
            final(self).inner.inv(),
            final(self).outer@ == old(self).outer@,
            res matches Some(r) ==> r is Ok ==> final(self).inner.root == branch && final(self).inner.record@.current == cursor && final(self).actions@ == old(self).actions@.push(
                Action::GoTo(old(self).inner.root, old(self).inner.record@.current as usize),
            ),
            res matches Some(r) ==> r is Ok ==> hgoto_rel(
                old(self).inner@,
                branch as int,
                cursor as int,
                final(self).inner@,
            ),
            branch == old(self).inner.root && cursor <= old(self).inner.record@.log.len()
                ==> res is Some,
            branch != old(self).inner.root && can_switch(old(self).inner@, branch as int)
                && cursor <= switch_step(old(self).inner@, branch as int).record.log.len()
                ==> res is Some,
            res matches Some(r) ==> r is Err ==> final(self).actions@ == old(self).actions@,
            res is None ==> final(self).actions@ == old(self).actions@,
    {
        let root = self.inner.root();
        let before = self.inner.current();
        match self.inner.go_to(branch, cursor) {
            Some(r) => match r {
                Ok(()) => {
                    self.actions.push(Action::GoTo(root, before));
                    Some(Ok(()))
                },
                Err(e) => Some(Err(e)),
            },
            None => None,
        }
    }

    /// Commits the innermost scope: its compensating actions are
    /// discarded and the history keeps everything the forwarded calls
    /// did.
    pub fn commit(&mut self)
        ensures
            final(self).inner == old(self).inner,
            old(self).outer@.len() == 0 ==> final(self).actions@.len() == 0 && final(self).outer@.len() == 0,
            old(self).outer@.len() > 0 ==> final(self).actions == old(self).outer@.last()
                && final(self).outer@ == old(self).outer@.drop_last(),
    {
        match self.outer.pop() {
            Some(previous) => {
                self.actions = previous;
            },
            None => {
                self.actions = Vec::new();
            },
        }
    }

    /// Cancels the innermost scope: its compensating actions are replayed
    /// newest first, walking the history back branch by branch. If a
    /// step fails, the replay stops at once and the history keeps
    /// whatever the successful inverse steps produced.
    #[verifier::loop_isolation(false)]
    pub fn cancel(&mut self) -> (res: Result<(), Error<R, C>>)
        requires
            old(self).inner.inv(),
        ensures
            final(self).inner.inv(),
            res is Ok ==> hunwind_rel(old(self).inner@, old(self).actions@, final(self).inner@),
            res is Ok ==> (old(self).outer@.len() == 0 ==> final(self).actions@.len() == 0
                && final(self).outer@.len() == 0),
            res is Ok ==> (old(self).outer@.len() > 0 ==> final(self).actions == old(self).outer@.last() && final(self).outer@ == old(self).outer@.drop_last()),
            res is Err ==> final(self).outer@ == old(self).outer@,
    {
        let ghost h0 = self.inner@;
        let ghost acts0 = self.actions@;
        while self.actions.len() > 0
            invariant
                self.inner.inv(),
                self.outer@ == old(self).outer@,
                forall|p: HistoryModel<R, C>|
                    #[trigger] hunwind_rel(self.inner@, self.actions@, p) ==> hunwind_rel(
                        h0,
                        acts0,
                        p,
                    ),
            decreases self.actions.len(),
        {
            let ghost prev = self.inner@;
            let ghost acts_prev = self.actions@;
            let action = self.actions.pop();
            match action {
                Some(a) => {
                    let ghost a0 = a;
                    match a {
                        Action::Apply(_) => {
                            // A history checkpoint records a position,
                            // never a suffix: the branch-preserving apply
                            // keeps the old timeline by itself.
                        },
                        Action::Undo => {
                            match self.inner.redo() {
                                Some(Err(e)) => return Err(e),
                                _ => (),
                            }
                        },
                        Action::Redo => {
                            match self.inner.undo() {
                                Some(Err(e)) => return Err(e),
                                _ => (),
                            }
                        },
                        Action::GoTo(branch, cursor) => {
                            match self.inner.go_to(branch, cursor) {
                                Some(Err(e)) => return Err(e),
                                _ => (),
                            }
                        },
                    }
                    proof {
                        assert(hunwind_one_rel(prev, a0, self.inner@)) by {
                            match a0 {
                                Action::Undo => {
                                    if prev.record.current < prev.record.log.len() {
                                        assert(self.inner@ =~= (HistoryModel {
                                            record: prev.record.redo_step().0,
                                            ..prev
                                        }));
                                    } else {
                                        assert(self.inner@ =~= prev);
                                    }
                                },
                                Action::Redo => {
                                    if prev.record.current > 0 {
                                        assert(self.inner@ =~= (HistoryModel {
                                            record: prev.record.undo_step().0,
                                            ..prev
                                        }));
                                    } else {
                                        assert(self.inner@ =~= prev);
                                    }
                                },
                                _ => (),
                            }
                        }
                        assert forall|p: HistoryModel<R, C>|
                            #[trigger] hunwind_rel(self.inner@, self.actions@, p) implies hunwind_rel(
                            h0,
                            acts0,
                            p,
                        ) by {
                            assert(acts_prev.last() == a0);
                            assert(acts_prev.drop_last() == self.actions@);
                            assert(hunwind_rel(prev, acts_prev, p));
                        }
                    }
                },
                None => {
                    proof {
                        assert(false);
                    }
                },
            }
        }
        proof {
            assert(hunwind_rel(self.inner@, self.actions@, self.inner@));
        }
        match self.outer.pop() {
            Some(previous) => {
                self.actions = previous;
            },
            None => {
                self.actions = Vec::new();
            },
        }
        Ok(())
    }

    /// Returns a reference to the receiver.
    pub fn as_receiver(&self) -> (receiver: &R)
        ensures
            *receiver == self.inner.record@.receiver,
    {
        self.inner.as_receiver()
    }

    /// Returns a mutable reference to the receiver.
    ///
    /// This method should **only** be used when doing changes that should
    /// not be able to be undone.
    pub fn as_mut_receiver(&mut self) -> (receiver: &mut R)
        ensures
            *receiver == old(self).inner.record@.receiver,
            final(self).inner.record@ == (RecordModel {
                receiver: *final(receiver),
                ..old(self).inner.record@
            }),
            final(self).inner.branches == old(self).inner.branches,
            final(self).inner.root == old(self).inner.root,
            final(self).actions@ == old(self).actions@,
            final(self).outer@ == old(self).outer@,
            old(self).inner.inv() ==> final(self).inner.inv(),
    {
        self.inner.as_mut_receiver()
    }

    /// Closes the checkpoint, handing the history back as the forwarded
    /// calls left it.
    pub fn into_inner(self) -> (inner: History<R, C>)
        ensures
            inner == self.inner,
    {
        self.inner
    }
}

} // verus!
