//! A command queue wrapper: stages calls and replays them on commit,
//! without rollback support.

use crate::history::{can_switch, happly_rel, hgoto_rel, switch_step, History, HistoryModel};
use crate::record::{Record, RecordModel};
use crate::{Command, Entry, Error};
use vstd::prelude::*;

verus! {

/// A staged call, waiting for the commit that will run it.
#[derive(Debug)]
pub enum Action<C> {
    /// An apply of the held command.
    Apply(C),
    /// An undo step.
    Undo,
    /// A redo step.
    Redo,
    /// A walk to the held branch and cursor.
    GoTo(usize, usize),
}

/// Holds when replaying `actions` in order can take the state `m` to the
/// state `post`, with every step succeeding: an apply step applies the
/// staged command at some creation time, an undo, redo or walk that is
/// not available is skipped.
pub open spec fn replay_to<R, C: Command<R>>(
    m: RecordModel<R, C>,
    actions: Seq<Action<C>>,
    post: RecordModel<R, C>,
) -> bool
    decreases actions.len(),
{
    if actions.len() == 0 {
        post == m
    } else {
        match actions[0] {
            Action::Apply(c) => exists|ts: i64|
                replay_to(
                    #[trigger] m.apply_step(Entry { command: c, timestamp: ts }).0,
                    actions.skip(1),
                    post,
                ),
            Action::Undo => replay_to(
                if m.current > 0 {
                    m.undo_step().0
                } else {
                    m
                },
                actions.skip(1),
                post,
            ),
            Action::Redo => replay_to(
                if m.current < m.log.len() {
                    m.redo_step().0
                } else {
                    m
                },
                actions.skip(1),
                post,
            ),
            Action::GoTo(b, c) => replay_to(
                if c <= m.log.len() {
                    m.goto_walk(c as int)
                } else {
                    m
                },
                actions.skip(1),
                post,
            ),
        }
    }
}

/// How running one staged call relates record states, on success: the
/// single-step version of [`replay_to`].
pub open spec fn replay_one<R, C: Command<R>>(
    m: RecordModel<R, C>,
    a: Action<C>,
    post: RecordModel<R, C>,
) -> bool {
    match a {
        Action::Apply(c) => exists|ts: i64|
            post == (#[trigger] m.apply_step(Entry { command: c, timestamp: ts })).0,
        Action::Undo => post == (if m.current > 0 {
            m.undo_step().0
        } else {
            m
        }),
        Action::Redo => post == (if m.current < m.log.len() {
            m.redo_step().0
        } else {
            m
        }),
        Action::GoTo(b, c) => post == (if c <= m.log.len() {
            m.goto_walk(c as int)
        } else {
            m
        }),
    }
}

/// One more successful step extends a replay at its end.
pub proof fn lemma_replay_to_snoc<R, C: Command<R>>(
    m: RecordModel<R, C>,
    acts: Seq<Action<C>>,
    mid: RecordModel<R, C>,
    a: Action<C>,
    post: RecordModel<R, C>,
)
    requires
        replay_to(m, acts, mid),
        replay_one(mid, a, post),
    ensures
        replay_to(m, acts.push(a), post),
    decreases acts.len(),
{
    if acts.len() == 0 {
        assert(acts.push(a)[0] == a);
        assert(acts.push(a).skip(1) =~= Seq::<Action<C>>::empty());
        match a {
            Action::Apply(c) => {
                let ts = choose|ts: i64|
                    post == (#[trigger] m.apply_step(Entry { command: c, timestamp: ts })).0;
                assert(replay_to(
                    m.apply_step(Entry { command: c, timestamp: ts }).0,
                    acts.push(a).skip(1),
                    post,
                ));
            },
            Action::Undo => {
                assert(replay_to(
                    if m.current > 0 {
                        m.undo_step().0
                    } else {
                        m
                    },
                    acts.push(a).skip(1),
                    post,
                ));
            },
            Action::Redo => {
                assert(replay_to(
                    if m.current < m.log.len() {
                        m.redo_step().0
                    } else {
                        m
                    },
                    acts.push(a).skip(1),
                    post,
                ));
            },
            Action::GoTo(b, c) => {
                assert(replay_to(
                    if c <= m.log.len() {
                        m.goto_walk(c as int)
                    } else {
                        m
                    },
                    acts.push(a).skip(1),
                    post,
                ));
            },
        }
    } else {
        assert(acts.push(a)[0] == acts[0]);
        assert(acts.push(a).skip(1) =~= acts.skip(1).push(a));
        match acts[0] {
            Action::Apply(c) => {
                let ts = choose|ts: i64|
                    replay_to(
                        (#[trigger] m.apply_step(Entry { command: c, timestamp: ts })).0,
                        acts.skip(1),
                        mid,
                    );
                lemma_replay_to_snoc(
                    m.apply_step(Entry { command: c, timestamp: ts }).0,
                    acts.skip(1),
                    mid,
                    a,
                    post,
                );
            },
            Action::Undo => {
                lemma_replay_to_snoc(
                    if m.current > 0 {
                        m.undo_step().0
                    } else {
                        m
                    },
                    acts.skip(1),
                    mid,
                    a,
                    post,
                );
            },
            Action::Redo => {
                lemma_replay_to_snoc(
                    if m.current < m.log.len() {
                        m.redo_step().0
                    } else {
                        m
                    },
                    acts.skip(1),
                    mid,
                    a,
                    post,
                );
            },
            Action::GoTo(b, c) => {
                lemma_replay_to_snoc(
                    if c <= m.log.len() {
                        m.goto_walk(c as int)
                    } else {
                        m
                    },
                    acts.skip(1),
                    mid,
                    a,
                    post,
                );
            },
        }
    }
}

/// The state a commit leaves when the staged call `a` fails from the
/// state `mid`: a failed apply leaves the log alone, a failed undo or
/// redo evicts the offending entry, and a failed walk stops at an
/// intermediate position. What the failing command left of the receiver
/// is its own responsibility.
pub open spec fn commit_stopped_at<R, C: Command<R>>(
    mid: RecordModel<R, C>,
    a: Action<C>,
    post: RecordModel<R, C>,
) -> bool {
    match a {
        Action::Apply(c) => post.log == mid.log && post.current == mid.current && post.saved
            == mid.saved && post.limit == mid.limit,
        Action::Undo => mid.current > 0 && post.log == mid.log.remove(mid.current - 1)
            && post.current == mid.current - 1 && post.saved == mid.saved_after_evict(
            mid.current - 1,
        ) && post.limit == mid.limit,
        Action::Redo => mid.current < mid.log.len() && post.log == mid.log.remove(mid.current)
            && post.current == mid.current && post.saved == mid.saved_after_evict(mid.current)
            && post.limit == mid.limit,
        Action::GoTo(b, c) => c <= mid.log.len() && (exists|w: int|
            #[trigger] crate::record::goto_stopped_at(mid, c as int, post, w)),
    }
}

/// A command queue wrapper.
///
/// Owns a [`Record`] and stages a script of calls without executing
/// them. [`Queue::commit`] runs the innermost scope's script in order and
/// stops at the first failure, with no rollback of what already ran — in
/// contrast with a checkpoint. [`Queue::cancel`] discards the script with
/// no effect on the engine. Scopes nest through [`Queue::queue`].
pub struct Queue<T, C> {
    /// The engine the staged calls will run against.
    pub inner: T,
    /// The staged calls of the innermost open scope, oldest first.
    pub actions: Vec<Action<C>>,
    /// The suspended scripts of the enclosing scopes.
    pub outer: Vec<Vec<Action<C>>>,
}

impl<R, C: Command<R>> Queue<Record<R, C>, C> {
    /// Opens a queue over the record.
    pub fn new(inner: Record<R, C>) -> (queue: Queue<Record<R, C>, C>)
        ensures
            queue.inner == inner,
            queue.actions@.len() == 0,
            queue.outer@.len() == 0,
    {
        Queue { inner, actions: Vec::new(), outer: Vec::new() }
    }

    /// Opens a nested scope: later calls are staged in it until it is
    /// committed or cancelled, and the current script is suspended.
    pub fn queue(&mut self)
        ensures
            final(self).inner == old(self).inner,
            final(self).actions@.len() == 0,
            final(self).outer@ == old(self).outer@.push(old(self).actions),
    {
        let mut opened = Vec::new();
        core::mem::swap(&mut opened, &mut self.actions);
        self.outer.push(opened);
    }

    /// Stages an apply of the command. Nothing runs until the commit.
    pub fn apply(&mut self, command: C)
        ensures
            final(self).inner == old(self).inner,
            final(self).actions@ == old(self).actions@.push(Action::Apply(command)),
            final(self).outer@ == old(self).outer@,
    {
        self.actions.push(Action::Apply(command));
    }

    /// Stages an undo step.
    pub fn undo(&mut self)
        ensures
            final(self).inner == old(self).inner,
            final(self).actions@ == old(self).actions@.push(Action::Undo),
            final(self).outer@ == old(self).outer@,
    {
        self.actions.push(Action::Undo);
    }

    /// Stages a redo step.
    pub fn redo(&mut self)
        ensures
            final(self).inner == old(self).inner,
            final(self).actions@ == old(self).actions@.push(Action::Redo),
            final(self).outer@ == old(self).outer@,
    {
        self.actions.push(Action::Redo);
    }

    /// Stages a walk to the given cursor.
    pub fn go_to(&mut self, cursor: usize)
        ensures
            final(self).inner == old(self).inner,
            final(self).actions@ == old(self).actions@.push(Action::GoTo(0, cursor)),
            final(self).outer@ == old(self).outer@,
    {
        self.actions.push(Action::GoTo(0, cursor));
    }

    /// Discards the innermost scope's script with no effect on the
    /// engine.
    pub fn cancel(&mut self)
        ensures
            final(self).inner == old(self).inner,
            old(self).outer@.len() == 0 ==> final(self).actions@.len() == 0 && final(self).outer@.len() == 0,
            old(self).outer@.len() > 0 ==> final(self).actions == old(self).outer@.last()
                && final(self).outer@ == old(self).outer@.drop_last(),
    {
        match self.outer.pop() {
            Some(previous) => {
                self.actions = previous;
            },
            None => {
                self.actions = Vec::new();
            },
        }
    }

    /// Runs the innermost scope's script in order against the engine.
    ///
    /// # Errors
    /// At the first failing step the commit stops and returns that error;
    /// what already ran stays, and the rest of the script is discarded.
    #[verifier::loop_isolation(false)]
    pub fn commit(&mut self) -> (res: Result<(), Error<R, C>>)
        requires
            old(self).inner.bounded(),
        ensures
            final(self).inner.bounded(),
            old(self).inner.wf() ==> final(self).inner.wf(),
            res is Ok ==> replay_to(old(self).inner@, old(self).actions@, final(self).inner@),
            res is Ok ==> (old(self).outer@.len() == 0 ==> final(self).actions@.len() == 0
                && final(self).outer@.len() == 0),
            res is Ok ==> (old(self).outer@.len() > 0 ==> final(self).actions == old(self).outer@.last() && final(self).outer@ == old(self).outer@.drop_last()),
            res is Err ==> final(self).outer@ == old(self).outer@,
            res is Err ==> (exists|i: int, mid: RecordModel<R, C>|
                0 <= i < old(self).actions@.len() && #[trigger] replay_to(
                    old(self).inner@,
                    old(self).actions@.take(i),
                    mid,
                ) && commit_stopped_at(mid, old(self).actions@[i], final(self).inner@)),
    {
        let ghost m0 = self.inner@;
        let ghost acts0 = self.actions@;
        let mut script = Vec::new();
        core::mem::swap(&mut script, &mut self.actions);
        let ghost mut done: Seq<Action<C>> = Seq::empty();
        while script.len() > 0
            invariant
                self.inner.bounded(),
                m0.inv() ==> self.inner.wf(),
                self.outer@ == old(self).outer@,
                self.actions@.len() == 0,
                done + script@ == acts0,
                replay_to(m0, done, self.inner@),
                forall|p: RecordModel<R, C>|
                    #[trigger] replay_to(self.inner@, script@, p) ==> replay_to(m0, acts0, p),
            decreases script.len(),
        {
            let ghost pre = self.inner@;
            let ghost script_pre = script@;
            let action = script.remove(0);
            let ghost a0 = action;
            proof {
                assert(acts0.take(done.len() as int) =~= done);
                assert(acts0[done.len() as int] == a0);
            }
            match action {
                Action::Apply(command) => {
                    let ghost c = command;
                    let ghost pre_slot = self.inner.slot;
                    match self.inner.apply(command) {
                        Ok(()) => {
                            proof {
                                let ts = choose|ts: i64|
                                    crate::record::applied_at(
                                        pre,
                                        pre_slot,
                                        self.inner@,
                                        self.inner.slot,
                                        c,
                                        ts,
                                    );
                                assert(self.inner@ == pre.apply_step(
                                    Entry { command: c, timestamp: ts },
                                ).0);
                                assert(script_pre.skip(1) =~= script@);
                                assert forall|p: RecordModel<R, C>|
                                    #[trigger] replay_to(self.inner@, script@, p) implies replay_to(
                                    m0,
                                    acts0,
                                    p,
                                ) by {
                                    assert(replay_to(pre, script_pre, p));
                                }
                                lemma_replay_to_snoc(m0, done, pre, a0, self.inner@);
                                done = done.push(a0);
                                assert(done + script@ =~= acts0);
                            }
                        },
                        Err(e) => {
                            proof {
                                assert(commit_stopped_at(pre, a0, self.inner@));
                            }
                            return Err(e);
                        },
                    }
                },
                Action::Undo => {
                    match self.inner.undo() {
                        Some(Err(e)) => {
                            proof {
                                assert(commit_stopped_at(pre, a0, self.inner@));
                            }
                            return Err(e);
                        },
                        _ => (),
                    }
                    proof {
                        assert(script_pre.skip(1) =~= script@);
                        assert forall|p: RecordModel<R, C>|
                            #[trigger] replay_to(self.inner@, script@, p) implies replay_to(
                            m0,
                            acts0,
                            p,
                        ) by {
                            assert(replay_to(pre, script_pre, p));
                        }
                        lemma_replay_to_snoc(m0, done, pre, a0, self.inner@);
                        done = done.push(a0);
                        assert(done + script@ =~= acts0);
                    }
                },
                Action::Redo => {
                    match self.inner.redo() {
                        Some(Err(e)) => {
                            proof {
                                assert(commit_stopped_at(pre, a0, self.inner@));
                            }
                            return Err(e);
                        },
                        _ => (),
                    }
                    proof {
                        assert(script_pre.skip(1) =~= script@);
                        assert forall|p: RecordModel<R, C>|
                            #[trigger] replay_to(self.inner@, script@, p) implies replay_to(
                            m0,
                            acts0,
                            p,
                        ) by {
                            assert(replay_to(pre, script_pre, p));
                        }
                        lemma_replay_to_snoc(m0, done, pre, a0, self.inner@);
                        done = done.push(a0);
                        assert(done + script@ =~= acts0);
                    }
                },
                Action::GoTo(_, cursor) => {
                    match self.inner.go_to(cursor) {
                        Some(Err(e)) => {
                            proof {
                                assert(commit_stopped_at(pre, a0, self.inner@));
                            }
                            return Err(e);
                        },
                        _ => (),
                    }
                    proof {
                        assert(script_pre.skip(1) =~= script@);
                        assert forall|p: RecordModel<R, C>|
                            #[trigger] replay_to(self.inner@, script@, p) implies replay_to(
                            m0,
                            acts0,
                            p,
                        ) by {
                            assert(replay_to(pre, script_pre, p));
                        }
                        lemma_replay_to_snoc(m0, done, pre, a0, self.inner@);
                        done = done.push(a0);
                        assert(done + script@ =~= acts0);
                    }
                },
            }
        }
        proof {
            assert(replay_to(self.inner@, script@, self.inner@));
        }
        match self.outer.pop() {
            Some(previous) => {
                self.actions = previous;
            },
            None => (),
        }
        Ok(())
    }

    /// Returns a reference to the receiver.
    pub fn as_receiver(&self) -> (receiver: &R)
        ensures
            *receiver == self.inner@.receiver,
    {
        self.inner.as_receiver()
    }

    /// Returns a mutable reference to the receiver.
    ///
    /// This method should **only** be used when doing changes that should
    /// not be able to be undone.
    pub fn as_mut_receiver(&mut self) -> (receiver: &mut R)
        ensures
            *receiver == old(self).inner@.receiver,
            final(self).inner@ == (RecordModel {
                receiver: *final(receiver),
                ..old(self).inner@
            }),
            final(self).actions@ == old(self).actions@,
            final(self).outer@ == old(self).outer@,
    {
        self.inner.as_mut_receiver()
    }

    /// Closes the queue, handing the record back. An uncommitted script
    /// is discarded, as a cancel would discard it.
    pub fn into_inner(self) -> (inner: Record<R, C>)
        ensures
            inner == self.inner,
    {
        self.inner
    }
}

/// How running one staged call relates history states: an apply takes
/// the branch-preserving apply step, an undo or redo that is not
/// available is skipped, and a walk relates the states as a history
/// walk does — or is skipped when the arena does not offer its target,
/// leaving only the arena's size pinned.
pub open spec fn hreplay_one_rel<R, C: Command<R>>(
    h: HistoryModel<R, C>,
    a: Action<C>,
    h2: HistoryModel<R, C>,
) -> bool {
    match a {
        Action::Apply(c) => happly_rel(h, c, h2),
        Action::Undo => h2 == (if h.record.current > 0 {
            HistoryModel { record: h.record.undo_step().0, ..h }
        } else {
            h
        }),
        Action::Redo => h2 == (if h.record.current < h.record.log.len() {
            HistoryModel { record: h.record.redo_step().0, ..h }
        } else {
            h
        }),
        Action::GoTo(b, c) => hgoto_rel(h, b as int, c as int, h2) || (!(b == h.root && c
            <= h.record.log.len()) && !(can_switch(h, b as int) && c <= switch_step(
            h,
            b as int,
        ).record.log.len()) && h2.branches.len() == h.branches.len()),
    }
}

/// Running a whole staged script in order, step by step.
pub open spec fn hreplay_rel<R, C: Command<R>>(
    h: HistoryModel<R, C>,
    actions: Seq<Action<C>>,
    h2: HistoryModel<R, C>,
) -> bool
    decreases actions.len(),
{
    if actions.len() == 0 {
        h2 == h
    } else {
        exists|mid: HistoryModel<R, C>|
            #[trigger] hreplay_one_rel(h, actions[0], mid) && hreplay_rel(
                mid,
                actions.skip(1),
                h2,
            )
    }
}

impl<R, C: Command<R>> Queue<History<R, C>, C> {
    /// Opens a queue over the history.
    pub fn new_history(inner: History<R, C>) -> (queue: Queue<History<R, C>, C>)
        ensures
            queue.inner == inner,
            queue.actions@.len() == 0,
            queue.outer@.len() == 0,
    {
        Queue { inner, actions: Vec::new(), outer: Vec::new() }
    }

    /// Opens a nested scope: later calls are staged in it until it is
    /// committed or cancelled, and the current script is suspended.
    pub fn queue(&mut self)
        ensures
            final(self).inner == old(self).inner,
            final(self).actions@.len() == 0,
            final(self).outer@ == old(self).outer@.push(old(self).actions),
    {
        let mut opened = Vec::new();
        core::mem::swap(&mut opened, &mut self.actions);
        self.outer.push(opened);
    }

    /// Stages an apply of the command. Nothing runs until the commit.
    pub fn apply(&mut self, command: C)
        ensures
            final(self).inner == old(self).inner,
            final(self).actions@ == old(self).actions@.push(Action::Apply(command)),
            final(self).outer@ == old(self).outer@,
    {
        self.actions.push(Action::Apply(command));
    }

    /// Stages an undo step.
    pub fn undo(&mut self)
        ensures
            final(self).inner == old(self).inner,
            final(self).actions@ == old(self).actions@.push(Action::Undo),
            final(self).outer@ == old(self).outer@,
    {
        self.actions.push(Action::Undo);
    }

    /// Stages a redo step.
    pub fn redo(&mut self)
        ensures
            final(self).inner == old(self).inner,
            final(self).actions@ == old(self).actions@.push(Action::Redo),
            final(self).outer@ == old(self).outer@,
    {
        self.actions.push(Action::Redo);
    }

    /// Stages a walk to the given branch and cursor.
    pub fn go_to(&mut self, branch: usize, cursor: usize)
        ensures
            final(self).inner == old(self).inner,
            final(self).actions@ == old(self).actions@.push(Action::GoTo(branch, cursor)),
            final(self).outer@ == old(self).outer@,
    {
        self.actions.push(Action::GoTo(branch, cursor));
    }

    /// Discards the innermost scope's script with no effect on the
    /// engine.
    pub fn cancel(&mut self)
        ensures
            final(self).inner == old(self).inner,
            old(self).outer@.len() == 0 ==> final(self).actions@.len() == 0
                && final(self).outer@.len() == 0,
            old(self).outer@.len() > 0 ==> final(self).actions == old(self).outer@.last()
                && final(self).outer@ == old(self).outer@.drop_last(),
    {
        match self.outer.pop() {
            Some(previous) => {
                self.actions = previous;
            },
            None => {
                self.actions = Vec::new();
            },
        }
    }

    /// Runs the innermost scope's script in order against the history.
    ///
    /// # Errors
    /// At the first failing step the commit stops and returns that error;
    /// what already ran stays, and the rest of the script is discarded.
    #[verifier::loop_isolation(false)]
    pub fn commit(&mut self) -> (res: Result<(), Error<R, C>>)
        requires
            old(self).inner.inv(),
        ensures
            final(self).inner.inv(),
            res is Ok ==> hreplay_rel(old(self).inner@, old(self).actions@, final(self).inner@),
            res is Ok ==> (old(self).outer@.len() == 0 ==> final(self).actions@.len() == 0
                && final(self).outer@.len() == 0),
            res is Ok ==> (old(self).outer@.len() > 0 ==> final(self).actions == old(self).outer@.last() && final(self).outer@ == old(self).outer@.drop_last()),
            res is Err ==> final(self).outer@ == old(self).outer@,
    {
        let ghost h0 = self.inner@;
        let ghost acts0 = self.actions@;
        let mut script = Vec::new();
        core::mem::swap(&mut script, &mut self.actions);
        while script.len() > 0
            invariant
                self.inner.inv(),
                self.outer@ == old(self).outer@,
                self.actions@.len() == 0,
                forall|p: HistoryModel<R, C>|
                    #[trigger] hreplay_rel(self.inner@, script@, p) ==> hreplay_rel(
                        h0,
                        acts0,
                        p,
                    ),
            decreases script.len(),
        {
            let ghost prev = self.inner@;
            let ghost script_pre = script@;
            let action = script.remove(0);
            let ghost a0 = action;
            match action {
                Action::Apply(command) => {
                    match self.inner.apply(command) {
                        Ok(()) => (),
                        Err(e) => {
                            return Err(e);
                        },
                    }
                },
                Action::Undo => {
                    match self.inner.undo() {
                        Some(Err(e)) => return Err(e),
                        _ => (),
                    }
                },
                Action::Redo => {
                    match self.inner.redo() {
                        Some(Err(e)) => return Err(e),
                        _ => (),
                    }
                },
                Action::GoTo(branch, cursor) => {
                    match self.inner.go_to(branch, cursor) {
                        Some(Err(e)) => return Err(e),
                        _ => (),
                    }
                },
            }
            proof {
                assert(hreplay_one_rel(prev, a0, self.inner@)) by {
                    match a0 {
                        Action::Undo => {
                            if prev.record.current > 0 {
                                assert(self.inner@ =~= (HistoryModel {
                                    record: prev.record.undo_step().0,
                                    ..prev
                                }));
                            } else {
                                assert(self.inner@ =~= prev);
                            }
                        },
                        Action::Redo => {
                            if prev.record.current < prev.record.log.len() {
                                assert(self.inner@ =~= (HistoryModel {
                                    record: prev.record.redo_step().0,
                                    ..prev
                                }));
                            } else {
                                assert(self.inner@ =~= prev);
                            }
                        },
                        _ => (),
                    }
                }
                assert(script_pre.skip(1) =~= script@);
                assert forall|p: HistoryModel<R, C>|
                    #[trigger] hreplay_rel(self.inner@, script@, p) implies hreplay_rel(
                    h0,
                    acts0,
                    p,
                ) by {
                    assert(hreplay_rel(prev, script_pre, p));
                }
            }
        }
        proof {
            assert(hreplay_rel(self.inner@, script@, self.inner@));
        }
        match self.outer.pop() {
            Some(previous) => {
                self.actions = previous;
            },
            None => (),
        }
        Ok(())
    }

    /// Returns a reference to the receiver.
    pub fn as_receiver(&self) -> (receiver: &R)
        ensures
            *receiver == self.inner.record@.receiver,
    {
        self.inner.as_receiver()
    }

    /// Returns a mutable reference to the receiver.
    ///
    /// This method should **only** be used when doing changes that should
    /// not be able to be undone.
    pub fn as_mut_receiver(&mut self) -> (receiver: &mut R)
        ensures
            *receiver == old(self).inner.record@.receiver,
            final(self).inner.record@ == (RecordModel {
                receiver: *final(receiver),
                ..old(self).inner.record@
            }),
            final(self).inner.branches == old(self).inner.branches,
            final(self).inner.root == old(self).inner.root,
            final(self).actions@ == old(self).actions@,
            final(self).outer@ == old(self).outer@,
            old(self).inner.inv() ==> final(self).inner.inv(),
    {
        self.inner.as_mut_receiver()
    }

    /// Closes the queue, handing the history back. An uncommitted script
    /// is discarded, as a cancel would discard it.
    pub fn into_inner(self) -> (inner: History<R, C>)
        ensures
            inner == self.inner,
    {
        self.inner
    }
}

} // verus!
