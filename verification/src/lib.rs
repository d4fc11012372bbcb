//! An undo-redo engine built on the command pattern.
//!
//! Callers mutate a receiver only through reversible commands. The engines
//! keep enough history to roll the receiver backwards and forwards:
//!
//! * [`record::Record`] is the linear log-with-cursor engine.
//! * [`history::History`] generalizes it: a divergent apply keeps the
//!   old redo-suffix as a branch instead of discarding it.
//! * [`checkpoint::Checkpoint`] wraps either engine and makes a scope of
//!   operations revocable through compensating actions.
//! * [`queue::Queue`] stages operations and replays them on commit.
//! * [`group::Group`] routes calls to one of several keyed engines.
//!
//! Engines report state changes through a [`Slot`]: a swappable signal sink
//! holding the [`Signal`] values emitted so far. The properties the
//! engines are held to — round trips, edge-triggered signals, what a
//! cancelled checkpoint restores — are stated and proved in [`laws`].

pub mod checkpoint;
pub mod group;
pub mod history;
pub mod laws;
pub mod queue;
pub mod record;
pub mod stack;

use vstd::prelude::*;

verus! {

/// The signal sent when the record, the history, or the receiver changes.
///
/// A signal is emitted only on an edge: when the ability to undo or redo, or
/// the saved state, actually flips, or when the cursor or root moves.
#[derive(Copy, Clone, Debug, Hash, PartialEq, Eq, Structural)]
pub enum Signal {
    /// Says if the record can undo.
    Undo(bool),
    /// Says if the record can redo.
    Redo(bool),
    /// Says if the receiver is in a saved state.
    Saved(bool),
    /// Says that the cursor has moved, or that a command was absorbed by a
    /// merge, in which case `old == new`.
    Cursor {
        /// The cursor before the operation.
        old: usize,
        /// The cursor after the operation.
        new: usize,
    },
    /// Says that the active branch has changed. Only emitted from a history.
    Root {
        /// The active branch before the operation.
        old: usize,
        /// The active branch after the operation.
        new: usize,
    },
}

/// Base functionality for all commands.
///
/// A command is a reversible operation on a receiver `R`. Its behaviour is
/// described by the implementor's own specification functions: `after_apply`,
/// `after_undo` and `after_redo` say what a successful call does to the
/// command and the receiver, and `undoable` / `redoable` say when the command
/// is poised between two receiver states. [`CommandLaws`] carries the proof
/// obligations that tie these together.
///
/// The executable methods promise nothing when they fail: a command is free
/// to report an error, and what a failed call left of the receiver is the
/// command's own responsibility, not the engine's.
pub trait Command<R>: Sized {
    /// The error type.
    type Error;

    /// Whether `apply` can succeed on this receiver. The default is
    /// `false`: under it, the contracts declare a successful apply
    /// impossible, so an implementation that keeps the default and still
    /// returns `Ok` steps outside its own contract. Only implementations
    /// that state their specification functions are covered by the
    /// engines' receiver-level guarantees.
    open spec fn can_apply(self, r: R) -> bool {
        false
    }

    /// The command and the receiver after a successful `apply`.
    open spec fn after_apply(self, r: R) -> (Self, R) {
        (self, r)
    }

    /// Whether `undo` can succeed on this receiver.
    open spec fn can_undo(self, r: R) -> bool {
        false
    }

    /// The command and the receiver after a successful `undo`.
    open spec fn after_undo(self, r: R) -> (Self, R) {
        (self, r)
    }

    /// Whether `redo` can succeed on this receiver.
    open spec fn can_redo(self, r: R) -> bool {
        false
    }

    /// The command and the receiver after a successful `redo`.
    open spec fn after_redo(self, r: R) -> (Self, R) {
        (self, r)
    }

    /// The command is poised after its forward effect, which took the
    /// receiver from `pre` to `post`; undoing it yields `pre` again.
    open spec fn undoable(self, pre: R, post: R) -> bool {
        false
    }

    /// The command is poised before its forward effect, which takes the
    /// receiver from `pre` to `post`; redoing it yields `post` again.
    open spec fn redoable(self, pre: R, post: R) -> bool {
        false
    }

    /// The previous command's value after a `merge` call.
    open spec fn merge_keep(self, other: Self) -> Self {
        self
    }

    /// The outcome a `merge` call reports.
    open spec fn merge_out(self, other: Self) -> Merge<Self> {
        Merge::Yes
    }

    /// Applies the command on the receiver and returns `Ok` if everything
    /// went fine, and `Err` if something went wrong.
    fn apply(&mut self, receiver: &mut R) -> (res: Result<(), Self::Error>)
        ensures
            res is Ok ==> old(self).can_apply(*old(receiver)) && (
                *final(self),
                *final(receiver),
            ) == old(self).after_apply(*old(receiver)),
    ;

    /// Restores the state of the receiver as it was before the command was
    /// applied and returns `Ok` if everything went fine, and `Err` if
    /// something went wrong.
    fn undo(&mut self, receiver: &mut R) -> (res: Result<(), Self::Error>)
        ensures
            res is Ok ==> old(self).can_undo(*old(receiver)) && (
                *final(self),
                *final(receiver),
            ) == old(self).after_undo(*old(receiver)),
    ;

    /// Reapplies the command on the receiver and returns `Ok` if everything
    /// went fine, and `Err` if something went wrong.
    fn redo(&mut self, receiver: &mut R) -> (res: Result<(), Self::Error>)
        ensures
            res is Ok ==> old(self).can_redo(*old(receiver)) && (
                *final(self),
                *final(receiver),
            ) == old(self).after_redo(*old(receiver)),
    ;

    /// Used for manual merging of two commands. The incoming command is
    /// passed by value: returning [`Merge::No`] hands it back unchanged,
    /// [`Merge::Yes`] means it was absorbed into `self`, and
    /// [`Merge::Annul`] means the two commands cancel out.
    fn merge(&mut self, command: Self) -> (m: Merge<Self>)
        ensures
            *final(self) == old(self).merge_keep(command),
            m == old(self).merge_out(command),
    ;

}

/// The reversibility laws a command type stands behind.
///
/// This companion of [`Command`] carries the proof obligations that tie
/// the specification functions together: undoing a freshly applied
/// command restores the receiver exactly, redoing an undone command
/// brings it back, and a merged pair behaves as one command. The
/// engine-level laws are proved for command types that implement it.
pub trait CommandLaws<R>: Command<R> {
    /// A successful apply leaves the command poised over the step it made.
    proof fn law_apply(self, r: R)
        requires
            self.can_apply(r),
        ensures
            ({
                let (c, q) = self.after_apply(r);
                c.undoable(r, q)
            }),
    ;

    /// Undo restores the exact pre-apply receiver, and leaves the command
    /// poised to redo the same step.
    proof fn law_undo(self, pre: R, post: R)
        requires
            self.undoable(pre, post),
        ensures
            self.can_undo(post),
            self.after_undo(post).1 == pre,
            self.after_undo(post).0.redoable(pre, post),
    ;

    /// Redo restores the exact post-apply receiver, and leaves the command
    /// poised to undo the same step.
    proof fn law_redo(self, pre: R, post: R)
        requires
            self.redoable(pre, post),
        ensures
            self.can_redo(pre),
            self.after_redo(pre).1 == post,
            self.after_redo(pre).0.undoable(pre, post),
    ;

    /// A merge that declines hands the incoming command back unchanged and
    /// leaves the previous command unchanged.
    proof fn law_merge_no(self, other: Self)
        requires
        ensures
            self.merge_out(other) matches Merge::No(c) ==> c == other && self.merge_keep(
                other,
            ) == self,
    ;

    /// An absorbing merge yields one command that undoes both steps at once.
    proof fn law_merge_yes(self, other: Self, pre: R, mid: R, post: R)
        requires
            self.undoable(pre, mid),
            other.undoable(mid, post),
            self.merge_out(other) is Yes,
        ensures
            self.merge_keep(other).undoable(pre, post),
    ;

    /// An annulling merge means the two steps cancelled out exactly.
    proof fn law_merge_annul(self, other: Self, pre: R, mid: R, post: R)
        requires
            self.undoable(pre, mid),
            other.undoable(mid, post),
            self.merge_out(other) is Annul,
        ensures
            post == pre,
    ;
}

/// The result of merging two commands.
#[derive(Debug)]
pub enum Merge<C> {
    /// The incoming command was absorbed into the previous entry.
    Yes,
    /// The commands could not be combined; the incoming command is handed
    /// back unchanged.
    No(C),
    /// The two commands cancel each other out; both are discarded and the
    /// previous entry is removed as well.
    Annul,
}

/// A command plus bookkeeping: the unit an engine's log stores.
///
/// An entry carries the moment of its creation, in milliseconds since the
/// epoch, used only for time-ordered lookup. It forwards the command's
/// behaviour unchanged.
#[derive(Debug)]
pub struct Entry<C> {
    /// The wrapped command.
    pub command: C,
    /// When the entry was created, in milliseconds since the epoch.
    pub timestamp: i64,
}

impl<C> Entry<C> {
    /// Returns a reference to the wrapped command.
    pub fn command(&self) -> (command: &C)
        ensures
            *command == self.command,
    {
        &self.command
    }

    /// Returns the creation time of the entry, in milliseconds since the
    /// epoch.
    pub fn timestamp(&self) -> (timestamp: i64)
        ensures
            timestamp == self.timestamp,
    {
        self.timestamp
    }
}

impl<R, C: Command<R>> Command<R> for Entry<C> {
    type Error = C::Error;

    open spec fn can_apply(self, r: R) -> bool {
        self.command.can_apply(r)
    }

    open spec fn after_apply(self, r: R) -> (Self, R) {
        let (c, q) = self.command.after_apply(r);
        (Entry { command: c, timestamp: self.timestamp }, q)
    }

    open spec fn can_undo(self, r: R) -> bool {
        self.command.can_undo(r)
    }

    open spec fn after_undo(self, r: R) -> (Self, R) {
        let (c, q) = self.command.after_undo(r);
        (Entry { command: c, timestamp: self.timestamp }, q)
    }

    open spec fn can_redo(self, r: R) -> bool {
        self.command.can_redo(r)
    }

    open spec fn after_redo(self, r: R) -> (Self, R) {
        let (c, q) = self.command.after_redo(r);
        (Entry { command: c, timestamp: self.timestamp }, q)
    }

    open spec fn undoable(self, pre: R, post: R) -> bool {
        self.command.undoable(pre, post)
    }

    open spec fn redoable(self, pre: R, post: R) -> bool {
        self.command.redoable(pre, post)
    }

    open spec fn merge_keep(self, other: Self) -> Self {
        Entry { command: self.command.merge_keep(other.command), timestamp: self.timestamp }
    }

    open spec fn merge_out(self, other: Self) -> Merge<Self> {
        match self.command.merge_out(other.command) {
            Merge::Yes => Merge::Yes,
            Merge::Annul => Merge::Annul,
            Merge::No(c) => Merge::No(Entry { command: c, timestamp: other.timestamp }),
        }
    }

    fn apply(&mut self, receiver: &mut R) -> (res: Result<(), C::Error>) {
        self.command.apply(receiver)
    }

    fn undo(&mut self, receiver: &mut R) -> (res: Result<(), C::Error>) {
        self.command.undo(receiver)
    }

    fn redo(&mut self, receiver: &mut R) -> (res: Result<(), C::Error>) {
        self.command.redo(receiver)
    }

    fn merge(&mut self, entry: Entry<C>) -> (m: Merge<Entry<C>>) {
        match self.command.merge(entry.command) {
            Merge::Yes => Merge::Yes,
            Merge::Annul => Merge::Annul,
            Merge::No(command) => Merge::No(Entry { command, timestamp: entry.timestamp }),
        }
    }

}

impl<R, C: CommandLaws<R>> CommandLaws<R> for Entry<C> {
    proof fn law_apply(self, r: R) {
        self.command.law_apply(r);
    }

    proof fn law_undo(self, pre: R, post: R) {
        self.command.law_undo(pre, post);
    }

    proof fn law_redo(self, pre: R, post: R) {
        self.command.law_redo(pre, post);
    }

    proof fn law_merge_no(self, other: Self) {
        self.command.law_merge_no(other.command);
    }

    proof fn law_merge_yes(self, other: Self, pre: R, mid: R, post: R) {
        self.command.law_merge_yes(other.command, pre, mid, post);
    }

    proof fn law_merge_annul(self, other: Self, pre: R, mid: R, post: R) {
        self.command.law_merge_annul(other.command, pre, mid, post);
    }
}

/// An error which holds the command that caused it.
///
/// A failed apply hands the rejected command back; a failed undo or redo
/// hands back the entry that was evicted from the log because its
/// reversibility is no longer trusted.
pub struct Error<R, C: Command<R>> {
    /// The entry whose command failed.
    pub entry: Entry<C>,
    /// The error the command reported.
    pub error: C::Error,
}

impl<R, C: Command<R>> Error<R, C> {
    /// Returns a reference to the command that caused the error.
    pub fn command(&self) -> (command: &C)
        ensures
            *command == self.entry.command,
    {
        &self.entry.command
    }

    /// Returns the command that caused the error.
    pub fn into_command(self) -> (command: C)
        ensures
            command == self.entry.command,
    {
        self.entry.command
    }
}

/// A signal sink: the slot an engine reports its [`Signal`]s to.
///
/// The engine appends every emitted signal to the connected slot, in
/// emission order. Disconnecting returns the slot with everything it has
/// collected.
#[derive(Debug)]
pub struct Slot {
    /// The signals emitted so far, oldest first.
    pub signals: Vec<Signal>,
}

impl Slot {
    /// Returns a new, empty slot.
    pub fn new() -> (slot: Slot)
        ensures
            slot.signals@ == Seq::<Signal>::empty(),
    {
        Slot { signals: Vec::new() }
    }

    /// Returns the signals collected so far, oldest first.
    pub fn signals(&self) -> (signals: &Vec<Signal>)
        ensures
            signals@ == self.signals@,
    {
        &self.signals
    }

    /// Removes and returns the collected signals, leaving the slot empty.
    pub fn drain(&mut self) -> (signals: Vec<Signal>)
        ensures
            signals@ == old(self).signals@,
            final(self).signals@ == Seq::<Signal>::empty(),
    {
        let mut out = Vec::new();
        core::mem::swap(&mut out, &mut self.signals);
        out
    }
}

impl Default for Slot {
    fn default() -> (slot: Slot)
        ensures
            slot.signals@ == Seq::<Signal>::empty(),
    {
        Slot::new()
    }
}

/// Relies on Vec::capacity: the capacity is at least the length.
#[verifier::external_body]
pub(crate) fn vec_capacity<T>(v: &Vec<T>) -> (c: usize)
    ensures
        c >= v@.len(),
{
    v.capacity()
}

/// Relies on Vec::shrink_to_fit: the contents are untouched.
#[verifier::external_body]
pub(crate) fn vec_shrink_to_fit<T>(v: &mut Vec<T>)
    ensures
        final(v)@ == old(v)@,
{
    v.shrink_to_fit()
}

/// Holds when `new_s` is `old_s` with exactly the signals `sigs` appended:
/// a connected slot collects them in order, a missing slot stays missing.
pub open spec fn slot_emits(old_s: Option<Slot>, new_s: Option<Slot>, sigs: Seq<Signal>) -> bool {
    match (old_s, new_s) {
        (Some(a), Some(b)) => b.signals@ =~= a.signals@ + sigs,
        (None, None) => true,
        _ => false,
    }
}

} // verus!
