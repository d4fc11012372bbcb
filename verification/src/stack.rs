//! An earlier, self-contained revision of the engine: a stack of
//! commands that carry their own state, with clean/dirty tracking.

use crate::{vec_capacity, vec_shrink_to_fit};
use vstd::prelude::*;

verus! {

/// A command of the stack engine: it owns whatever state its effect
/// needs, so redo and undo take no receiver.
pub trait RedoCmd: Sized {
    /// The error type.
    type Err;

    /// The command after a successful redo. The default claims the call
    /// leaves the command unchanged; an implementation whose calls
    /// capture state says so here.
    open spec fn after_redo(self) -> Self {
        self
    }

    /// The command after a successful undo; defaults like `after_redo`.
    open spec fn after_undo(self) -> Self {
        self
    }

    /// Whether this command absorbs `cmd` when merging; `false` by
    /// default, matching a merge that always declines.
    open spec fn merge_absorbs(self, cmd: Self) -> bool {
        false
    }

    /// The command after a merge call, whether it absorbed or declined;
    /// the default claims the call leaves it unchanged.
    open spec fn merge_keep(self, cmd: Self) -> Self {
        self
    }

    /// Performs, or re-performs, the command's effect.
    fn redo(&mut self) -> (res: Result<(), Self::Err>)
        ensures
            res is Ok ==> *final(self) == old(self).after_redo(),
    ;

    /// Reverses the command's effect.
    fn undo(&mut self) -> (res: Result<(), Self::Err>)
        ensures
            res is Ok ==> *final(self) == old(self).after_undo(),
    ;

    /// Tries to absorb `cmd` into this command: `Some` reports that it
    /// was absorbed, with the outcome of doing so, and `None` leaves the
    /// commands separate.
    fn merge(&mut self, cmd: &Self) -> (res: Option<Result<(), Self::Err>>)
        ensures
            *final(self) == old(self).merge_keep(*cmd),
            res is Some <==> old(self).merge_absorbs(*cmd),
    ;
}

/// The stack and position a successful push leaves: the redo tail above
/// the position is discarded, the freshly run command is absorbed into
/// the topmost one or pushed — a merge call may update the topmost
/// command even when it declines — and when the limit is reached, the
/// oldest quarter of the stack, one more than a fourth, is dropped
/// first.
pub open spec fn push_parts<T: RedoCmd>(
    stack: Seq<T>,
    idx: int,
    limit: Option<usize>,
    cmd: T,
) -> (Seq<T>, int) {
    let kept = stack.take(idx);
    let c2 = cmd.after_redo();
    if idx > 0 && kept.last().merge_absorbs(c2) {
        (kept.update(idx - 1, kept.last().merge_keep(c2)), idx)
    } else {
        let kept2 = if idx > 0 {
            kept.update(idx - 1, kept.last().merge_keep(c2))
        } else {
            kept
        };
        match limit {
            Some(l) => if idx == l {
                (kept2.skip(idx / 4 + 1).push(c2), idx - (idx / 4 + 1) + 1)
            } else {
                (kept2.push(c2), idx + 1)
            },
            None => (kept2.push(c2), idx + 1),
        }
    }
}

/// Maintains a stack of commands.
///
/// The stack is clean when the active command is the topmost one, and
/// dirty after an undo. It records the transitions between the two, when
/// asked to, as a list of events: `true` for dirty to clean, `false` for
/// clean to dirty.
pub struct RedoStack<T> {
    /// All commands on the stack.
    pub stack: Vec<T>,
    /// The current position in the stack.
    pub idx: usize,
    /// The largest number of commands allowed on the stack, if bounded.
    pub limit: Option<usize>,
    /// Whether transitions from dirty to clean are recorded.
    pub track_clean: bool,
    /// Whether transitions from clean to dirty are recorded.
    pub track_dirty: bool,
    /// The recorded transitions, oldest first: `true` for clean.
    pub events: Vec<bool>,
}

impl<T> RedoStack<T> {
    /// The structural invariant: the position stays within the stack,
    /// and the stack stays within its positive limit.
    pub open spec fn inv(self) -> bool {
        &&& self.idx <= self.stack@.len()
        &&& match self.limit {
            Some(l) => self.stack@.len() <= l && 1 <= l,
            None => true,
        }
    }

    /// Creates a new stack.
    pub fn new() -> (stack: RedoStack<T>)
        ensures
            stack.inv(),
            stack.stack@.len() == 0,
            stack.idx == 0,
            stack.limit is None,
            !stack.track_clean && !stack.track_dirty,
            stack.events@.len() == 0,
    {
        RedoStack {
            stack: Vec::new(),
            idx: 0,
            limit: None,
            track_clean: false,
            track_dirty: false,
            events: Vec::new(),
        }
    }

    /// Creates a new stack that holds at most `limit` commands: when the
    /// limit is reached, a batch of the oldest commands is dropped. A
    /// limit of zero is a configuration error and is rejected up front.
    pub fn with_limit(limit: usize) -> (stack: RedoStack<T>)
        requires
            limit >= 1,
        ensures
            stack.inv(),
            stack.stack@.len() == 0,
            stack.idx == 0,
            stack.limit == Some(limit),
            stack.events@.len() == 0,
    {
        RedoStack {
            stack: Vec::new(),
            idx: 0,
            limit: Some(limit),
            track_clean: false,
            track_dirty: false,
            events: Vec::new(),
        }
    }

    /// Creates a new stack with the specified capacity.
    pub fn with_capacity(capacity: usize) -> (stack: RedoStack<T>)
        ensures
            stack.inv(),
            stack.stack@.len() == 0,
            stack.idx == 0,
            stack.limit is None,
            stack.events@.len() == 0,
    {
        RedoStack {
            stack: Vec::with_capacity(capacity),
            idx: 0,
            limit: None,
            track_clean: false,
            track_dirty: false,
            events: Vec::new(),
        }
    }

    /// Creates a new stack with the specified capacity and limit. A
    /// limit of zero is rejected up front.
    pub fn with_capacity_and_limit(capacity: usize, limit: usize) -> (stack: RedoStack<T>)
        requires
            limit >= 1,
        ensures
            stack.inv(),
            stack.stack@.len() == 0,
            stack.idx == 0,
            stack.limit == Some(limit),
            stack.events@.len() == 0,
    {
        RedoStack {
            stack: Vec::with_capacity(capacity),
            idx: 0,
            limit: Some(limit),
            track_clean: false,
            track_dirty: false,
            events: Vec::new(),
        }
    }

    /// Returns the limit of the stack, or `None` if it has none.
    pub fn limit(&self) -> (limit: Option<usize>)
        ensures
            limit == self.limit,
    {
        self.limit
    }

    /// Returns the number of commands on the stack.
    pub fn len(&self) -> (len: usize)
        ensures
            len == self.stack@.len(),
    {
        self.stack.len()
    }

    /// Returns the capacity of the stack.
    pub fn capacity(&self) -> (capacity: usize)
        ensures
            capacity >= self.stack@.len(),
    {
        vec_capacity(&self.stack)
    }

    /// Reserves capacity for at least `additional` more commands.
    pub fn reserve(&mut self, additional: usize)
        ensures
            final(self).stack@ == old(self).stack@,
            final(self).idx == old(self).idx,
            final(self).limit == old(self).limit,
            final(self).events == old(self).events,
            old(self).inv() ==> final(self).inv(),
    {
        self.stack.reserve(additional);
    }

    /// Shrinks the capacity of the stack as much as possible.
    pub fn shrink_to_fit(&mut self)
        ensures
            final(self).stack@ == old(self).stack@,
            final(self).idx == old(self).idx,
            final(self).limit == old(self).limit,
            final(self).events == old(self).events,
            old(self).inv() ==> final(self).inv(),
    {
        vec_shrink_to_fit(&mut self.stack);
    }

    /// Starts recording the transitions from dirty to clean.
    ///
    /// An empty stack is clean, so the first push records nothing.
    pub fn on_clean(&mut self)
        ensures
            *final(self) == (RedoStack { track_clean: true, ..*old(self) }),
    {
        self.track_clean = true;
    }

    /// Starts recording the transitions from clean to dirty.
    pub fn on_dirty(&mut self)
        ensures
            *final(self) == (RedoStack { track_dirty: true, ..*old(self) }),
    {
        self.track_dirty = true;
    }

    /// Removes and returns the recorded transitions, oldest first:
    /// `true` for dirty to clean.
    pub fn take_events(&mut self) -> (events: Vec<bool>)
        ensures
            events == old(self).events,
            final(self).events@.len() == 0,
            final(self).stack == old(self).stack,
            final(self).idx == old(self).idx,
            final(self).limit == old(self).limit,
            final(self).track_clean == old(self).track_clean,
            final(self).track_dirty == old(self).track_dirty,
    {
        let mut out = Vec::new();
        core::mem::swap(&mut out, &mut self.events);
        out
    }

    /// Returns `true` if the state of the stack is clean.
    pub fn is_clean(&self) -> (clean: bool)
        ensures
            clean == (self.idx == self.stack@.len()),
    {
        self.idx == self.stack.len()
    }

    /// Returns `true` if the state of the stack is dirty.
    pub fn is_dirty(&self) -> (dirty: bool)
        ensures
            dirty == (self.idx != self.stack@.len()),
    {
        !self.is_clean()
    }
}

impl<T: RedoCmd> RedoStack<T> {
    /// Pushes `cmd` to the top of the stack and executes its redo
    /// method, popping off every command above the active one. The
    /// command may be absorbed into the topmost one; otherwise it is
    /// pushed, and when the limit is reached about a quarter of the
    /// stack's oldest commands are dropped first.
    ///
    /// # Errors
    /// If the redo or an absorbing merge fails, the error is returned;
    /// the already truncated suffix stays dropped.
    pub fn push(&mut self, cmd: T) -> (res: Result<(), T::Err>)
        requires
            old(self).inv(),
        ensures
            final(self).inv(),
            final(self).limit == old(self).limit,
            final(self).track_clean == old(self).track_clean,
            final(self).track_dirty == old(self).track_dirty,
            res is Ok ==> ({
                let parts = push_parts(
                    old(self).stack@,
                    old(self).idx as int,
                    old(self).limit,
                    cmd,
                );
                &&& final(self).stack@ == parts.0
                &&& final(self).idx == parts.1
                &&& final(self).idx == final(self).stack@.len()
            }),
            res is Ok ==> final(self).events@ == (if old(self).idx != old(self).stack@.len()
                && old(self).track_clean {
                old(self).events@.push(true)
            } else {
                old(self).events@
            }),
            res is Err ==> final(self).idx == old(self).idx && final(self).events == old(self).events && ({
                let kept = old(self).stack@.take(old(self).idx as int);
                final(self).stack@ == kept || (old(self).idx > 0 && final(self).stack@
                    == kept.update(
                    old(self).idx - 1,
                    kept.last().merge_keep(cmd.after_redo()),
                ))
            }),
    {
        let ghost cmd0 = cmd;
        let mut cmd = cmd;
        let was_dirty = self.is_dirty();
        // Pop off all elements after the active one.
        self.stack.truncate(self.idx);
        if let Err(e) = cmd.redo() {
            return Err(e);
        }
        // Try to absorb the command into the topmost one.
        let mut absorbed = false;
        if self.idx > 0 {
            let at = self.idx - 1;
            match self.stack[at].merge(&cmd) {
                Some(r) => {
                    absorbed = true;
                    if let Err(e) = r {
                        return Err(e);
                    }
                },
                None => (),
            }
        }
        if !absorbed {
            let evict = match self.limit {
                Some(limit) => self.idx == limit,
                None => false,
            };
            if evict {
                // Drop about a quarter of the stack at once.
                let batch: usize = self.idx / 4 + 1;
                let rest = self.stack.split_off(batch);
                self.stack = rest;
                self.idx = self.idx - (batch - 1);
                self.stack.push(cmd);
            } else {
                self.stack.push(cmd);
                self.idx = self.stack.len();
            }
        }
        proof {
            let parts = push_parts(old(self).stack@, old(self).idx as int, old(self).limit, cmd0);
            assert(self.stack@ =~= parts.0);
        }
        // The state is clean after a push; report if it was dirty.
        if was_dirty && self.track_clean {
            self.events.push(true);
        }
        Ok(())
    }

    /// Calls the redo method of the active command and makes the next
    /// one active. Does nothing when the stack is clean.
    pub fn redo(&mut self) -> (res: Result<(), T::Err>)
        requires
            old(self).inv(),
        ensures
            final(self).inv(),
            final(self).stack@.len() == old(self).stack@.len(),
            final(self).limit == old(self).limit,
            final(self).track_clean == old(self).track_clean,
            final(self).track_dirty == old(self).track_dirty,
            old(self).idx == old(self).stack@.len() ==> res is Ok && *final(self) == *old(self),
            res is Ok && old(self).idx < old(self).stack@.len() ==> ({
                let at = old(self).idx as int;
                &&& final(self).idx == at + 1
                &&& final(self).stack@ == old(self).stack@.update(
                    at,
                    old(self).stack@[at].after_redo(),
                )
                &&& final(self).events@ == (if at + 1 == old(self).stack@.len() && old(self).track_clean {
                    old(self).events@.push(true)
                } else {
                    old(self).events@
                })
            }),
            res is Err ==> final(self).idx == old(self).idx && final(self).events == old(self).events && (forall|j: int|
                0 <= j < old(self).stack@.len() && j != old(self).idx ==> final(self).stack@[j]
                    == old(self).stack@[j]),
    {
        if self.idx < self.stack.len() {
            let was_dirty = self.is_dirty();
            let at = self.idx;
            if let Err(e) = self.stack[at].redo() {
                return Err(e);
            }
            self.idx = self.idx + 1;
            if was_dirty && self.idx == self.stack.len() && self.track_clean {
                self.events.push(true);
            }
        }
        Ok(())
    }

    /// Calls the undo method of the active command and makes the
    /// previous one active. Does nothing when the stack is exhausted.
    pub fn undo(&mut self) -> (res: Result<(), T::Err>)
        requires
            old(self).inv(),
        ensures
            final(self).inv(),
            final(self).stack@.len() == old(self).stack@.len(),
            final(self).limit == old(self).limit,
            final(self).track_clean == old(self).track_clean,
            final(self).track_dirty == old(self).track_dirty,
            old(self).idx == 0 ==> res is Ok && *final(self) == *old(self),
            res is Ok && old(self).idx > 0 ==> ({
                let at = old(self).idx - 1;
                &&& final(self).idx == at
                &&& final(self).stack@ == old(self).stack@.update(
                    at,
                    old(self).stack@[at].after_undo(),
                )
                &&& final(self).events@ == (if old(self).idx == old(self).stack@.len() && old(self).track_dirty {
                    old(self).events@.push(false)
                } else {
                    old(self).events@
                })
            }),
            // A failing undo leaves the position already moved back.
            res is Err ==> old(self).idx > 0 && final(self).idx == old(self).idx - 1 && final(self).events == old(self).events && (forall|j: int|
                0 <= j < old(self).stack@.len() && j != old(self).idx - 1 ==> final(self).stack@[j] == old(self).stack@[j]),
    {
        if self.idx > 0 {
            let was_clean = self.is_clean();
            self.idx = self.idx - 1;
            let at = self.idx;
            if let Err(e) = self.stack[at].undo() {
                return Err(e);
            }
            if was_clean && self.track_dirty {
                self.events.push(false);
            }
        }
        Ok(())
    }
}

} // verus!
