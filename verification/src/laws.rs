//! Engine-level laws: what the library states of its engines, proved
//! once for every command type that stands behind [`CommandLaws`].
//!
//! The laws cover the round trip of applies and undos, the idempotence
//! of a repeated walk, the truncation a successful apply performs, the
//! bounds a limit reduction respects, the edge-triggering of the undo,
//! redo and saved signals, and the restoration a cancelled checkpoint
//! scope achieves.

use crate::checkpoint::{unwind_all, unwind_one, Action};
use crate::record::{lemma_goto_walk, RecordModel};
use crate::{Command, CommandLaws, Entry, Merge, Signal};
use std::collections::VecDeque;
use vstd::prelude::*;

verus! {

/// The state after `k` undo steps in a row.
pub open spec fn undo_chain<R, C: Command<R>>(m: RecordModel<R, C>, k: nat) -> RecordModel<R, C>
    decreases k,
{
    if k == 0 {
        m
    } else {
        undo_chain(m.undo_step().0, (k - 1) as nat)
    }
}

/// One more undo step continues the chain from its end.
pub proof fn lemma_undo_chain_snoc<R, C: Command<R>>(m: RecordModel<R, C>, k: nat)
    ensures
        undo_chain(m, k + 1) == undo_chain(m, k).undo_step().0,
    decreases k,
{
    if k == 0 {
        assert(undo_chain(m, 1nat) == undo_chain(m.undo_step().0, 0nat));
    } else {
        lemma_undo_chain_snoc(m.undo_step().0, (k - 1) as nat);
        assert(undo_chain(m, k + 1) == undo_chain(m.undo_step().0, k));
        assert(undo_chain(m, k) == undo_chain(m.undo_step().0, (k - 1) as nat));
    }
}

/// An apply of `e` on `m` that pushes plainly: the command can apply, no
/// eviction takes place, and the tail entry does not absorb or annul the
/// incoming command.
pub open spec fn plain_step<R, C: Command<R>>(m: RecordModel<R, C>, e: Entry<C>) -> bool {
    &&& e.command.can_apply(m.receiver)
    &&& m.current < m.limit
    &&& (m.current > 0 && !m.is_saved() ==> m.log[m.current - 1].command.merge_out(
        e.command.after_apply(m.receiver).0,
    ) matches Merge::No(c))
}

/// A whole chain of plain applies.
pub open spec fn plain_chain<R, C: Command<R>>(
    m: RecordModel<R, C>,
    cmds: Seq<C>,
    tss: Seq<i64>,
) -> bool
    decreases cmds.len(),
{
    cmds.len() == 0 || {
        let e = Entry { command: cmds[0], timestamp: tss[0] };
        plain_step(m, e) && plain_chain(m.apply_step(e).0, cmds.skip(1), tss.skip(1))
    }
}

/// A plain apply step preserves the structural invariant, pushes exactly
/// one entry above the kept prefix, and leaves the command poised so that
/// one undo step restores the receiver and the cursor exactly.
pub proof fn lemma_plain_apply_then_undo<R, C: CommandLaws<R>>(m: RecordModel<R, C>, e: Entry<C>)
    requires
        m.inv(),
        plain_step(m, e),
    ensures
        ({
            let a = m.apply_step(e).0;
            let u = a.undo_step().0;
            &&& a.inv()
            &&& a.current == m.current + 1
            &&& a.log.len() == m.current + 1
            &&& a.log.take(m.current) == m.log.take(m.current)
            &&& u.current == m.current
            &&& u.receiver == m.receiver
            &&& u.log.take(m.current) == m.log.take(m.current)
        }),
{
    let (c2, r2) = e.command.after_apply(m.receiver);
    e.command.law_apply(m.receiver);
    let a = m.apply_step(e).0;
    if m.current > 0 && !m.is_saved() {
        m.log[m.current - 1].command.law_merge_no(c2);
    }
    assert(a.log.last().command == c2);
    assert(a.log.take(m.current) =~= m.log.take(m.current));
    assert(a.receiver == r2);
    c2.law_undo(m.receiver, r2);
    let u = a.undo_step().0;
    assert(u.receiver == m.receiver);
    assert(u.log.take(m.current) =~= m.log.take(m.current));
    assert forall|i: int, j: int| 0 <= i <= j < a.log.len() implies a.log[i].timestamp
        <= a.log[j].timestamp by {
        assert(j < a.log.len() - 1 ==> a.log[j] == m.log.take(m.current)[j]);
    }
}

/// Two record states that agree on the receiver, the cursor, and the log
/// below the cursor.
pub open spec fn agrees_below<R, C: Command<R>>(
    a: RecordModel<R, C>,
    b: RecordModel<R, C>,
) -> bool {
    &&& a.current == b.current
    &&& a.receiver == b.receiver
    &&& 0 <= a.current <= a.log.len()
    &&& a.current <= b.log.len()
    &&& a.log.take(a.current) == b.log.take(b.current)
}

/// For every sequence of plain successful applies followed by an equal
/// number of undo steps, the receiver equals its pre-sequence value and
/// the cursor returns to its pre-sequence value. Applies that merge,
/// annul, or evict are excluded: they change how many entries one undo
/// rolls back.
pub proof fn lemma_apply_undo_roundtrip<R, C: CommandLaws<R>>(
    m: RecordModel<R, C>,
    cmds: Seq<C>,
    tss: Seq<i64>,
)
    requires
        m.inv(),
        cmds.len() == tss.len(),
        plain_chain(m, cmds, tss),
    ensures
        ({
            let done = undo_chain(m.apply_chain(cmds, tss), cmds.len());
            &&& done.receiver == m.receiver
            &&& done.current == m.current
        }),
    decreases cmds.len(),
{
    if cmds.len() > 0 {
        let e = Entry { command: cmds[0], timestamp: tss[0] };
        let a = m.apply_step(e).0;
        lemma_plain_apply_then_undo(m, e);
        lemma_apply_undo_roundtrip(a, cmds.skip(1), tss.skip(1));
        let n1 = (cmds.len() - 1) as nat;
        let x = a.apply_chain(cmds.skip(1), tss.skip(1));
        let y = undo_chain(x, n1);
        lemma_undo_chain_snoc(x, n1);
        assert(undo_chain(x, cmds.len()) == y.undo_step().0);
        // The chained applies and undos never touch the entry the first
        // apply pushed, so the final undo still reverses it exactly.
        lemma_roundtrip_returns(a, cmds.skip(1), tss.skip(1));
        assert(agrees_below(y, a));
        let i = a.current - 1;
        assert(y.log[i] == y.log.take(y.current)[i]);
        assert(a.log[i] == a.log.take(a.current)[i]);
        assert(y.log[i] == a.log[i]);
        e.command.law_apply(m.receiver);
        let (c2, r2) = e.command.after_apply(m.receiver);
        c2.law_undo(m.receiver, r2);
        assert(y.undo_step().0.receiver == m.receiver);
        assert(y.undo_step().0.current == m.current);
    }
}

/// A plain chain followed by as many undo steps lands back on a state
/// that agrees with the starting one below its cursor.
pub proof fn lemma_roundtrip_returns<R, C: CommandLaws<R>>(
    m: RecordModel<R, C>,
    cmds: Seq<C>,
    tss: Seq<i64>,
)
    requires
        m.inv(),
        cmds.len() == tss.len(),
        plain_chain(m, cmds, tss),
    ensures
        agrees_below(undo_chain(m.apply_chain(cmds, tss), cmds.len()), m),
    decreases cmds.len(),
{
    if cmds.len() == 0 {
        assert(m.log.take(m.current) == m.log.take(m.current));
    } else {
        let e = Entry { command: cmds[0], timestamp: tss[0] };
        let a = m.apply_step(e).0;
        lemma_plain_apply_then_undo(m, e);
        lemma_roundtrip_returns(a, cmds.skip(1), tss.skip(1));
        let n1 = (cmds.len() - 1) as nat;
        let x = a.apply_chain(cmds.skip(1), tss.skip(1));
        let y = undo_chain(x, n1);
        lemma_undo_chain_snoc(x, n1);
        let i = a.current - 1;
        assert(y.log[i] == y.log.take(y.current)[i]);
        assert(a.log[i] == a.log.take(a.current)[i]);
        e.command.law_apply(m.receiver);
        let (c2, r2) = e.command.after_apply(m.receiver);
        c2.law_undo(m.receiver, r2);
        let u = y.undo_step().0;
        assert(u.log.take(u.current) =~= y.log.take(m.current));
        assert(y.log.take(m.current) =~= a.log.take(m.current));
        assert(u.log.take(u.current) == m.log.take(m.current));
    }
}

/// Membership distributes over sequence concatenation.
pub proof fn lemma_concat_contains<T>(a: Seq<T>, b: Seq<T>, v: T)
    ensures
        (a + b).contains(v) <==> a.contains(v) || b.contains(v),
{
    if a.contains(v) {
        let i = choose|i: int| 0 <= i < a.len() && a[i] == v;
        assert((a + b)[i] == v);
    }
    if b.contains(v) {
        let i = choose|i: int| 0 <= i < b.len() && b[i] == v;
        assert((a + b)[a.len() + i] == v);
    }
    if (a + b).contains(v) {
        let i = choose|i: int| 0 <= i < (a + b).len() && (a + b)[i] == v;
        if i < a.len() {
            assert(a[i] == v);
        } else {
            assert(b[i - a.len()] == v);
        }
    }
}

/// Membership in a four-part concatenation, piece by piece.
pub proof fn lemma_contains_four<T>(a: Seq<T>, b: Seq<T>, c: Seq<T>, d: Seq<T>, v: T)
    ensures
        (a + b + c + d).contains(v) <==> a.contains(v) || b.contains(v) || c.contains(v)
            || d.contains(v),
{
    lemma_concat_contains(a + b + c, d, v);
    lemma_concat_contains(a + b, c, v);
    lemma_concat_contains(a, b, v);
}

/// Membership in a sequence of at most one element is membership of
/// its only element.
pub proof fn lemma_elem_contains<T>(s: Seq<T>, v: T)
    requires
        s.len() <= 1,
    ensures
        s.contains(v) <==> (s.len() == 1 && s[0] == v),
{
    if s.contains(v) {
        let i = choose|i: int| 0 <= i < s.len() && s[i] == v;
        assert(s[0] == v);
    }
    if s.len() == 1 && s[0] == v {
        assert(s.contains(v));
    }
}

/// A successful apply always truncates the redoable suffix: afterwards
/// the cursor sits at the end of the log, and the log is never longer
/// than the applied prefix plus the one new entry.
pub proof fn lemma_apply_truncates<R, C: Command<R>>(m: RecordModel<R, C>, e: Entry<C>)
    requires
        m.inv(),
    ensures
        ({
            let post = m.apply_step(e).0;
            &&& post.current == post.log.len()
            &&& post.log.len() <= m.current + 1
        }),
{
}

/// Limit eviction never removes the entry the cursor depends on: the
/// active entry survives every limit reduction, and when the redoable
/// suffix is no longer than the new limit, the log shrinks to at most
/// the larger of the new limit and the cursor.
pub proof fn lemma_limit_spares_active<R, C: Command<R>>(m: RecordModel<R, C>, n: int)
    requires
        m.inv(),
        n >= 1,
    ensures
        ({
            let post = m.limit_step(n);
            &&& post.inv()
            &&& post.current <= post.log.len()
            &&& m.current < m.log.len() ==> post.current < post.log.len() && post.log[post.current]
                == m.log[m.current]
            &&& m.current == m.log.len() && m.current > 0 ==> post.current > 0
                && post.log[post.current - 1] == m.log[m.current - 1]
            &&& m.log.len() - m.current <= n ==> post.log.len() <= (if n >= post.current {
                n
            } else {
                post.current
            })
        }),
{
    let post = m.limit_step(n);
    if n < m.log.len() {
        let begin = if m.current < m.log.len() - n {
            m.current
        } else {
            m.log.len() - n
        };
        assert(post.log =~= m.log.skip(begin));
        if m.current < m.log.len() {
            assert(post.log[post.current] == m.log[m.current]);
        } else if m.current > 0 {
            assert(post.log[post.current - 1] == m.log[m.current - 1]);
        }
    }
}

/// Edge-triggering of the undo, redo and saved signals for a successful
/// undo step: each boolean signal is emitted exactly when its state
/// flips, and it reports the new state.
pub proof fn lemma_undo_signal_edges<R, C: Command<R>>(m: RecordModel<R, C>)
    requires
        m.inv(),
        m.current > 0,
    ensures
        ({
            let (post, sigs) = m.undo_step();
            &&& forall|b: bool| #[trigger]
                sigs.contains(Signal::Undo(b)) <==> (m.can_undo() != post.can_undo() && b
                    == post.can_undo())
            &&& forall|b: bool| #[trigger]
                sigs.contains(Signal::Redo(b)) <==> (m.can_redo() != post.can_redo() && b
                    == post.can_redo())
            &&& forall|b: bool| #[trigger]
                sigs.contains(Signal::Saved(b)) <==> (m.is_saved() != post.is_saved() && b
                    == post.is_saved())
        }),
{
    let (post, sigs) = m.undo_step();
    let p0 = seq![Signal::Cursor { old: m.current as usize, new: (m.current - 1) as usize }];
    let p1 = if m.current == m.log.len() {
        seq![Signal::Redo(true)]
    } else {
        Seq::<Signal>::empty()
    };
    let p2 = if m.current == 1 {
        seq![Signal::Undo(false)]
    } else {
        Seq::<Signal>::empty()
    };
    let p3 = if m.is_saved() != post.is_saved() {
        seq![Signal::Saved(post.is_saved())]
    } else {
        Seq::<Signal>::empty()
    };
    assert(sigs == p0 + p1 + p2 + p3);
    assert forall|b: bool| #[trigger] sigs.contains(Signal::Undo(b)) <==> (m.can_undo()
        != post.can_undo() && b == post.can_undo()) by {
        lemma_contains_four(p0, p1, p2, p3, Signal::Undo(b));
        lemma_elem_contains(p0, Signal::Undo(b));
        lemma_elem_contains(p1, Signal::Undo(b));
        lemma_elem_contains(p2, Signal::Undo(b));
        lemma_elem_contains(p3, Signal::Undo(b));
    }
    assert forall|b: bool| #[trigger] sigs.contains(Signal::Redo(b)) <==> (m.can_redo()
        != post.can_redo() && b == post.can_redo()) by {
        lemma_contains_four(p0, p1, p2, p3, Signal::Redo(b));
        lemma_elem_contains(p0, Signal::Redo(b));
        lemma_elem_contains(p1, Signal::Redo(b));
        lemma_elem_contains(p2, Signal::Redo(b));
        lemma_elem_contains(p3, Signal::Redo(b));
    }
    assert forall|b: bool| #[trigger] sigs.contains(Signal::Saved(b)) <==> (m.is_saved()
        != post.is_saved() && b == post.is_saved()) by {
        lemma_contains_four(p0, p1, p2, p3, Signal::Saved(b));
        lemma_elem_contains(p0, Signal::Saved(b));
        lemma_elem_contains(p1, Signal::Saved(b));
        lemma_elem_contains(p2, Signal::Saved(b));
        lemma_elem_contains(p3, Signal::Saved(b));
    }
}

/// Edge-triggering of the undo, redo and saved signals for a successful
/// redo step.
pub proof fn lemma_redo_signal_edges<R, C: Command<R>>(m: RecordModel<R, C>)
    requires
        m.inv(),
        m.current < m.log.len(),
    ensures
        ({
            let (post, sigs) = m.redo_step();
            &&& forall|b: bool| #[trigger]
                sigs.contains(Signal::Undo(b)) <==> (m.can_undo() != post.can_undo() && b
                    == post.can_undo())
            &&& forall|b: bool| #[trigger]
                sigs.contains(Signal::Redo(b)) <==> (m.can_redo() != post.can_redo() && b
                    == post.can_redo())
            &&& forall|b: bool| #[trigger]
                sigs.contains(Signal::Saved(b)) <==> (m.is_saved() != post.is_saved() && b
                    == post.is_saved())
        }),
{
    let (post, sigs) = m.redo_step();
    let p0 = seq![Signal::Cursor { old: m.current as usize, new: (m.current + 1) as usize }];
    let p1 = if m.current == m.log.len() - 1 {
        seq![Signal::Redo(false)]
    } else {
        Seq::<Signal>::empty()
    };
    let p2 = if m.current == 0 {
        seq![Signal::Undo(true)]
    } else {
        Seq::<Signal>::empty()
    };
    let p3 = if m.is_saved() != post.is_saved() {
        seq![Signal::Saved(post.is_saved())]
    } else {
        Seq::<Signal>::empty()
    };
    assert(sigs == p0 + p1 + p2 + p3);
    assert forall|b: bool| #[trigger] sigs.contains(Signal::Undo(b)) <==> (m.can_undo()
        != post.can_undo() && b == post.can_undo()) by {
        lemma_contains_four(p0, p1, p2, p3, Signal::Undo(b));
        lemma_elem_contains(p0, Signal::Undo(b));
        lemma_elem_contains(p1, Signal::Undo(b));
        lemma_elem_contains(p2, Signal::Undo(b));
        lemma_elem_contains(p3, Signal::Undo(b));
    }
    assert forall|b: bool| #[trigger] sigs.contains(Signal::Redo(b)) <==> (m.can_redo()
        != post.can_redo() && b == post.can_redo()) by {
        lemma_contains_four(p0, p1, p2, p3, Signal::Redo(b));
        lemma_elem_contains(p0, Signal::Redo(b));
        lemma_elem_contains(p1, Signal::Redo(b));
        lemma_elem_contains(p2, Signal::Redo(b));
        lemma_elem_contains(p3, Signal::Redo(b));
    }
    assert forall|b: bool| #[trigger] sigs.contains(Signal::Saved(b)) <==> (m.is_saved()
        != post.is_saved() && b == post.is_saved()) by {
        lemma_contains_four(p0, p1, p2, p3, Signal::Saved(b));
        lemma_elem_contains(p0, Signal::Saved(b));
        lemma_elem_contains(p1, Signal::Saved(b));
        lemma_elem_contains(p2, Signal::Saved(b));
        lemma_elem_contains(p3, Signal::Saved(b));
    }
}

/// Whether applying `e` would annul the tail entry. An annulling apply
/// is the one case where an apply can move the cursor backwards, and
/// with it the undo and saved states, without reporting those edges.
pub open spec fn apply_annuls<R, C: Command<R>>(m: RecordModel<R, C>, e: Entry<C>) -> bool {
    &&& m.current > 0
    &&& !m.is_saved()
    &&& m.log[m.current - 1].command.merge_out(
        e.command.after_apply(m.receiver).0,
    ) is Annul
}

/// Edge-triggering of the undo, redo and saved signals for a successful
/// apply that does not annul the tail entry.
pub proof fn lemma_apply_signal_edges<R, C: Command<R>>(m: RecordModel<R, C>, e: Entry<C>)
    requires
        m.inv(),
        !apply_annuls(m, e),
    ensures
        ({
            let (post, merged, sigs) = m.apply_step(e);
            &&& forall|b: bool| #[trigger]
                sigs.contains(Signal::Undo(b)) <==> (m.can_undo() != post.can_undo() && b
                    == post.can_undo())
            &&& forall|b: bool| #[trigger]
                sigs.contains(Signal::Redo(b)) <==> (m.can_redo() != post.can_redo() && b
                    == post.can_redo())
            &&& forall|b: bool| #[trigger]
                sigs.contains(Signal::Saved(b)) <==> (m.is_saved() != post.is_saved() && b
                    == post.is_saved())
        }),
{
    let (post, merged, sigs) = m.apply_step(e);
    let p0 = seq![Signal::Cursor { old: m.current as usize, new: post.current as usize }];
    let p1 = if m.can_redo() {
        seq![Signal::Redo(false)]
    } else {
        Seq::<Signal>::empty()
    };
    let p2 = if !m.can_undo() {
        seq![Signal::Undo(true)]
    } else {
        Seq::<Signal>::empty()
    };
    let p3 = if m.is_saved() {
        seq![Signal::Saved(false)]
    } else {
        Seq::<Signal>::empty()
    };
    assert(sigs == p0 + p1 + p2 + p3);
    assert(!post.can_redo());
    assert(!post.is_saved());
    assert(post.can_undo());
    assert forall|b: bool| #[trigger] sigs.contains(Signal::Undo(b)) <==> (m.can_undo()
        != post.can_undo() && b == post.can_undo()) by {
        lemma_contains_four(p0, p1, p2, p3, Signal::Undo(b));
        lemma_elem_contains(p0, Signal::Undo(b));
        lemma_elem_contains(p1, Signal::Undo(b));
        lemma_elem_contains(p2, Signal::Undo(b));
        lemma_elem_contains(p3, Signal::Undo(b));
    }
    assert forall|b: bool| #[trigger] sigs.contains(Signal::Redo(b)) <==> (m.can_redo()
        != post.can_redo() && b == post.can_redo()) by {
        lemma_contains_four(p0, p1, p2, p3, Signal::Redo(b));
        lemma_elem_contains(p0, Signal::Redo(b));
        lemma_elem_contains(p1, Signal::Redo(b));
        lemma_elem_contains(p2, Signal::Redo(b));
        lemma_elem_contains(p3, Signal::Redo(b));
    }
    assert forall|b: bool| #[trigger] sigs.contains(Signal::Saved(b)) <==> (m.is_saved()
        != post.is_saved() && b == post.is_saved()) by {
        lemma_contains_four(p0, p1, p2, p3, Signal::Saved(b));
        lemma_elem_contains(p0, Signal::Saved(b));
        lemma_elem_contains(p1, Signal::Saved(b));
        lemma_elem_contains(p2, Signal::Saved(b));
        lemma_elem_contains(p3, Signal::Saved(b));
    }
}

/// Edge-triggering of the undo and saved signals for a limit change:
/// each boolean signal is emitted exactly when its state flips, and the
/// redo state never flips, so no redo signal is ever emitted.
pub proof fn lemma_limit_signal_edges<R, C: Command<R>>(m: RecordModel<R, C>, n: int)
    requires
        m.inv(),
        n >= 1,
    ensures
        ({
            let post = m.limit_step(n);
            let sigs = m.limit_signals(n);
            &&& forall|b: bool| #[trigger]
                sigs.contains(Signal::Undo(b)) <==> (m.can_undo() != post.can_undo() && b
                    == post.can_undo())
            &&& forall|b: bool| !#[trigger] sigs.contains(Signal::Redo(b))
            &&& m.can_redo() == post.can_redo()
            &&& forall|b: bool| #[trigger]
                sigs.contains(Signal::Saved(b)) <==> (m.is_saved() != post.is_saved() && b
                    == post.is_saved())
        }),
{
    lemma_limit_spares_active(m, n);
    let post = m.limit_step(n);
    let sigs = m.limit_signals(n);
    if n >= m.log.len() {
        assert(sigs =~= Seq::<Signal>::empty());
        assert forall|b: bool| !#[trigger] sigs.contains(Signal::Undo(b)) by {
            lemma_elem_contains(sigs, Signal::Undo(b));
        }
        assert forall|b: bool| !#[trigger] sigs.contains(Signal::Redo(b)) by {
            lemma_elem_contains(sigs, Signal::Redo(b));
        }
        assert forall|b: bool| !#[trigger] sigs.contains(Signal::Saved(b)) by {
            lemma_elem_contains(sigs, Signal::Saved(b));
        }
    } else {
        let p0 = if m.current != post.current {
            seq![Signal::Cursor { old: m.current as usize, new: post.current as usize }]
        } else {
            Seq::<Signal>::empty()
        };
        let p1 = if m.can_undo() != post.can_undo() {
            seq![Signal::Undo(post.can_undo())]
        } else {
            Seq::<Signal>::empty()
        };
        let p2 = if m.is_saved() != post.is_saved() {
            seq![Signal::Saved(post.is_saved())]
        } else {
            Seq::<Signal>::empty()
        };
        assert(sigs == p0 + p1 + p2);
        assert forall|b: bool| #[trigger] sigs.contains(Signal::Undo(b)) <==> (m.can_undo()
            != post.can_undo() && b == post.can_undo()) by {
            lemma_contains_four(p0, p1, p2, Seq::<Signal>::empty(), Signal::Undo(b));
            assert(p0 + p1 + p2 + Seq::<Signal>::empty() =~= sigs);
            lemma_elem_contains(p0, Signal::Undo(b));
            lemma_elem_contains(p1, Signal::Undo(b));
            lemma_elem_contains(p2, Signal::Undo(b));
        }
        assert forall|b: bool| !#[trigger] sigs.contains(Signal::Redo(b)) by {
            lemma_contains_four(p0, p1, p2, Seq::<Signal>::empty(), Signal::Redo(b));
            assert(p0 + p1 + p2 + Seq::<Signal>::empty() =~= sigs);
            lemma_elem_contains(p0, Signal::Redo(b));
            lemma_elem_contains(p1, Signal::Redo(b));
            lemma_elem_contains(p2, Signal::Redo(b));
        }
        assert forall|b: bool| #[trigger] sigs.contains(Signal::Saved(b)) <==> (m.is_saved()
            != post.is_saved() && b == post.is_saved()) by {
            lemma_contains_four(p0, p1, p2, Seq::<Signal>::empty(), Signal::Saved(b));
            assert(p0 + p1 + p2 + Seq::<Signal>::empty() =~= sigs);
            lemma_elem_contains(p0, Signal::Saved(b));
            lemma_elem_contains(p1, Signal::Saved(b));
            lemma_elem_contains(p2, Signal::Saved(b));
        }
    }
}

/// Edge-triggering for a finished walk: the aggregate signals report
/// each boolean exactly when the walk flipped it, comparing only the
/// states before and after the whole walk.
pub proof fn lemma_goto_signal_edges<R, C: Command<R>>(m: RecordModel<R, C>, target: int)
    requires
        m.inv(),
        0 <= target <= m.log.len(),
    ensures
        ({
            let post = m.goto_walk(target);
            let sigs = m.goto_signals(target);
            &&& forall|b: bool| #[trigger]
                sigs.contains(Signal::Undo(b)) <==> (m.can_undo() != post.can_undo() && b
                    == post.can_undo())
            &&& forall|b: bool| #[trigger]
                sigs.contains(Signal::Redo(b)) <==> (m.can_redo() != post.can_redo() && b
                    == post.can_redo())
            &&& forall|b: bool| #[trigger]
                sigs.contains(Signal::Saved(b)) <==> (m.is_saved() != post.is_saved() && b
                    == post.is_saved())
        }),
{
    lemma_goto_walk(m, target);
    let post = m.goto_walk(target);
    let sigs = m.goto_signals(target);
    let len = m.log.len() as int;
    let p0 = if m.current != target {
        seq![Signal::Cursor { old: m.current as usize, new: target as usize }]
    } else {
        Seq::<Signal>::empty()
    };
    let p1 = if m.can_undo() != (target > 0) {
        seq![Signal::Undo(target > 0)]
    } else {
        Seq::<Signal>::empty()
    };
    let p2 = if m.can_redo() != (target < len) {
        seq![Signal::Redo(target < len)]
    } else {
        Seq::<Signal>::empty()
    };
    let p3 = if m.is_saved() != (m.saved == Some(target)) {
        seq![Signal::Saved(m.saved == Some(target))]
    } else {
        Seq::<Signal>::empty()
    };
    assert(sigs == p0 + p1 + p2 + p3);
    assert forall|b: bool| #[trigger] sigs.contains(Signal::Undo(b)) <==> (m.can_undo()
        != post.can_undo() && b == post.can_undo()) by {
        lemma_contains_four(p0, p1, p2, p3, Signal::Undo(b));
        lemma_elem_contains(p0, Signal::Undo(b));
        lemma_elem_contains(p1, Signal::Undo(b));
        lemma_elem_contains(p2, Signal::Undo(b));
        lemma_elem_contains(p3, Signal::Undo(b));
    }
    assert forall|b: bool| #[trigger] sigs.contains(Signal::Redo(b)) <==> (m.can_redo()
        != post.can_redo() && b == post.can_redo()) by {
        lemma_contains_four(p0, p1, p2, p3, Signal::Redo(b));
        lemma_elem_contains(p0, Signal::Redo(b));
        lemma_elem_contains(p1, Signal::Redo(b));
        lemma_elem_contains(p2, Signal::Redo(b));
        lemma_elem_contains(p3, Signal::Redo(b));
    }
    assert forall|b: bool| #[trigger] sigs.contains(Signal::Saved(b)) <==> (m.is_saved()
        != post.is_saved() && b == post.is_saved()) by {
        lemma_contains_four(p0, p1, p2, p3, Signal::Saved(b));
        lemma_elem_contains(p0, Signal::Saved(b));
        lemma_elem_contains(p1, Signal::Saved(b));
        lemma_elem_contains(p2, Signal::Saved(b));
        lemma_elem_contains(p3, Signal::Saved(b));
    }
}

/// Rolling back one plainly applied command restores the record: undoing
/// the fresh entry and splicing the kept suffix back yields the starting
/// log, cursor and receiver.
pub proof fn lemma_unwind_apply<R, C: CommandLaws<R>>(
    m: RecordModel<R, C>,
    e: Entry<C>,
    d: VecDeque<Entry<C>>,
)
    requires
        m.inv(),
        plain_step(m, e),
        d@ == m.log.skip(m.current),
    ensures
        ({
            let back = unwind_one(m.apply_step(e).0, Action::<C>::Apply(d));
            &&& back.log == m.log
            &&& back.current == m.current
            &&& back.receiver == m.receiver
            &&& back.limit == m.limit
        }),
{
    lemma_plain_apply_then_undo(m, e);
    let a = m.apply_step(e).0;
    let u = a.undo_step().0;
    let back = unwind_one(a, Action::<C>::Apply(d));
    assert(back.log =~= m.log.take(m.current) + m.log.skip(m.current));
    assert(m.log.take(m.current) + m.log.skip(m.current) =~= m.log);
}

/// Rolling back one successful undo restores the cursor and the
/// receiver: the redo that a cancel replays lands exactly where the undo
/// started.
pub proof fn lemma_unwind_undo<R, C: CommandLaws<R>>(m: RecordModel<R, C>, pre: R)
    requires
        m.inv(),
        m.current > 0,
        m.log[m.current - 1].command.undoable(pre, m.receiver),
        pre == m.log[m.current - 1].command.after_undo(m.receiver).1,
    ensures
        ({
            let back = unwind_one(m.undo_step().0, Action::<C>::Undo);
            &&& back.current == m.current
            &&& back.receiver == m.receiver
            &&& back.log.len() == m.log.len()
        }),
{
    let c = m.log[m.current - 1].command;
    c.law_undo(pre, m.receiver);
    let u = m.undo_step().0;
    let c2 = c.after_undo(m.receiver).0;
    c2.law_redo(pre, m.receiver);
}

/// Rolling back one successful redo restores the cursor and the
/// receiver: the undo that a cancel replays lands exactly where the redo
/// started.
pub proof fn lemma_unwind_redo<R, C: CommandLaws<R>>(m: RecordModel<R, C>, post: R)
    requires
        m.inv(),
        m.current < m.log.len(),
        m.log[m.current].command.redoable(m.receiver, post),
        post == m.log[m.current].command.after_redo(m.receiver).1,
    ensures
        ({
            let back = unwind_one(m.redo_step().0, Action::<C>::Redo);
            &&& back.current == m.current
            &&& back.receiver == m.receiver
            &&& back.log.len() == m.log.len()
        }),
{
    let c = m.log[m.current].command;
    c.law_redo(m.receiver, post);
    let r = m.redo_step().0;
    let c2 = c.after_redo(m.receiver).0;
    c2.law_undo(m.receiver, post);
}

/// The record's poise: a chain of receiver states, one per log
/// boundary, that every entry stands between — applied entries poised
/// toward undoing their step, redoable entries toward redoing theirs —
/// with the receiver at the cursor's boundary.
pub open spec fn poised<R, C: Command<R>>(m: RecordModel<R, C>, st: Seq<R>) -> bool {
    &&& st.len() == m.log.len() + 1
    &&& 0 <= m.current <= m.log.len()
    &&& m.receiver == st[m.current]
    &&& forall|i: int|
        0 <= i < m.current ==> (#[trigger] m.log[i]).command.undoable(st[i], st[i + 1])
    &&& forall|i: int|
        m.current <= i < m.log.len() ==> (#[trigger] m.log[i]).command.redoable(
            st[i],
            st[i + 1],
        )
}

/// An undo step keeps the poise chain: the undone entry becomes
/// redo-poised over the same boundary, and the receiver steps back one
/// boundary.
pub proof fn lemma_poised_undo<R, C: CommandLaws<R>>(m: RecordModel<R, C>, st: Seq<R>)
    requires
        poised(m, st),
        m.current > 0,
    ensures
        ({
            let u = m.undo_step().0;
            &&& poised(u, st)
            &&& u.current == m.current - 1
            &&& u.receiver == st[m.current - 1]
            &&& u.log.len() == m.log.len()
        }),
{
    let i = m.current - 1;
    let c = m.log[i].command;
    c.law_undo(st[i], st[i + 1]);
    let u = m.undo_step().0;
    assert forall|j: int| 0 <= j < u.current implies (#[trigger] u.log[j]).command.undoable(
        st[j],
        st[j + 1],
    ) by {
        assert(u.log[j] == m.log[j]);
    }
    assert forall|j: int| u.current <= j < u.log.len() implies (
    #[trigger] u.log[j]).command.redoable(st[j], st[j + 1]) by {
        if j != i {
            assert(u.log[j] == m.log[j]);
        }
    }
}

/// A redo step keeps the poise chain: the redone entry becomes
/// undo-poised over the same boundary, and the receiver steps forward
/// one boundary.
pub proof fn lemma_poised_redo<R, C: CommandLaws<R>>(m: RecordModel<R, C>, st: Seq<R>)
    requires
        poised(m, st),
        m.current < m.log.len(),
    ensures
        ({
            let r = m.redo_step().0;
            &&& poised(r, st)
            &&& r.current == m.current + 1
            &&& r.receiver == st[m.current + 1]
            &&& r.log.len() == m.log.len()
        }),
{
    let i = m.current;
    let c = m.log[i].command;
    c.law_redo(st[i], st[i + 1]);
    let r = m.redo_step().0;
    assert forall|j: int| 0 <= j < r.current implies (#[trigger] r.log[j]).command.undoable(
        st[j],
        st[j + 1],
    ) by {
        if j != i {
            assert(r.log[j] == m.log[j]);
        }
    }
    assert forall|j: int| r.current <= j < r.log.len() implies (
    #[trigger] r.log[j]).command.redoable(st[j], st[j + 1]) by {
        assert(r.log[j] == m.log[j]);
    }
}

/// A whole walk keeps the poise chain and lands the receiver on the
/// target's boundary.
pub proof fn lemma_poised_goto<R, C: CommandLaws<R>>(m: RecordModel<R, C>, st: Seq<R>, t: int)
    requires
        poised(m, st),
        0 <= t <= m.log.len(),
    ensures
        ({
            let w = m.goto_walk(t);
            &&& poised(w, st)
            &&& w.current == t
            &&& w.receiver == st[t]
            &&& w.log.len() == m.log.len()
        }),
    decreases (if t <= m.current {
        m.current - t
    } else {
        t - m.current
    }),
{
    if t < m.current {
        lemma_poised_undo(m, st);
        lemma_poised_goto(m.undo_step().0, st, t);
    } else if t > m.current {
        lemma_poised_redo(m, st);
        lemma_poised_goto(m.redo_step().0, st, t);
    }
}

/// A plain apply keeps the poise: the kept prefix stays poised over the
/// old boundaries, and the fresh entry is poised over the step it made.
pub proof fn lemma_poised_plain_apply<R, C: CommandLaws<R>>(
    m: RecordModel<R, C>,
    st: Seq<R>,
    e: Entry<C>,
)
    requires
        poised(m, st),
        plain_step(m, e),
    ensures
        ({
            let a = m.apply_step(e).0;
            let st2 = st.take(m.current + 1).push(a.receiver);
            &&& poised(a, st2)
            &&& a.current == m.current + 1
            &&& a.log.len() == m.current + 1
            &&& st2.len() == a.log.len() + 1
            &&& forall|j: int| 0 <= j <= m.current ==> #[trigger] st2[j] == st[j]
        }),
{
    let (c2, r2) = e.command.after_apply(m.receiver);
    e.command.law_apply(m.receiver);
    let a = m.apply_step(e).0;
    if m.current > 0 && !m.is_saved() {
        m.log[m.current - 1].command.law_merge_no(c2);
    }
    let st2 = st.take(m.current + 1).push(a.receiver);
    assert(a.log.last().command == c2);
    assert(a.receiver == r2);
    assert forall|j: int| 0 <= j < a.current implies (#[trigger] a.log[j]).command.undoable(
        st2[j],
        st2[j + 1],
    ) by {
        if j < m.current {
            assert(a.log[j] == m.log.take(m.current)[j]);
            assert(a.log[j] == m.log[j]);
            assert(st2[j] == st[j] && st2[j + 1] == st[j + 1]);
        } else {
            assert(st2[j] == st[m.current] && st2[j + 1] == r2);
        }
    }
}

/// One more action at the bottom of the stack is replayed last.
pub proof fn lemma_unwind_all_cons<R, C: Command<R>>(
    m: RecordModel<R, C>,
    a: Action<C>,
    acts: Seq<Action<C>>,
)
    ensures
        unwind_all(m, seq![a] + acts) == unwind_one(unwind_all(m, acts), a),
    decreases acts.len(),
{
    let s = seq![a] + acts;
    assert(s.len() == acts.len() + 1);
    if acts.len() == 0 {
        assert(s.last() == a);
        assert(s.drop_last() =~= Seq::<Action<C>>::empty());
        assert(unwind_all(m, s) == unwind_all(unwind_one(m, a), s.drop_last()));
        assert(unwind_all(unwind_one(m, a), s.drop_last()) == unwind_one(m, a));
        assert(unwind_all(m, acts) == m);
    } else {
        assert(s.last() == acts.last());
        assert(s.drop_last() =~= seq![a] + acts.drop_last());
        assert(unwind_all(m, s) == unwind_all(unwind_one(m, s.last()), s.drop_last()));
        assert(unwind_all(m, acts) == unwind_all(unwind_one(m, acts.last()), acts.drop_last()));
        lemma_unwind_all_cons(unwind_one(m, acts.last()), a, acts.drop_last());
    }
}

/// One call forwarded through a checkpoint over a record, with the
/// creation time its entry received if it was an apply.
pub ghost enum CpCall<C> {
    /// An apply of the held command, stamped with the held time.
    Apply(C, i64),
    /// An undo step.
    Undo,
    /// A redo step.
    Redo,
    /// A walk to the held cursor.
    GoTo(int),
}

/// The state one forwarded call leaves.
pub open spec fn call_step<R, C: Command<R>>(
    m: RecordModel<R, C>,
    call: CpCall<C>,
) -> RecordModel<R, C> {
    match call {
        CpCall::Apply(c, ts) => m.apply_step(Entry { command: c, timestamp: ts }).0,
        CpCall::Undo => m.undo_step().0,
        CpCall::Redo => m.redo_step().0,
        CpCall::GoTo(t) => m.goto_walk(t),
    }
}

/// The state a whole session of forwarded calls leaves.
pub open spec fn session_end<R, C: Command<R>>(
    m: RecordModel<R, C>,
    calls: Seq<CpCall<C>>,
) -> RecordModel<R, C>
    decreases calls.len(),
{
    if calls.len() == 0 {
        m
    } else {
        session_end(call_step(m, calls[0]), calls.skip(1))
    }
}

/// A session of successful forwarded calls whose compensating actions
/// were recorded as a checkpoint records them: every call is available
/// where it runs, every apply pushes plainly, and each action holds
/// what the checkpoint keeps for it — the truncated suffix of an apply,
/// the starting cursor of a walk.
pub open spec fn session_ok<R, C: Command<R>>(
    m: RecordModel<R, C>,
    calls: Seq<CpCall<C>>,
    actions: Seq<Action<C>>,
) -> bool
    decreases calls.len(),
{
    &&& calls.len() == actions.len()
    &&& (calls.len() == 0 || {
        let fits = match calls[0] {
            CpCall::Apply(c, ts) => plain_step(m, Entry { command: c, timestamp: ts }) && (
            actions[0] matches Action::Apply(d) && d@ == m.log.skip(m.current)),
            CpCall::Undo => m.current > 0 && actions[0] is Undo,
            CpCall::Redo => m.current < m.log.len() && actions[0] is Redo,
            CpCall::GoTo(t) => 0 <= t <= m.log.len() && (actions[0] matches Action::GoTo(
                b,
                cpre,
            ) && cpre == m.current),
        };
        fits && session_ok(call_step(m, calls[0]), calls.skip(1), actions.skip(1))
    })
}

/// Cancelling after any number of successful mixed apply, undo, redo
/// and walk calls restores the receiver and the cursor to their values
/// from before the checkpoint was opened, provided every inverse step
/// succeeds — which the poise chain guarantees for law-abiding
/// commands. Applies that merge, annul or evict are excluded: their
/// single compensating undo rolls back more than one step.
pub proof fn lemma_cancel_restores<R, C: CommandLaws<R>>(
    m: RecordModel<R, C>,
    st: Seq<R>,
    calls: Seq<CpCall<C>>,
    actions: Seq<Action<C>>,
)
    requires
        poised(m, st),
        session_ok(m, calls, actions),
    ensures
        ({
            let back = unwind_all(session_end(m, calls), actions);
            &&& back.current == m.current
            &&& back.receiver == m.receiver
            &&& back.log.len() == m.log.len()
            &&& poised(back, st)
        }),
    decreases calls.len(),
{
    if calls.len() > 0 {
        let m1 = call_step(m, calls[0]);
        let end = session_end(m, calls);
        assert(end == session_end(m1, calls.skip(1)));
        lemma_unwind_all_cons(end, actions[0], actions.skip(1));
        assert(seq![actions[0]] + actions.skip(1) =~= actions);
        let back0 = unwind_all(end, actions.skip(1));
        match calls[0] {
            CpCall::Apply(c, ts) => {
                let e = Entry { command: c, timestamp: ts };
                lemma_poised_plain_apply(m, st, e);
                let st2 = st.take(m.current + 1).push(m.apply_step(e).0.receiver);
                lemma_cancel_restores(m1, st2, calls.skip(1), actions.skip(1));
                lemma_poised_undo(back0, st2);
                let u = back0.undo_step().0;
                let back = unwind_one(back0, actions[0]);
                assert(u.receiver == st2[m.current] && st2[m.current] == st[m.current]);
                assert(back.receiver == m.receiver && back.current == m.current);
                let d = choose|d: VecDeque<Entry<C>>| actions[0] == Action::<C>::Apply(d);
                assert(back.log == u.log.take(u.current) + d@);
                assert(back.log.len() == m.log.len());
                assert forall|j: int| 0 <= j < back.current implies (
                #[trigger] back.log[j]).command.undoable(st[j], st[j + 1]) by {
                    assert(back.log[j] == u.log.take(u.current)[j]);
                    assert(back.log[j] == u.log[j]);
                    assert(st2[j] == st[j] && st2[j + 1] == st[j + 1]);
                }
                assert forall|j: int| back.current <= j < back.log.len() implies (
                #[trigger] back.log[j]).command.redoable(st[j], st[j + 1]) by {
                    assert(back.log[j] == d@[j - m.current]);
                    assert(d@[j - m.current] == m.log[j]);
                }
            },
            CpCall::Undo => {
                lemma_poised_undo(m, st);
                lemma_cancel_restores(m1, st, calls.skip(1), actions.skip(1));
                lemma_poised_redo(back0, st);
            },
            CpCall::Redo => {
                lemma_poised_redo(m, st);
                lemma_cancel_restores(m1, st, calls.skip(1), actions.skip(1));
                lemma_poised_undo(back0, st);
            },
            CpCall::GoTo(t) => {
                lemma_poised_goto(m, st, t);
                lemma_cancel_restores(m1, st, calls.skip(1), actions.skip(1));
                lemma_poised_goto(back0, st, m.current);
            },
        }
    }
}

/// Walking to the cursor the record already stands at changes nothing
/// and emits nothing: a second `go_to` to the same target is a no-op.
pub proof fn lemma_goto_idempotent<R, C: Command<R>>(m: RecordModel<R, C>, target: int)
    requires
        m.inv(),
        0 <= target <= m.log.len(),
    ensures
        m.goto_walk(target).goto_walk(target) == m.goto_walk(target),
        m.goto_walk(target).goto_signals(target) =~= Seq::<Signal>::empty(),
{
    lemma_goto_walk(m, target);
}

} // verus!
