//! Abstract model of a document's undo/redo history over texts, and the laws
//! that undo and redo obey.
use vstd::prelude::*;

verus! {

/// The texts that matter to undo and redo: the live text, the undo stack
/// (oldest first), the redo stack (oldest first) and the undo bound.
pub struct HistoryModel {
    pub text: Seq<char>,
    pub undo: Seq<Seq<char>>,
    pub redo: Seq<Seq<char>>,
    pub max: nat,
}

/// `st` with `x` pushed on its new end, the oldest entry dropped while it
/// holds more than `max`.
pub open spec fn bounded_push<T>(st: Seq<T>, x: T, max: nat) -> Seq<T> {
    let p = st.push(x);
    if p.len() > max {
        p.skip(p.len() - max)
    } else {
        p
    }
}

/// An edit that leaves `t`, after a boundary snapshot of the live text.
pub open spec fn edit_model(h: HistoryModel, t: Seq<char>) -> HistoryModel {
    HistoryModel { text: t, undo: bounded_push(h.undo, h.text, h.max), redo: Seq::empty(), max: h.max }
}

/// Undo: the newest undo entry becomes the live text, which goes onto redo.
pub open spec fn undo_model(h: HistoryModel) -> HistoryModel {
    if h.undo.len() == 0 {
        h
    } else {
        HistoryModel {
            text: h.undo.last(),
            undo: h.undo.drop_last(),
            redo: h.redo.push(h.text),
            max: h.max,
        }
    }
}

/// Redo: the newest redo entry becomes the live text, which goes onto undo.
pub open spec fn redo_model(h: HistoryModel) -> HistoryModel {
    if h.redo.len() == 0 {
        h
    } else {
        HistoryModel {
            text: h.redo.last(),
            undo: bounded_push(h.undo, h.text, h.max),
            redo: h.redo.drop_last(),
            max: h.max,
        }
    }
}

/// The edits leaving the texts `ts`, in order.
pub open spec fn edits_model(h: HistoryModel, ts: Seq<Seq<char>>) -> HistoryModel
    decreases ts.len(),
{
    if ts.len() == 0 {
        h
    } else {
        edit_model(edits_model(h, ts.drop_last()), ts.last())
    }
}

/// `n` undos in a row.
pub open spec fn undo_n(h: HistoryModel, n: nat) -> HistoryModel
    decreases n,
{
    if n == 0 {
        h
    } else {
        undo_n(undo_model(h), (n - 1) as nat)
    }
}

/// `n` redos in a row.
pub open spec fn redo_n(h: HistoryModel, n: nat) -> HistoryModel
    decreases n,
{
    if n == 0 {
        h
    } else {
        redo_model(redo_n(h, (n - 1) as nat))
    }
}

/// The undo stack never holds more than its bound once it starts within it.
pub proof fn lemma_bounded_push_len<T>(st: Seq<T>, x: T, max: nat)
    requires
        max >= 1,
    ensures
        bounded_push(st, x, max).len() <= max,
        st.len() < max ==> bounded_push(st, x, max) == st.push(x),
        bounded_push(st, x, max).len() > 0,
        bounded_push(st, x, max).last() == x,
{
}

/// The newest `max` entries of `s` (all of them when there are fewer).
pub open spec fn keep_last<T>(s: Seq<T>, max: nat) -> Seq<T> {
    if s.len() > max {
        s.skip(s.len() - max)
    } else {
        s
    }
}

/// `xs` pushed in order onto `st` with the bound `max`.
pub open spec fn pushes<T>(st: Seq<T>, xs: Seq<T>, max: nat) -> Seq<T>
    decreases xs.len(),
{
    if xs.len() == 0 {
        st
    } else {
        bounded_push(pushes(st, xs.drop_last(), max), xs.last(), max)
    }
}

/// However many entries are pushed, the stack holds at most `max` of them:
/// the newest ones, the oldest having been evicted first.
pub proof fn lemma_pushes_keep_newest<T>(st: Seq<T>, xs: Seq<T>, max: nat)
    requires
        max >= 1,
        st.len() <= max,
    ensures
        pushes(st, xs, max) == keep_last(st + xs, max),
        pushes(st, xs, max).len() <= max,
    decreases xs.len(),
{
    if xs.len() == 0 {
        assert(st + xs =~= st);
    } else {
        let prev = xs.drop_last();
        let x = xs.last();
        lemma_pushes_keep_newest(st, prev, max);
        let a = st + prev;
        assert(st + xs =~= a.push(x));
        if a.len() > max {
            let k = a.skip(a.len() - max);
            assert(k.push(x).skip(1) =~= a.push(x).skip(a.len() + 1 - max));
        }
    }
}

/// Redo right after an undo restores the whole history, as long as the undo
/// stack is within its bound.
pub proof fn lemma_redo_undo(h: HistoryModel)
    requires
        h.undo.len() > 0,
        h.undo.len() <= h.max,
    ensures
        redo_model(undo_model(h)) == h,
{
    let u = undo_model(h);
    assert(u.redo.drop_last() =~= h.redo);
    assert(u.undo.push(u.text) =~= h.undo);
    assert(redo_model(u).undo =~= h.undo);
}

/// Undo `n` times, then redo `n` times: the history is as before.
pub proof fn lemma_redo_n_undo_n(h: HistoryModel, n: nat)
    requires
        n <= h.undo.len() <= h.max,
    ensures
        redo_n(undo_n(h, n), n) == h,
    decreases n,
{
    if n > 0 {
        let u = undo_model(h);
        lemma_redo_n_undo_n(u, (n - 1) as nat);
        lemma_redo_undo(h);
    }
}

/// Undo does the same to two histories that differ in their redo stacks only.
pub proof fn lemma_undo_n_ignores_redo(a: HistoryModel, b: HistoryModel, n: nat)
    requires
        a.text == b.text,
        a.undo == b.undo,
        a.max == b.max,
    ensures
        undo_n(a, n).text == undo_n(b, n).text,
        undo_n(a, n).undo == undo_n(b, n).undo,
    decreases n,
{
    if n > 0 {
        lemma_undo_n_ignores_redo(undo_model(a), undo_model(b), (n - 1) as nat);
    }
}

/// Edits within the bound stack the texts they replace.
pub proof fn lemma_edits_undo_len(h: HistoryModel, ts: Seq<Seq<char>>)
    requires
        h.undo.len() + ts.len() <= h.max,
    ensures
        edits_model(h, ts).undo.len() == h.undo.len() + ts.len(),
        edits_model(h, ts).max == h.max,
        ts.len() > 0 ==> edits_model(h, ts).text == ts.last(),
        ts.len() == 0 ==> edits_model(h, ts).text == h.text,
    decreases ts.len(),
{
    if ts.len() > 0 {
        lemma_edits_undo_len(h, ts.drop_last());
    }
}

/// Undoing `n` edits brings back the text (and undo stack) from before them.
pub proof fn lemma_undo_edits(h: HistoryModel, ts: Seq<Seq<char>>)
    requires
        h.undo.len() + ts.len() <= h.max,
    ensures
        undo_n(edits_model(h, ts), ts.len()).text == h.text,
        undo_n(edits_model(h, ts), ts.len()).undo == h.undo,
    decreases ts.len(),
{
    if ts.len() > 0 {
        let prev = edits_model(h, ts.drop_last());
        lemma_edits_undo_len(h, ts.drop_last());
        lemma_undo_edits(h, ts.drop_last());
        let e = edits_model(h, ts);
        assert(e.undo =~= prev.undo.push(prev.text));
        let u = undo_model(e);
        assert(u.undo =~= prev.undo);
        lemma_undo_n_ignores_redo(u, prev, (ts.len() - 1) as nat);
    }
}

/// Undo and redo are inverse: after `n` edits (each behind a snapshot) and
/// then `n` undos, the text is the one from before the edits; `n` redos after
/// that give back the text after the edits. This holds while the undo stack
/// has room for all `n` snapshots (none of them evicted).
pub proof fn lemma_undo_redo_inverse(h: HistoryModel, ts: Seq<Seq<char>>)
    requires
        h.undo.len() + ts.len() <= h.max,
    ensures
        undo_n(edits_model(h, ts), ts.len()).text == h.text,
        redo_n(undo_n(edits_model(h, ts), ts.len()), ts.len()).text == edits_model(h, ts).text,
{
    lemma_undo_edits(h, ts);
    lemma_edits_undo_len(h, ts);
    lemma_redo_n_undo_n(edits_model(h, ts), ts.len());
}

} // verus!
