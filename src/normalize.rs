//! Whitespace policy for text outside preformatted blocks: every maximal
//! run of whitespace becomes one space, with no trimming.

use vstd::prelude::*;

use crate::text::{chars_of, is_whitespace, is_ws, push_char};

verus! {

/// Collapsing as a scan: `in_run` says whether the text before `s` ended
/// in whitespace that has already been written as a space.
pub open spec fn collapse_from(s: Seq<char>, in_run: bool) -> Seq<char>
    decreases s.len(),
{
    if s.len() == 0 {
        Seq::empty()
    } else if is_ws(s[0]) {
        if in_run {
            collapse_from(s.drop_first(), true)
        } else {
            seq![' '] + collapse_from(s.drop_first(), true)
        }
    } else {
        seq![s[0]] + collapse_from(s.drop_first(), false)
    }
}

/// `s` with every maximal run of whitespace replaced by a single space.
pub open spec fn collapse_ws(s: Seq<char>) -> Seq<char> {
    collapse_from(s, false)
}

/// Whether the scan is inside a run after reading `s` from state `in_run`.
pub open spec fn run_after(s: Seq<char>, in_run: bool) -> bool {
    if s.len() == 0 {
        in_run
    } else {
        is_ws(s.last())
    }
}

/// No two adjacent characters are both whitespace.
pub open spec fn no_adjacent_ws(s: Seq<char>) -> bool {
    forall|i: int| 0 <= i < s.len() - 1 ==> !(is_ws(#[trigger] s[i]) && is_ws(s[i + 1]))
}

/// Every whitespace character is a plain space.
pub open spec fn only_space_ws(s: Seq<char>) -> bool {
    forall|i: int| 0 <= i < s.len() && is_ws(s[i]) ==> s[i] == ' '
}

/// Every character of `s` is whitespace.
pub open spec fn all_ws(s: Seq<char>) -> bool {
    forall|i: int| 0 <= i < s.len() ==> is_ws(s[i])
}

/// Scanning `x + y` is scanning `x`, then `y` from the state `x` left.
pub proof fn lemma_collapse_concat(x: Seq<char>, y: Seq<char>, in_run: bool)
    ensures
        collapse_from(x + y, in_run) == collapse_from(x, in_run) + collapse_from(
            y,
            run_after(x, in_run),
        ),
    decreases x.len(),
{
    if x.len() == 0 {
        assert(x + y =~= y);
        assert(collapse_from(x, in_run) =~= Seq::<char>::empty());
        assert(Seq::<char>::empty() + collapse_from(y, in_run) =~= collapse_from(y, in_run));
    } else {
        let t = x.drop_first();
        assert((x + y).drop_first() =~= t + y);
        assert((x + y)[0] == x[0]);
        let next = is_ws(x[0]);
        lemma_collapse_concat(t, y, next);
        if t.len() == 0 {
            assert(run_after(t, next) == run_after(x, in_run));
        } else {
            assert(t.last() == x.last());
        }
        if is_ws(x[0]) {
            if in_run {
            } else {
                assert(seq![' '] + (collapse_from(t, true) + collapse_from(y, run_after(x, in_run)))
                    =~= (seq![' '] + collapse_from(t, true)) + collapse_from(y, run_after(x, in_run)));
            }
        } else {
            assert(seq![x[0]] + (collapse_from(t, false) + collapse_from(y, run_after(x, in_run)))
                =~= (seq![x[0]] + collapse_from(t, false)) + collapse_from(y, run_after(x, in_run)));
        }
    }
}

proof fn lemma_collapse_shape(s: Seq<char>, in_run: bool)
    ensures
        no_adjacent_ws(collapse_from(s, in_run)),
        only_space_ws(collapse_from(s, in_run)),
        in_run && collapse_from(s, in_run).len() > 0 ==> !is_ws(collapse_from(s, in_run)[0]),
    decreases s.len(),
{
    if s.len() > 0 {
        let t = s.drop_first();
        let next = is_ws(s[0]);
        lemma_collapse_shape(t, next);
        let rest = collapse_from(t, next);
        let r = collapse_from(s, in_run);
        if is_ws(s[0]) && in_run {
        } else {
            let head = if is_ws(s[0]) { ' ' } else { s[0] };
            assert(r =~= seq![head] + rest);
            assert forall|i: int| 0 <= i < r.len() - 1 implies !(is_ws(#[trigger] r[i]) && is_ws(r[i + 1])) by {
                if i > 0 {
                    assert(r[i] == rest[i - 1]);
                    assert(r[i + 1] == rest[i]);
                } else {
                    assert(r[1] == rest[0]);
                }
            }
            assert forall|i: int| 0 <= i < r.len() && is_ws(r[i]) implies r[i] == ' ' by {
                if i > 0 {
                    assert(r[i] == rest[i - 1]);
                }
            }
        }
    }
}

proof fn lemma_collapse_fixed(y: Seq<char>, in_run: bool)
    requires
        no_adjacent_ws(y),
        only_space_ws(y),
        in_run ==> (y.len() == 0 || !is_ws(y[0])),
    ensures
        collapse_from(y, in_run) == y,
    decreases y.len(),
{
    if y.len() > 0 {
        let t = y.drop_first();
        assert forall|i: int| 0 <= i < t.len() - 1 implies !(is_ws(#[trigger] t[i]) && is_ws(t[i + 1])) by {
            assert(t[i] == y[i + 1]);
            assert(t[i + 1] == y[i + 2]);
        }
        assert forall|i: int| 0 <= i < t.len() && is_ws(t[i]) implies t[i] == ' ' by {
            assert(t[i] == y[i + 1]);
        }
        if t.len() > 0 {
            assert(t[0] == y[1]);
        }
        lemma_collapse_fixed(t, is_ws(y[0]));
        assert(y =~= seq![y[0]] + t);
    }
}

/// The result of collapsing never holds two adjacent whitespace
/// characters, and its only whitespace is the plain space.
pub proof fn lemma_no_adjacent_whitespace(t: Seq<char>)
    ensures
        no_adjacent_ws(collapse_ws(t)),
        only_space_ws(collapse_ws(t)),
{
    lemma_collapse_shape(t, false);
}

/// Collapsing is idempotent: a collapsed text is a fixed point.
pub proof fn lemma_collapse_idempotent(t: Seq<char>)
    ensures
        collapse_ws(collapse_ws(t)) == collapse_ws(t),
{
    lemma_collapse_shape(t, false);
    lemma_collapse_fixed(collapse_ws(t), false);
}

/// Replacing any non-empty stretch of whitespace in a text by one space
/// leaves its collapsed form unchanged, and that form is a fixed point.
pub proof fn lemma_run_to_space(a: Seq<char>, run: Seq<char>, b: Seq<char>)
    requires
        run.len() > 0,
        all_ws(run),
    ensures
        collapse_ws(a + seq![' '] + b) == collapse_ws(a + run + b),
        collapse_ws(collapse_ws(a + seq![' '] + b)) == collapse_ws(a + run + b),
{
    let r0 = run_after(a, false);
    lemma_collapse_concat(a + run, b, false);
    lemma_collapse_concat(a, run, false);
    lemma_collapse_concat(a + seq![' '], b, false);
    lemma_collapse_concat(a, seq![' '], false);
    lemma_all_ws_collapse(run, r0);
    lemma_all_ws_collapse(seq![' '], r0);
    assert((a + run).last() == run.last());
    assert((a + seq![' ']).last() == ' ');
    lemma_collapse_idempotent(a + run + b);
}

proof fn lemma_all_ws_collapse(run: Seq<char>, in_run: bool)
    requires
        run.len() > 0,
        all_ws(run),
    ensures
        collapse_from(run, in_run) == (if in_run { Seq::<char>::empty() } else { seq![' '] }),
    decreases run.len(),
{
    let t = run.drop_first();
    assert(is_ws(run[0]));
    if t.len() > 0 {
        assert forall|i: int| 0 <= i < t.len() implies is_ws(t[i]) by {
            assert(t[i] == run[i + 1]);
        }
        lemma_all_ws_collapse(t, true);
    } else {
        assert(collapse_from(t, true) =~= Seq::<char>::empty());
    }
    if !in_run {
        assert(seq![' '] + Seq::<char>::empty() =~= seq![' ']);
    }
}

/// Replaces every maximal run of whitespace in `text` by one space.
pub fn shrink_whitespace(text: &str) -> (r: String)
    ensures
        r@ == collapse_ws(text@),
{
    let cs = chars_of(text);
    let mut out = String::new();
    let mut in_run = false;
    let mut i: usize = 0;
    while i < cs.len()
        invariant
            cs@ == text@,
            i <= cs.len(),
            out@ == collapse_ws(cs@.take(i as int)),
            in_run == run_after(cs@.take(i as int), false),
        decreases cs.len() - i,
    {
        let c = cs[i];
        let ghost prev = out@;
        let ghost was = in_run;
        proof {
            let x = cs@.take(i as int);
            lemma_collapse_concat(x, seq![c], false);
            assert(cs@.take(i + 1) =~= x + seq![c]);
            assert((x + seq![c]).last() == c);
            assert(seq![c].drop_first() =~= Seq::<char>::empty());
            assert(collapse_from(Seq::<char>::empty(), true) =~= Seq::<char>::empty());
            assert(collapse_from(Seq::<char>::empty(), false) =~= Seq::<char>::empty());
        }
        if is_whitespace(c) {
            if !in_run {
                push_char(&mut out, ' ');
            }
            in_run = true;
        } else {
            push_char(&mut out, c);
            in_run = false;
        }
        proof {
            if is_ws(c) && was {
                assert(out@ =~= prev + Seq::<char>::empty());
            } else if is_ws(c) {
                assert(out@ =~= prev + (seq![' '] + Seq::<char>::empty()));
            } else {
                assert(out@ =~= prev + (seq![c] + Seq::<char>::empty()));
            }
        }
        i = i + 1;
    }
    assert(cs@.take(cs.len() as int) =~= text@);
    out
}

} // verus!
