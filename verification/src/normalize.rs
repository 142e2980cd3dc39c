//! Whitespace normalization: collapses runs of three or more consecutive
//! newlines down to exactly two, leaving shorter runs and all other
//! characters untouched.

use vstd::prelude::*;

verus! {

/// Result of running the collapse state machine over `s`, starting with
/// `run` newlines already seen immediately before `s`. A newline is kept
/// while the run length is at most two; beyond that it is dropped. Any
/// other character resets the run and is always kept.
pub open spec fn norm_from(s: Seq<char>, run: int) -> Seq<char>
    decreases s.len(),
{
    if s.len() == 0 {
        Seq::empty()
    } else if s.first() == '\n' {
        if run < 2 {
            seq!['\n'] + norm_from(s.drop_first(), run + 1)
        } else {
            norm_from(s.drop_first(), run + 1)
        }
    } else {
        seq![s.first()] + norm_from(s.drop_first(), 0)
    }
}

/// What `clean_markdown` returns: the collapse state machine run from a
/// clean start.
pub open spec fn spec_normalize(s: Seq<char>) -> Seq<char> {
    norm_from(s, 0)
}

/// The state machine started with `run` prior newlines keeps every
/// character of `s`.
pub open spec fn emits_all(s: Seq<char>, run: int) -> bool
    decreases s.len(),
{
    if s.len() == 0 {
        true
    } else if s.first() == '\n' {
        run < 2 && emits_all(s.drop_first(), run + 1)
    } else {
        emits_all(s.drop_first(), 0)
    }
}

/// No three consecutive newlines anywhere in `s`.
pub open spec fn has_no_long_run(s: Seq<char>) -> bool {
    forall|i: int|
        0 <= i && i + 2 < s.len() ==> !(#[trigger] s[i] == '\n' && s[i + 1] == '\n' && s[i + 2]
            == '\n')
}

/// Length of the run of newlines at the start of `s`.
pub open spec fn lead_newlines(s: Seq<char>) -> int
    decreases s.len(),
{
    if s.len() == 0 || s.first() != '\n' {
        0
    } else {
        1 + lead_newlines(s.drop_first())
    }
}

/// The characters of `s` other than newlines, in order.
pub open spec fn non_newline_content(s: Seq<char>) -> Seq<char>
    decreases s.len(),
{
    if s.len() == 0 {
        Seq::empty()
    } else if s.first() == '\n' {
        non_newline_content(s.drop_first())
    } else {
        seq![s.first()] + non_newline_content(s.drop_first())
    }
}

proof fn lemma_lead_newlines_nonneg(s: Seq<char>)
    ensures
        lead_newlines(s) >= 0,
    decreases s.len(),
{
    if s.len() > 0 && s.first() == '\n' {
        lemma_lead_newlines_nonneg(s.drop_first());
    }
}

/// A leading run of three or more newlines is the same thing as the first
/// three characters all being newlines.
proof fn lemma_lead_newlines_three(s: Seq<char>)
    ensures
        lead_newlines(s) >= 3 <==> (s.len() >= 3 && s[0] == '\n' && s[1] == '\n' && s[2] == '\n'),
{
    if s.len() >= 1 {
        let t = s.drop_first();
        assert(t.len() == s.len() - 1);
        if t.len() >= 1 {
            let u = t.drop_first();
            assert(u.len() == t.len() - 1);
            assert(t[0] == s[1]);
            if u.len() >= 1 {
                assert(u[0] == t[1] && t[1] == s[2]);
            }
            if s.len() >= 3 && s[0] == '\n' && s[1] == '\n' && s[2] == '\n' {
                lemma_lead_newlines_nonneg(u.drop_first());
                assert(lead_newlines(u) == 1 + lead_newlines(u.drop_first()));
                assert(lead_newlines(t) == 1 + lead_newlines(u));
                assert(lead_newlines(s) == 1 + lead_newlines(t));
            }
            if lead_newlines(s) >= 3 {
                assert(s.first() == '\n');
                assert(lead_newlines(t) >= 2);
                assert(t.first() == '\n');
                assert(lead_newlines(u) >= 1);
                assert(u.len() >= 1 && u.first() == '\n');
            }
        } else {
            if lead_newlines(s) >= 3 {
                assert(lead_newlines(t) >= 2);
            }
        }
    }
}

proof fn lemma_no_long_run_bounds_lead(s: Seq<char>)
    requires
        has_no_long_run(s),
    ensures
        lead_newlines(s) <= 2,
{
    if s.len() >= 3 && s.first() == '\n' && s[1] == '\n' && s[2] == '\n' {
        assert(false);
    } else if lead_newlines(s) > 2 {
        assert(s.len() >= 1 && s.first() == '\n');
        assert(lead_newlines(s.drop_first()) > 1);
        assert(s.drop_first().len() >= 1 && s.drop_first().first() == '\n');
        assert(s[1] == '\n');
        assert(lead_newlines(s.drop_first().drop_first()) > 0);
        assert(s.drop_first().drop_first().first() == '\n');
        assert(s[2] == '\n');
    }
}

proof fn lemma_no_long_run_drop(s: Seq<char>)
    requires
        s.len() >= 1,
    ensures
        has_no_long_run(s) ==> has_no_long_run(s.drop_first()),
        has_no_long_run(s.drop_first()) && !(lead_newlines(s) >= 3) ==> has_no_long_run(s),
{
    let t = s.drop_first();
    if has_no_long_run(s) {
        assert forall|i: int|
            0 <= i && i + 2 < t.len() implies !(#[trigger] t[i] == '\n' && t[i + 1] == '\n'
            && t[i + 2] == '\n') by {
            assert(t[i] == s[i + 1] && t[i + 1] == s[i + 2] && t[i + 2] == s[i + 3]);
        }
    }
    if has_no_long_run(t) && !(lead_newlines(s) >= 3) {
        assert forall|i: int|
            0 <= i && i + 2 < s.len() implies !(#[trigger] s[i] == '\n' && s[i + 1] == '\n'
            && s[i + 2] == '\n') by {
            if i >= 1 {
                assert(s[i] == t[i - 1] && s[i + 1] == t[i] && s[i + 2] == t[i + 1]);
            } else {
                if s[0] == '\n' && s[1] == '\n' && s[2] == '\n' {
                    lemma_lead_newlines_three(s);
                }
            }
        }
    }
}

/// `emits_all` from state `run` holds exactly when `s` has no long run and
/// its leading newlines fit in the remaining budget.
proof fn lemma_emits_all_characterized(s: Seq<char>, run: int)
    requires
        0 <= run <= 2,
    ensures
        emits_all(s, run) <==> (has_no_long_run(s) && lead_newlines(s) + run <= 2),
    decreases s.len(),
{
    if s.len() == 0 {
    } else {
        let t = s.drop_first();
        lemma_no_long_run_drop(s);
        if s.first() == '\n' {
            if run < 2 {
                lemma_emits_all_characterized(t, run + 1);
                if has_no_long_run(t) {
                    lemma_no_long_run_bounds_lead(t);
                }
                lemma_lead_newlines_three(s);
                lemma_lead_newlines_nonneg(t);
            } else {
                assert(!emits_all(s, run));
                lemma_lead_newlines_nonneg(t);
                assert(lead_newlines(s) >= 1);
            }
        } else {
            lemma_emits_all_characterized(t, 0);
            if has_no_long_run(t) {
                lemma_no_long_run_bounds_lead(t);
            }
            assert(lead_newlines(s) == 0);
            assert(has_no_long_run(s) <==> has_no_long_run(t));
        }
    }
}

/// If the machine keeps every character of `s`, it returns `s` unchanged.
proof fn lemma_emits_all_identity(s: Seq<char>, run: int)
    requires
        emits_all(s, run),
    ensures
        norm_from(s, run) == s,
    decreases s.len(),
{
    if s.len() == 0 {
        assert(norm_from(s, run) =~= s);
    } else if s.first() == '\n' {
        lemma_emits_all_identity(s.drop_first(), run + 1);
        assert(norm_from(s, run) =~= s);
    } else {
        lemma_emits_all_identity(s.drop_first(), 0);
        assert(norm_from(s, run) =~= s);
    }
}

spec fn clamp2(run: int) -> int {
    if run < 2 {
        run
    } else {
        2
    }
}

/// The machine's output is itself fully kept by a second pass.
proof fn lemma_norm_from_emits_all(s: Seq<char>, run: int)
    requires
        0 <= run,
    ensures
        emits_all(norm_from(s, run), clamp2(run)),
    decreases s.len(),
{
    if s.len() == 0 {
    } else if s.first() == '\n' {
        lemma_norm_from_emits_all(s.drop_first(), run + 1);
        if run < 2 {
            let rest = norm_from(s.drop_first(), run + 1);
            let out = seq!['\n'] + rest;
            assert(out.first() == '\n');
            assert(out.drop_first() =~= rest);
        }
    } else {
        lemma_norm_from_emits_all(s.drop_first(), 0);
        let rest = norm_from(s.drop_first(), 0);
        let out = seq![s.first()] + rest;
        assert(out.first() == s.first());
        assert(out.drop_first() =~= rest);
    }
}

/// Normalization is idempotent: a second pass changes nothing.
pub proof fn lemma_normalize_idempotent(s: Seq<char>)
    ensures
        spec_normalize(spec_normalize(s)) == spec_normalize(s),
{
    lemma_norm_from_emits_all(s, 0);
    lemma_emits_all_identity(spec_normalize(s), 0);
}

/// Collapse law, first half: normalized text never holds a run of three
/// or more consecutive newlines.
pub proof fn lemma_normalize_no_long_run(s: Seq<char>)
    ensures
        has_no_long_run(spec_normalize(s)),
{
    lemma_norm_from_emits_all(s, 0);
    lemma_emits_all_characterized(spec_normalize(s), 0);
}

/// Collapse law, second half: every character other than a newline is
/// preserved, in order and verbatim.
pub proof fn lemma_normalize_keeps_content(s: Seq<char>)
    ensures
        non_newline_content(spec_normalize(s)) == non_newline_content(s),
{
    lemma_norm_from_keeps_content(s, 0);
}

proof fn lemma_norm_from_keeps_content(s: Seq<char>, run: int)
    ensures
        non_newline_content(norm_from(s, run)) == non_newline_content(s),
    decreases s.len(),
{
    if s.len() == 0 {
    } else if s.first() == '\n' {
        lemma_norm_from_keeps_content(s.drop_first(), run + 1);
        if run < 2 {
            let rest = norm_from(s.drop_first(), run + 1);
            let out = seq!['\n'] + rest;
            assert(out.first() == '\n');
            assert(out.drop_first() =~= rest);
        }
    } else {
        lemma_norm_from_keeps_content(s.drop_first(), 0);
        let rest = norm_from(s.drop_first(), 0);
        let out = seq![s.first()] + rest;
        assert(out.first() == s.first());
        assert(out.drop_first() =~= rest);
        assert(non_newline_content(out) =~= non_newline_content(s));
    }
}

/// Preservation: text with no run of three or more newlines comes back
/// unchanged; in particular runs of exactly one or two newlines are kept.
pub proof fn lemma_normalize_preserves_short_runs(s: Seq<char>)
    requires
        has_no_long_run(s),
    ensures
        spec_normalize(s) == s,
{
    lemma_no_long_run_bounds_lead(s);
    lemma_emits_all_characterized(s, 0);
    lemma_emits_all_identity(s, 0);
}

/// States equal to or past the collapse threshold behave alike.
proof fn lemma_norm_from_saturates(s: Seq<char>, r1: int, r2: int)
    requires
        r1 >= 2,
        r2 >= 2,
    ensures
        norm_from(s, r1) == norm_from(s, r2),
    decreases s.len(),
{
    if s.len() == 0 {
    } else if s.first() == '\n' {
        lemma_norm_from_saturates(s.drop_first(), r1 + 1, r2 + 1);
    } else {
    }
}

/// Collapses every run of three or more consecutive newlines down to
/// exactly two, and leaves everything else exactly as it was.
pub fn clean_markdown(markdown: &str) -> (r: String)
    ensures
        r@ == spec_normalize(markdown@),
{
    let n: usize = markdown.unicode_len();
    let mut out: String = String::new();
    let mut run: usize = 0;
    let mut i: usize = 0;
    proof {
        assert(markdown@.skip(0) =~= markdown@);
        assert(Seq::<char>::empty() + norm_from(markdown@, 0) =~= norm_from(markdown@, 0));
    }
    while i < n
        invariant
            n == markdown@.len(),
            0 <= i <= n,
            0 <= run <= 2,
            spec_normalize(markdown@) == out@ + norm_from(markdown@.skip(i as int), run as int),
        decreases n - i,
    {
        let ghost rest = markdown@.skip(i as int);
        let ghost rest1 = markdown@.skip(i as int + 1);
        proof {
            assert(rest.len() > 0);
            assert(rest.first() == markdown@[i as int]);
            assert(rest.drop_first() =~= rest1);
        }
        let c: char = markdown.get_char(i);
        let piece: &str = markdown.substring_char(i, i + 1);
        proof {
            assert(piece@ =~= seq![markdown@[i as int]]);
        }
        let ghost out0 = out@;
        if c == '\n' {
            if run < 2 {
                out.append(piece);
                run = run + 1;
                proof {
                    assert(norm_from(rest, run as int - 1) == seq!['\n'] + norm_from(
                        rest1,
                        run as int,
                    ));
                    assert(out0 + (piece@ + norm_from(rest1, run as int)) =~= (out0 + piece@)
                        + norm_from(rest1, run as int));
                    assert(piece@ =~= seq!['\n']);
                }
            } else {
                proof {
                    lemma_norm_from_saturates(rest1, run as int + 1, run as int);
                }
            }
        } else {
            out.append(piece);
            run = 0;
            proof {
                assert(norm_from(rest, 0) == norm_from(rest, 0));
                assert(out0 + (piece@ + norm_from(rest1, 0)) =~= (out0 + piece@) + norm_from(
                    rest1,
                    0,
                ));
            }
        }
        i = i + 1;
    }
    proof {
        assert(markdown@.skip(n as int) =~= Seq::<char>::empty());
        assert(out@ + Seq::<char>::empty() =~= out@);
    }
    out
}

} // verus!
