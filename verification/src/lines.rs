//! The strict line-cleanup pass: trim every line, drop the lines that
//! become empty, and rejoin with single newlines. This deliberately loses
//! all blank-line structure, so it is a separate, explicitly selected
//! rendering mode and never a silent default.

use vstd::prelude::*;

verus! {

/// Whitespace that trimming removes at a line's ends.
pub open spec fn is_line_ws(c: char) -> bool {
    c == ' ' || c == '\t' || c == '\r'
}

pub open spec fn trim_start(l: Seq<char>) -> Seq<char>
    decreases l.len(),
{
    if l.len() > 0 && is_line_ws(l.first()) {
        trim_start(l.drop_first())
    } else {
        l
    }
}

pub open spec fn trim_end(l: Seq<char>) -> Seq<char>
    decreases l.len(),
{
    if l.len() > 0 && is_line_ws(l.last()) {
        trim_end(l.drop_last())
    } else {
        l
    }
}

/// A line with leading and trailing whitespace removed.
pub open spec fn spec_trim(l: Seq<char>) -> Seq<char> {
    trim_end(trim_start(l))
}

/// How one finished line joins the output: dropped when empty, preceded
/// by a newline when some line already stands before it.
pub open spec fn emit_line(t: Seq<char>, started: bool) -> Seq<char> {
    if t.len() == 0 {
        Seq::empty()
    } else if started {
        seq!['\n'] + t
    } else {
        t
    }
}

/// The cleanup state machine over the remaining input: `line` holds the
/// unfinished current line, `started` whether a line was already emitted.
pub open spec fn tidy_from(s: Seq<char>, line: Seq<char>, started: bool) -> Seq<char>
    decreases s.len(),
{
    if s.len() == 0 {
        emit_line(spec_trim(line), started)
    } else if s.first() == '\n' {
        let t = spec_trim(line);
        emit_line(t, started) + tidy_from(s.drop_first(), Seq::empty(), started || t.len() > 0)
    } else {
        tidy_from(s.drop_first(), line.push(s.first()), started)
    }
}

/// What `tidy_lines` returns: every line trimmed, empty lines dropped,
/// the rest joined with single newlines.
pub open spec fn spec_tidy_lines(s: Seq<char>) -> Seq<char> {
    tidy_from(s, Seq::empty(), false)
}

fn is_ws_char(c: char) -> (b: bool)
    ensures
        b == is_line_ws(c),
{
    c == ' ' || c == '\t' || c == '\r'
}

/// Appends the trimmed line to `out` as `emit_line` says, returning
/// whether the output now holds at least one line.
fn push_trimmed(line: &String, started: bool, out: &mut String) -> (now_started: bool)
    ensures
        final(out)@ == old(out)@ + emit_line(spec_trim(line@), started),
        now_started == (started || spec_trim(line@).len() > 0),
{
    let l_len: usize = line.unicode_len();
    let l = line.as_str();
    let mut a: usize = 0;
    proof {
        assert(line@.subrange(0, l_len as int) =~= line@);
    }
    while a < l_len && is_ws_char(l.get_char(a))
        invariant
            l_len == line@.len(),
            l@ == line@,
            a <= l_len,
            trim_start(line@) == trim_start(line@.subrange(a as int, l_len as int)),
        decreases l_len - a,
    {
        let ghost seg = line@.subrange(a as int, l_len as int);
        proof {
            assert(seg.first() == line@[a as int]);
            assert(seg.drop_first() =~= line@.subrange(a as int + 1, l_len as int));
        }
        a = a + 1;
    }
    proof {
        if a == l_len {
            assert(line@.subrange(a as int, l_len as int).len() == 0);
        }
        assert(trim_start(line@) == line@.subrange(a as int, l_len as int));
    }
    let mut b: usize = l_len;
    while b > a && is_ws_char(l.get_char(b - 1))
        invariant
            l_len == line@.len(),
            l@ == line@,
            a <= b <= l_len,
            trim_start(line@) == line@.subrange(a as int, l_len as int),
            trim_end(line@.subrange(a as int, l_len as int)) == trim_end(
                line@.subrange(a as int, b as int),
            ),
        decreases b,
    {
        let ghost seg = line@.subrange(a as int, b as int);
        proof {
            assert(seg.last() == line@[b as int - 1]);
            assert(seg.drop_last() =~= line@.subrange(a as int, b as int - 1));
        }
        b = b - 1;
    }
    proof {
        if a == b {
            assert(line@.subrange(a as int, b as int).len() == 0);
        }
        assert(spec_trim(line@) == line@.subrange(a as int, b as int));
    }
    if b > a {
        if started {
            out.append("\n");
            proof {
                reveal_strlit("\n");
                assert("\n"@ =~= seq!['\n']);
            }
        }
        out.append(l.substring_char(a, b));
        proof {
            if started {
                assert(out@ =~= old(out)@ + (seq!['\n'] + spec_trim(line@)));
            }
        }
        true
    } else {
        proof {
            assert(out@ =~= old(out)@ + emit_line(spec_trim(line@), started));
        }
        started
    }
}

/// Trims every line of `text`, drops the lines that become empty, and
/// joins what is left with single newlines. Stricter than blank-line
/// collapsing: paragraph structure is intentionally discarded.
pub fn tidy_lines(text: &str) -> (r: String)
    ensures
        r@ == spec_tidy_lines(text@),
{
    let n: usize = text.unicode_len();
    let mut out = String::new();
    let mut line = String::new();
    let mut started = false;
    let mut i: usize = 0;
    proof {
        assert(text@.skip(0) =~= text@);
        assert(Seq::<char>::empty() + tidy_from(text@, Seq::empty(), false) =~= tidy_from(
            text@,
            Seq::empty(),
            false,
        ));
        assert(line@ =~= Seq::<char>::empty());
    }
    while i < n
        invariant
            n == text@.len(),
            i <= n,
            spec_tidy_lines(text@) == out@ + tidy_from(text@.skip(i as int), line@, started),
        decreases n - i,
    {
        let ghost rest = text@.skip(i as int);
        let ghost rest1 = text@.skip(i as int + 1);
        proof {
            assert(rest.first() == text@[i as int]);
            assert(rest.drop_first() =~= rest1);
        }
        let c = text.get_char(i);
        if c == '\n' {
            let ghost out0 = out@;
            let ghost t = spec_trim(line@);
            let st0 = started;
            started = push_trimmed(&line, st0, &mut out);
            line = String::new();
            proof {
                assert(line@ =~= Seq::<char>::empty());
                assert(out0 + (emit_line(t, st0) + tidy_from(rest1, Seq::empty(), started))
                    =~= (out0 + emit_line(t, st0)) + tidy_from(rest1, Seq::empty(), started));
            }
        } else {
            let piece = text.substring_char(i, i + 1);
            let ghost line0 = line@;
            proof {
                assert(piece@ =~= seq![text@[i as int]]);
            }
            line.append(piece);
            proof {
                assert(line@ =~= line0.push(text@[i as int]));
            }
        }
        i = i + 1;
    }
    proof {
        assert(text@.skip(n as int) =~= Seq::<char>::empty());
    }
    push_trimmed(&line, started, &mut out);
    out
}

} // verus!
