//! Extracting an OS version string from the text of an `os-release` file:
//! the first line carrying a `PRETTY_NAME=` assignment yields its value,
//! with the assignment prefix and any surrounding quotes trimmed away.
//! Reading the file is the surrounding runtime's work; the parsing rule is
//! proved here.

use vstd::prelude::*;

use crate::chars::{chars_to_string, match_lit_at, str_to_chars};

verus! {

pub open spec fn pretty_prefix() -> Seq<char> {
    seq!['P', 'R', 'E', 'T', 'T', 'Y', '_', 'N', 'A', 'M', 'E', '=']
}

/// A line with its trailing carriage return removed.
pub open spec fn strip_cr(l: Seq<char>) -> Seq<char> {
    if l.len() > 0 && l[l.len() - 1] == '\r' {
        l.drop_last()
    } else {
        l
    }
}

/// Every leading repetition of the assignment prefix removed.
pub open spec fn lstrip_pretty(l: Seq<char>) -> Seq<char>
    decreases l.len(),
{
    if l.len() >= 12 && l.take(12) == pretty_prefix() {
        lstrip_pretty(l.skip(12))
    } else {
        l
    }
}

/// Every leading quote removed.
pub open spec fn ltrim_quotes(l: Seq<char>) -> Seq<char>
    decreases l.len(),
{
    if l.len() > 0 && l[0] == '"' {
        ltrim_quotes(l.skip(1))
    } else {
        l
    }
}

/// Every trailing quote removed.
pub open spec fn rtrim_quotes(l: Seq<char>) -> Seq<char>
    decreases l.len(),
{
    if l.len() > 0 && l[l.len() - 1] == '"' {
        rtrim_quotes(l.drop_last())
    } else {
        l
    }
}

/// What one line contributes: the trimmed value of a `PRETTY_NAME=`
/// assignment, or nothing.
pub open spec fn pretty_value(line: Seq<char>) -> Option<Seq<char>> {
    let l = strip_cr(line);
    if l.len() >= 12 && l.take(12) == pretty_prefix() {
        Some(rtrim_quotes(ltrim_quotes(lstrip_pretty(l))))
    } else {
        None
    }
}

/// Scans the text line by line; the first line with a value wins.
pub open spec fn os_release_acc(s: Seq<char>, cur: Seq<char>) -> Option<Seq<char>>
    decreases s.len(),
{
    if s.len() == 0 {
        pretty_value(cur)
    } else if s[0] == '\n' {
        if pretty_value(cur) is Some {
            pretty_value(cur)
        } else {
            os_release_acc(s.skip(1), Seq::empty())
        }
    } else {
        os_release_acc(s.skip(1), cur.push(s[0]))
    }
}

/// The OS version an `os-release` text yields.
pub open spec fn spec_parse_os_release(s: Seq<char>) -> Option<Seq<char>> {
    os_release_acc(s, Seq::empty())
}

/// The value of one line, if it is a `PRETTY_NAME=` assignment.
fn line_value(l: &Vec<char>) -> (r: Option<String>)
    ensures
        match r {
            Some(s) => pretty_value(l@) == Some(s@),
            None => pretty_value(l@) is None,
        },
{
    let n = l.len();
    let mut hi: usize = n;
    if hi > 0 && l[hi - 1] == '\r' {
        hi = hi - 1;
    }
    let ghost sl = strip_cr(l@);
    proof {
        assert(sl =~= l@.take(hi as int));
    }
    let pat = str_to_chars("PRETTY_NAME=");
    proof {
        reveal_strlit("PRETTY_NAME=");
        assert("PRETTY_NAME="@ =~= pretty_prefix());
    }
    if hi < 12 || !match_lit_at(l, 0, &pat) {
        proof {
            if sl.len() >= 12 {
                assert(l@.skip(0) =~= l@);
                assert(sl.take(12) =~= l@.skip(0).take(12));
            }
        }
        return None;
    }
    proof {
        assert(l@.skip(0) =~= l@);
        assert(sl.take(12) =~= l@.skip(0).take(12));
        assert(sl.take(12) == pretty_prefix());
    }
    let mut lo: usize = 0;
    proof {
        assert(sl.skip(0) =~= sl);
    }
    while hi - lo >= 12 && match_lit_at(l, lo, &pat)
        invariant
            hi <= l@.len(),
            l@.len() <= usize::MAX,
            lo <= hi,
            sl == strip_cr(l@),
            sl == l@.take(hi as int),
            pat@ == pretty_prefix(),
            lstrip_pretty(sl) == lstrip_pretty(sl.skip(lo as int)),
        decreases hi - lo,
    {
        proof {
            let w = sl.skip(lo as int);
            assert(w.take(12) =~= l@.skip(lo as int).take(12));
            assert(w.skip(12) =~= sl.skip(lo + 12));
        }
        lo = lo + 12;
    }
    proof {
        let w = sl.skip(lo as int);
        if w.len() >= 12 {
            assert(w.take(12) =~= l@.skip(lo as int).take(12));
        }
        assert(lstrip_pretty(w) == w);
    }
    let ghost stripped = lstrip_pretty(sl);
    while lo < hi && l[lo] == '"'
        invariant
            hi <= l@.len(),
            l@.len() <= usize::MAX,
            lo <= hi,
            sl == l@.take(hi as int),
            ltrim_quotes(stripped) == ltrim_quotes(sl.skip(lo as int)),
        decreases hi - lo,
    {
        proof {
            let w = sl.skip(lo as int);
            assert(w[0] == l@[lo as int]);
            assert(w.skip(1) =~= sl.skip(lo + 1));
        }
        lo = lo + 1;
    }
    proof {
        let w = sl.skip(lo as int);
        if w.len() > 0 {
            assert(w[0] == l@[lo as int]);
        }
        assert(ltrim_quotes(w) == w);
    }
    let ghost lt = ltrim_quotes(stripped);
    let mut hi2: usize = hi;
    proof {
        assert(sl.skip(lo as int).take(hi2 - lo) =~= sl.skip(lo as int));
        assert(lt == sl.skip(lo as int));
    }
    while hi2 > lo && l[hi2 - 1] == '"'
        invariant
            hi2 <= hi <= l@.len(),
            l@.len() <= usize::MAX,
            lo <= hi2,
            sl == l@.take(hi as int),
            rtrim_quotes(lt) == rtrim_quotes(sl.skip(lo as int).take(hi2 - lo)),
        decreases hi2 - lo,
    {
        proof {
            let w = sl.skip(lo as int).take(hi2 - lo);
            assert(w[w.len() - 1] == l@[hi2 - 1]);
            assert(w.drop_last() =~= sl.skip(lo as int).take(hi2 - 1 - lo));
        }
        hi2 = hi2 - 1;
    }
    proof {
        let w = sl.skip(lo as int).take(hi2 - lo);
        if w.len() > 0 {
            assert(w[w.len() - 1] == l@[hi2 - 1]);
        }
        assert(rtrim_quotes(w) == w);
        assert(w =~= l@.subrange(lo as int, hi2 as int));
    }
    let mut out: Vec<char> = Vec::new();
    let mut k: usize = lo;
    while k < hi2
        invariant
            lo <= k <= hi2 <= l@.len(),
            out@ == l@.subrange(lo as int, k as int),
        decreases hi2 - k,
    {
        out.push(l[k]);
        proof {
            assert(l@.subrange(lo as int, k + 1 as int) =~= l@.subrange(lo as int, k as int)
                + seq![l@[k as int]]);
        }
        k = k + 1;
    }
    Some(chars_to_string(&out))
}

/// Get the OS version a `/etc/os-release` text describes: the trimmed
/// value of its first `PRETTY_NAME=` line, if any.
pub fn parse_os_release(text: &str) -> (r: Option<String>)
    ensures
        match r {
            Some(v) => spec_parse_os_release(text@) == Some(v@),
            None => spec_parse_os_release(text@) is None,
        },
{
    let v = str_to_chars(text);
    let mut cur: Vec<char> = Vec::new();
    let mut i: usize = 0;
    proof {
        assert(v@.skip(0) =~= v@);
    }
    while i < v.len()
        invariant
            i <= v@.len(),
            v@ == text@,
            os_release_acc(v@.skip(i as int), cur@) == spec_parse_os_release(text@),
        decreases v@.len() - i,
    {
        let ghost w = v@.skip(i as int);
        proof {
            assert(w[0] == v@[i as int]);
            assert(w.skip(1) =~= v@.skip(i + 1));
        }
        let c = v[i];
        if c == '\n' {
            match line_value(&cur) {
                Some(val) => {
                    return Some(val);
                },
                None => {
                    cur = Vec::new();
                },
            }
        } else {
            cur.push(c);
        }
        i = i + 1;
    }
    proof {
        assert(v@.skip(v@.len() as int) =~= Seq::<char>::empty());
    }
    line_value(&cur)
}

} // verus!
