//! The tail of the kernel's diagnostic log that accompanies a failed mount.
use vstd::prelude::*;

use crate::paths::seq_view;

verus! {

/// How many of the most recent log lines a failed mount carries.
pub const LOG_TAIL_LINES: usize = 15;

/// The pieces of `s` between line feeds: one more than there are line feeds.
pub open spec fn split_lf(s: Seq<char>) -> Seq<Seq<char>>
    decreases s.len(),
{
    if s.len() == 0 {
        seq![Seq::empty()]
    } else {
        let rest = split_lf(s.drop_last());
        if s.last() == '\n' {
            rest.push(Seq::empty())
        } else {
            rest.update(rest.len() - 1, rest.last().push(s.last()))
        }
    }
}

/// A line that a line feed ended, without the carriage return before it.
pub open spec fn strip_cr(l: Seq<char>) -> Seq<char> {
    if l.len() > 0 && l.last() == '\r' {
        l.drop_last()
    } else {
        l
    }
}

/// The lines of `s` as `str::lines` gives them: the text between line
/// feeds, a carriage return before a line feed dropped, and no empty line
/// after a final line feed.
pub open spec fn lines(s: Seq<char>) -> Seq<Seq<char>> {
    let pieces = split_lf(s);
    let ended = Seq::new((pieces.len() - 1) as nat, |k: int| strip_cr(pieces[k]));
    if pieces.last().len() == 0 {
        ended
    } else {
        ended.push(pieces.last())
    }
}

/// The last lines of `s`, at most [`LOG_TAIL_LINES`] of them, the most
/// recent first.
pub open spec fn log_tail(s: Seq<char>) -> Seq<Seq<char>> {
    let l = lines(s);
    let count = if l.len() < LOG_TAIL_LINES { l.len() } else { LOG_TAIL_LINES as nat };
    Seq::new(count, |k: int| l[l.len() - 1 - k])
}

/// Splitting at line feeds yields at least one piece.
proof fn lemma_split_lf_len(s: Seq<char>)
    ensures
        split_lf(s).len() >= 1,
    decreases s.len(),
{
    if s.len() > 0 {
        lemma_split_lf_len(s.drop_last());
    }
}

/// A log that holds any text at all yields at least one line.
pub proof fn nonempty_log_has_lines(s: Seq<char>)
    requires
        s.len() > 0,
    ensures
        lines(s).len() > 0,
        log_tail(s).len() > 0,
{
    lemma_split_lf_len(s.drop_last());
    lemma_split_lf_len(s);
}

/// The last lines of the log `output`, the most recent first.
pub fn log_tail_of(output: &str) -> (r: Vec<String>)
    ensures
        seq_view(r@) == log_tail(output@),
{
    let n = output.unicode_len();
    let ghost s = output@;
    // Each line ended by a line feed, as a range of character positions
    // without its line ending.
    let mut ended: Vec<(usize, usize)> = Vec::new();
    let mut start: usize = 0;
    let mut last_cr = false;
    let mut i: usize = 0;
    proof {
        assert(s.take(0) =~= Seq::<char>::empty());
        assert(s.subrange(0, 0) =~= Seq::<char>::empty());
    }
    for c in it: output.chars()
        invariant
            it.seq() == s,
            n == s.len(),
            i == it.index(),
            i <= n,
            start <= i,
            ended@.len() <= start,
            split_lf(s.take(i as int)).len() == ended@.len() + 1,
            forall|k: int|
                0 <= k < ended@.len() ==> (#[trigger] ended@[k]).0 <= ended@[k].1 <= n && s.subrange(
                    ended@[k].0 as int,
                    ended@[k].1 as int,
                ) == strip_cr(split_lf(s.take(i as int))[k]),
            split_lf(s.take(i as int)).last() == s.subrange(start as int, i as int),
            last_cr == (i > start && s[i - 1] == '\r'),
    {
        let ghost pieces = split_lf(s.take(i as int));
        proof {
            assert(s.take(i + 1).drop_last() =~= s.take(i as int));
            assert(s.take(i + 1).last() == c);
            lemma_split_lf_len(s.take(i as int));
        }
        if c == '\n' {
            let end = if last_cr {
                i - 1
            } else {
                i
            };
            proof {
                let piece = s.subrange(start as int, i as int);
                if last_cr {
                    assert(piece.drop_last() =~= s.subrange(start as int, end as int));
                } else {
                    assert(piece =~= s.subrange(start as int, end as int));
                }
            }
            ended.push((start, end));
            start = i + 1;
            last_cr = false;
            proof {
                assert(s.subrange(start as int, (i + 1) as int) =~= Seq::<char>::empty());
            }
        } else {
            last_cr = c == '\r';
            proof {
                assert(s.subrange(start as int, (i + 1) as int) =~= s.subrange(start as int, i as int).push(c));
            }
        }
        i += 1;
    }
    proof {
        assert(s.take(n as int) =~= s);
        lemma_split_lf_len(s);
    }
    let ghost l = lines(s);
    let last_open = start < n;
    let total = if last_open {
        ended.len() + 1
    } else {
        ended.len()
    };
    proof {
        assert(split_lf(s).last().len() == n - start);
        assert(l.len() == total);
    }
    let count = if total < LOG_TAIL_LINES {
        total
    } else {
        LOG_TAIL_LINES
    };
    let mut r: Vec<String> = Vec::new();
    let mut k: usize = 0;
    while k < count
        invariant
            count <= total,
            total == l.len(),
            count == log_tail(s).len(),
            k <= count,
            r@.len() == k,
            forall|j: int| 0 <= j < k ==> (#[trigger] r@[j])@ == log_tail(s)[j],
            last_open == (start < n),
            start <= n,
            n == s.len(),
            total == (if last_open { ended@.len() + 1 } else { ended@.len() }),
            split_lf(s).len() == ended@.len() + 1,
            split_lf(s).last() == s.subrange(start as int, n as int),
            forall|j: int|
                0 <= j < ended@.len() ==> (#[trigger] ended@[j]).0 <= ended@[j].1 <= n && s.subrange(
                    ended@[j].0 as int,
                    ended@[j].1 as int,
                ) == strip_cr(split_lf(s)[j]),
            l == lines(s),
            s == output@,
        decreases count - k,
    {
        let idx = total - 1 - k;
        let line = if idx < ended.len() {
            let (a, b) = ended[idx];
            output.substring_char(a, b)
        } else {
            output.substring_char(start, n)
        };
        r.push(String::from_str(line));
        k += 1;
    }
    proof {
        assert(seq_view(r@) =~= log_tail(s));
    }
    r
}

} // verus!
