//! Line-oriented text handling: splitting captured command output into
//! lines, taking the trailing window of a line list, joining lines back
//! into a block of text, and rendering numbers in decimal.

use vstd::prelude::*;
use vstd::string::StrSliceExecFns;
use vstd::string::StringExecFns;

verus! {

/// Index of the first newline in `s`, or `s.len()` when `s` holds none.
pub open spec fn first_nl(s: Seq<char>) -> int
    decreases s.len(),
{
    if s.len() == 0 {
        0
    } else if s[0] == '\n' {
        0
    } else {
        1 + first_nl(s.drop_first())
    }
}

/// A line as a terminating newline leaves it: one carriage return directly
/// before the newline is dropped with it.
pub open spec fn strip_cr(line: Seq<char>) -> Seq<char> {
    if line.len() > 0 && line.last() == '\r' {
        line.drop_last()
    } else {
        line
    }
}

/// The lines of `s`: segments between newlines, each terminated segment
/// stripped of one trailing carriage return, and no empty segment after a
/// final newline. This matches how `str::lines` reads text.
pub open spec fn split_lines(s: Seq<char>) -> Seq<Seq<char>>
    decreases s.len(),
    via split_lines_decreases
{
    if s.len() == 0 {
        Seq::empty()
    } else {
        let i = first_nl(s);
        if i == s.len() {
            seq![s]
        } else {
            seq![strip_cr(s.subrange(0, i))] + split_lines(s.subrange(i + 1, s.len() as int))
        }
    }
}

#[via_fn]
proof fn split_lines_decreases(s: Seq<char>) {
    lemma_first_nl_bounds(s);
}

/// The last `k` entries of `lines` (all of them when there are fewer),
/// in their original order.
pub open spec fn tail_lines(lines: Seq<Seq<char>>, k: int) -> Seq<Seq<char>> {
    if lines.len() <= k {
        lines
    } else {
        lines.subrange(lines.len() - k, lines.len() as int)
    }
}

/// The tail window holds exactly the last `min(k, len)` entries, in their
/// original order.
pub proof fn lemma_tail_window(lines: Seq<Seq<char>>, k: int)
    requires
        k >= 0,
    ensures
        tail_lines(lines, k).len() == (if lines.len() <= k {
            lines.len() as int
        } else {
            k
        }),
        forall|i: int|
            0 <= i < tail_lines(lines, k).len() ==> tail_lines(lines, k)[i] == lines[lines.len()
                - tail_lines(lines, k).len() + i],
{
}

/// The entries of `lines` joined with single newlines; empty when there
/// are no entries.
pub open spec fn join_lines(lines: Seq<Seq<char>>) -> Seq<char>
    decreases lines.len(),
{
    if lines.len() == 0 {
        Seq::empty()
    } else if lines.len() == 1 {
        lines[0]
    } else {
        lines[0] + seq!['\n'] + join_lines(lines.drop_first())
    }
}

/// The last `k` lines of `s`, joined with newlines: what a report block
/// shows of a captured stream.
pub open spec fn tail_text(s: Seq<char>, k: int) -> Seq<char> {
    join_lines(tail_lines(split_lines(s), k))
}

pub proof fn lemma_first_nl_bounds(s: Seq<char>)
    ensures
        0 <= first_nl(s) <= s.len(),
        first_nl(s) < s.len() ==> s[first_nl(s)] == '\n',
        forall|j: int| 0 <= j < first_nl(s) ==> s[j] != '\n',
    decreases s.len(),
{
    if s.len() == 0 {
    } else if s[0] == '\n' {
    } else {
        let t = s.drop_first();
        lemma_first_nl_bounds(t);
        assert forall|j: int| 0 <= j < first_nl(s) implies s[j] != '\n' by {
            if j >= 1 {
                assert(s[j] == t[j - 1]);
            }
        }
    }
}

/// `first_nl` finds exactly the position of the first newline.
pub proof fn lemma_first_nl_at(s: Seq<char>, i: int)
    requires
        0 <= i <= s.len(),
        forall|j: int| 0 <= j < i ==> s[j] != '\n',
        i < s.len() ==> s[i] == '\n',
    ensures
        first_nl(s) == i,
    decreases s.len(),
{
    if s.len() == 0 {
    } else if s[0] == '\n' {
        assert(i == 0);
    } else {
        assert(s[0 as int] != '\n');
        assert(i >= 1);
        let t = s.drop_first();
        assert forall|j: int| 0 <= j < i - 1 implies t[j] != '\n' by {
            assert(s[j + 1] != '\n');
        }
        lemma_first_nl_at(t, i - 1);
    }
}

/// Splitting text that starts with a newline-terminated segment yields
/// that segment (stripped) followed by the lines of the rest.
proof fn lemma_split_lines_step(t: Seq<char>, u: Seq<char>)
    requires
        forall|j: int| 0 <= j < t.len() ==> t[j] != '\n',
    ensures
        split_lines(t + seq!['\n'] + u) == seq![strip_cr(t)] + split_lines(u),
{
    let s = t + seq!['\n'] + u;
    assert(s[t.len() as int] == '\n');
    assert forall|j: int| 0 <= j < t.len() implies s[j] != '\n' by {
        assert(s[j] == t[j]);
    }
    lemma_first_nl_at(s, t.len() as int);
    assert(s.subrange(0, t.len() as int) =~= t);
    assert(s.subrange(t.len() as int + 1, s.len() as int) =~= u);
}

/// Text without a newline is a single line (or no line at all when empty).
proof fn lemma_split_lines_no_nl(t: Seq<char>)
    requires
        forall|j: int| 0 <= j < t.len() ==> t[j] != '\n',
    ensures
        t.len() == 0 ==> split_lines(t) == Seq::<Seq<char>>::empty(),
        t.len() > 0 ==> split_lines(t) == seq![t],
{
    lemma_first_nl_at(t, t.len() as int);
}

/// Splits `s` into its lines, as `split_lines` describes them.
pub fn split_into_lines(s: &str) -> (r: Vec<String>)
    ensures
        r.deep_view() == split_lines(s@),
{
    let n = s.unicode_len();
    let mut r: Vec<String> = Vec::new();
    let mut start: usize = 0;
    let mut i: usize = 0;
    proof {
        assert(s@.subrange(0, n as int) =~= s@);
        assert(r.deep_view() + split_lines(s@) =~= split_lines(s@));
    }
    while i < n
        invariant
            start <= i <= n == s@.len(),
            forall|j: int| start <= j < i ==> s@[j] != '\n',
            split_lines(s@) == r.deep_view() + split_lines(s@.subrange(start as int, n as int)),
        decreases n - i,
    {
        let c = s.get_char(i);
        if c == '\n' {
            let seg_end = if i > start && s.get_char(i - 1) == '\r' {
                i - 1
            } else {
                i
            };
            let line = s.substring_char(start, seg_end).to_owned();
            proof {
                let t = s@.subrange(start as int, i as int);
                let u = s@.subrange(i + 1, n as int);
                assert(s@.subrange(start as int, n as int) =~= t + seq!['\n'] + u);
                lemma_split_lines_step(t, u);
                assert(strip_cr(t) =~= s@.subrange(start as int, seg_end as int));
            }
            let ghost old_r = r.deep_view();
            r.push(line);
            proof {
                assert(r.deep_view() =~= old_r + seq![line@]);
            }
            start = i + 1;
        }
        i = i + 1;
    }
    proof {
        lemma_split_lines_no_nl(s@.subrange(start as int, n as int));
    }
    if start < n {
        let line = s.substring_char(start, n).to_owned();
        let ghost old_r = r.deep_view();
        r.push(line);
        proof {
            assert(r.deep_view() =~= old_r + seq![line@]);
            assert(r.deep_view() =~= split_lines(s@));
        }
    } else {
        proof {
            assert(r.deep_view() =~= split_lines(s@));
        }
    }
    r
}

/// Keeps the last `k` lines (all of them when there are fewer), in their
/// original order.
pub fn last_lines(lines: &Vec<String>, k: usize) -> (r: Vec<String>)
    ensures
        r.deep_view() == tail_lines(lines.deep_view(), k as int),
{
    let n = lines.len();
    let start = if n <= k {
        0
    } else {
        n - k
    };
    let mut r: Vec<String> = Vec::new();
    let mut i: usize = start;
    proof {
        assert(r.deep_view() =~= lines.deep_view().subrange(start as int, start as int));
    }
    while i < n
        invariant
            start <= i <= n == lines@.len(),
            r.deep_view() == lines.deep_view().subrange(start as int, i as int),
        decreases n - i,
    {
        let line = lines[i].clone();
        let ghost old_r = r.deep_view();
        r.push(line);
        proof {
            assert(r.deep_view() =~= old_r + seq![line@]);
            assert(r.deep_view() =~= lines.deep_view().subrange(start as int, i + 1));
        }
        i = i + 1;
    }
    proof {
        if n <= k {
            assert(lines.deep_view().subrange(0, n as int) =~= lines.deep_view());
        }
    }
    r
}

/// Appending one line extends the joined text by a newline and that line.
proof fn lemma_join_lines_push(a: Seq<Seq<char>>, x: Seq<char>)
    ensures
        a.len() == 0 ==> join_lines(a.push(x)) == x,
        a.len() > 0 ==> join_lines(a.push(x)) == join_lines(a) + seq!['\n'] + x,
    decreases a.len(),
{
    let p = a.push(x);
    if a.len() == 0 {
        assert(p.len() == 1);
        assert(p[0] == x);
    } else if a.len() == 1 {
        assert(p.drop_first() =~= seq![x]);
        assert(join_lines(p.drop_first()) == x);
        assert(p[0] == a[0]);
        assert(join_lines(a) == a[0]);
    } else {
        assert(p.drop_first() =~= a.drop_first().push(x));
        lemma_join_lines_push(a.drop_first(), x);
        assert(join_lines(p) == a[0] + seq!['\n'] + (join_lines(a.drop_first()) + seq!['\n']
            + x));
        assert(join_lines(a) + seq!['\n'] + x =~= a[0] + seq!['\n'] + (join_lines(a.drop_first())
            + seq!['\n'] + x));
    }
}

/// Joins the lines with single newlines; empty when there are no lines.
pub fn join_with_newlines(lines: &Vec<String>) -> (r: String)
    ensures
        r@ == join_lines(lines.deep_view()),
{
    let mut r = String::new();
    let n = lines.len();
    let mut i: usize = 0;
    proof {
        assert(lines.deep_view().subrange(0, 0) =~= Seq::<Seq<char>>::empty());
        assert(r@ =~= join_lines(lines.deep_view().subrange(0, 0)));
    }
    while i < n
        invariant
            i <= n == lines@.len(),
            r@ == join_lines(lines.deep_view().subrange(0, i as int)),
        decreases n - i,
    {
        proof {
            reveal_strlit("\n");
        }
        if i > 0 {
            r.append("\n");
            proof {
                assert("\n"@ =~= seq!['\n']);
            }
        }
        r.append(lines[i].as_str());
        proof {
            let dv = lines.deep_view();
            assert(dv.subrange(0, i + 1) =~= dv.subrange(0, i as int).push(dv[i as int]));
            lemma_join_lines_push(dv.subrange(0, i as int), dv[i as int]);
            assert(r@ =~= join_lines(dv.subrange(0, i + 1)));
        }
        i = i + 1;
    }
    proof {
        assert(lines.deep_view().subrange(0, n as int) =~= lines.deep_view());
    }
    r
}

/// The last `k` lines of `s`, joined with newlines.
pub fn tail_text_of(s: &str, k: usize) -> (r: String)
    ensures
        r@ == tail_text(s@, k as int),
{
    let lines = split_into_lines(s);
    let tail = last_lines(&lines, k);
    join_with_newlines(&tail)
}

/// The decimal digit character for `d`.
pub open spec fn dec_digit(d: int) -> char {
    if d == 0 {
        '0'
    } else if d == 1 {
        '1'
    } else if d == 2 {
        '2'
    } else if d == 3 {
        '3'
    } else if d == 4 {
        '4'
    } else if d == 5 {
        '5'
    } else if d == 6 {
        '6'
    } else if d == 7 {
        '7'
    } else if d == 8 {
        '8'
    } else {
        '9'
    }
}

/// The decimal rendering of `n`, most significant digit first, with no
/// leading zero except for zero itself.
pub open spec fn dec_str(n: nat) -> Seq<char>
    decreases n,
{
    if n < 10 {
        seq![dec_digit(n as int)]
    } else {
        dec_str(n / 10).push(dec_digit((n % 10) as int))
    }
}

/// A one-character string for the digit `d`.
fn digit_str(d: u64) -> (r: &'static str)
    requires
        d < 10,
    ensures
        r@ == seq![dec_digit(d as int)],
{
    if d == 0 {
        proof {
            reveal_strlit("0");
            assert("0"@ =~= seq![dec_digit(0)]);
        }
        "0"
    } else if d == 1 {
        proof {
            reveal_strlit("1");
            assert("1"@ =~= seq![dec_digit(1)]);
        }
        "1"
    } else if d == 2 {
        proof {
            reveal_strlit("2");
            assert("2"@ =~= seq![dec_digit(2)]);
        }
        "2"
    } else if d == 3 {
        proof {
            reveal_strlit("3");
            assert("3"@ =~= seq![dec_digit(3)]);
        }
        "3"
    } else if d == 4 {
        proof {
            reveal_strlit("4");
            assert("4"@ =~= seq![dec_digit(4)]);
        }
        "4"
    } else if d == 5 {
        proof {
            reveal_strlit("5");
            assert("5"@ =~= seq![dec_digit(5)]);
        }
        "5"
    } else if d == 6 {
        proof {
            reveal_strlit("6");
            assert("6"@ =~= seq![dec_digit(6)]);
        }
        "6"
    } else if d == 7 {
        proof {
            reveal_strlit("7");
            assert("7"@ =~= seq![dec_digit(7)]);
        }
        "7"
    } else if d == 8 {
        proof {
            reveal_strlit("8");
            assert("8"@ =~= seq![dec_digit(8)]);
        }
        "8"
    } else {
        proof {
            reveal_strlit("9");
            assert("9"@ =~= seq![dec_digit(9)]);
        }
        "9"
    }
}

/// Renders `n` in decimal.
pub fn decimal_string(n: u64) -> (r: String)
    ensures
        r@ == dec_str(n as nat),
    decreases n,
{
    if n < 10 {
        digit_str(n).to_owned()
    } else {
        let mut r = decimal_string(n / 10);
        r.append(digit_str(n % 10));
        proof {
            assert(r@ =~= dec_str((n as nat) / 10).push(dec_digit(((n as nat) % 10) as int)));
        }
        r
    }
}

} // verus!
