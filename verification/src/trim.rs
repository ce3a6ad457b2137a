//! Removing the common indentation from the lines of a snippet.

use vstd::prelude::*;
use vstd::string::*;
use crate::text::chars_of;

verus! {

/// The position of the first line feed in `s` at or after `from`, or the
/// length of `s` if there is none.
pub open spec fn newline_from(s: Seq<char>, from: int) -> int
    decreases s.len() - from,
{
    if from < 0 || from >= s.len() {
        s.len() as int
    } else if s[from] == '\n' {
        from
    } else {
        newline_from(s, from + 1)
    }
}

/// Where the text of the line ends that starts at `from` and is closed by
/// the line feed at `p`: before the line feed, and before a carriage
/// return in front of it.
pub open spec fn line_end(s: Seq<char>, from: int, p: int) -> int {
    if from < p && s[p - 1] == '\r' {
        p - 1
    } else {
        p
    }
}

/// The lines of `s` from position `from` on, each as the span of its text
/// in `s`. A line ends at a line feed, or at the end of `s`; a line feed
/// at the very end opens no further line.
pub open spec fn line_spans(s: Seq<char>, from: int) -> Seq<(int, int)>
    decreases s.len() - from,
{
    if from < 0 || from >= s.len() {
        Seq::empty()
    } else {
        let p = newline_from(s, from);
        if p < from {
            Seq::empty()
        } else if p >= s.len() {
            seq![(from, s.len() as int)]
        } else {
            seq![(from, line_end(s, from, p))] + line_spans(s, p + 1)
        }
    }
}

/// The number of characters `ch` with which the span `a..b` of `s` begins.
pub open spec fn indent(s: Seq<char>, a: int, b: int, ch: char) -> int
    decreases b - a,
{
    if a >= b || s[a] != ch {
        0
    } else {
        1 + indent(s, a + 1, b, ch)
    }
}

/// The least indentation among the lines `first..k` that are not empty.
pub open spec fn min_indent(s: Seq<char>, spans: Seq<(int, int)>, ch: char, first: int, k: int) -> Option<
    int,
>
    decreases k,
{
    if k <= first || k > spans.len() || k <= 0 {
        None
    } else {
        let prev = min_indent(s, spans, ch, first, k - 1);
        let (a, b) = spans[k - 1];
        if a >= b {
            prev
        } else {
            let here = indent(s, a, b, ch);
            match prev {
                Some(m) => Some(
                    if here < m {
                        here
                    } else {
                        m
                    },
                ),
                None => Some(here),
            }
        }
    }
}

/// The text of line `i` without its first `x` characters; an empty line
/// stays as it is, and so does the first line if `ignore_first` is set.
pub open spec fn trimmed_line(s: Seq<char>, spans: Seq<(int, int)>, x: int, ignore_first: bool, i: int) -> Seq<
    char,
> {
    let (a, b) = spans[i];
    if (ignore_first && i == 0) || a >= b {
        s.subrange(a, b)
    } else {
        s.subrange(a + x, b)
    }
}

/// The first `k` trimmed lines, with a line feed between each two.
pub open spec fn joined_lines(s: Seq<char>, spans: Seq<(int, int)>, x: int, ignore_first: bool, k: int) -> Seq<
    char,
>
    decreases k,
{
    if k <= 0 {
        Seq::empty()
    } else if k == 1 {
        trimmed_line(s, spans, x, ignore_first, 0)
    } else {
        joined_lines(s, spans, x, ignore_first, k - 1) + "\n"@ + trimmed_line(s, spans, x, ignore_first, k - 1)
    }
}

/// `s` with the indentation by `ch` removed that all its lines share. Only
/// lines that are not empty count, and the first line neither counts nor
/// changes if `ignore_first` is set. Where the lines share no
/// indentation, `s` stays as it is.
pub open spec fn trim_inner_spec(s: Seq<char>, ignore_first: bool, ch: char) -> Seq<char> {
    let spans = line_spans(s, 0);
    let first: int = if ignore_first {
        1
    } else {
        0
    };
    match min_indent(s, spans, ch, first, spans.len() as int) {
        Some(x) => if x > 0 {
            joined_lines(s, spans, x, ignore_first, spans.len() as int)
        } else {
            s
        },
        None => s,
    }
}

/// `s` with the shared indentation removed: first by spaces, then by
/// tabs, then by spaces again.
pub open spec fn trim_multiline_spec(s: Seq<char>, ignore_first: bool) -> Seq<char> {
    trim_inner_spec(trim_inner_spec(trim_inner_spec(s, ignore_first, ' '), ignore_first, '\t'), ignore_first, ' ')
}

proof fn lemma_newline_from(s: Seq<char>, from: int)
    requires
        0 <= from <= s.len(),
    ensures
        from <= newline_from(s, from) <= s.len(),
        newline_from(s, from) < s.len() ==> s[newline_from(s, from)] == '\n',
    decreases s.len() - from,
{
    if from < s.len() && s[from] != '\n' {
        lemma_newline_from(s, from + 1);
    }
}

proof fn lemma_indent_bound(s: Seq<char>, a: int, b: int, ch: char)
    requires
        a <= b,
    ensures
        0 <= indent(s, a, b, ch) <= b - a,
    decreases b - a,
{
    if a < b && s[a] == ch {
        lemma_indent_bound(s, a + 1, b, ch);
    }
}

proof fn lemma_min_indent(s: Seq<char>, spans: Seq<(int, int)>, ch: char, first: int, k: int, j: int)
    requires
        0 <= first <= j < k <= spans.len(),
        spans[j].0 < spans[j].1,
    ensures
        min_indent(s, spans, ch, first, k).is_some(),
        0 <= min_indent(s, spans, ch, first, k).unwrap() <= spans[j].1 - spans[j].0,
    decreases k,
{
    let (a, b) = spans[k - 1];
    if a < b {
        lemma_indent_bound(s, a, b, ch);
    }
    if j < k - 1 {
        lemma_min_indent(s, spans, ch, first, k - 1, j);
    } else {
        lemma_min_nonneg(s, spans, ch, first, k - 1);
    }
}

proof fn lemma_min_nonneg(s: Seq<char>, spans: Seq<(int, int)>, ch: char, first: int, k: int)
    ensures
        min_indent(s, spans, ch, first, k).is_some() ==> min_indent(s, spans, ch, first, k).unwrap() >= 0,
    decreases k,
{
    if !(k <= first || k > spans.len() || k <= 0) {
        lemma_min_nonneg(s, spans, ch, first, k - 1);
        let (a, b) = spans[k - 1];
        if a < b {
            lemma_indent_bound(s, a, b, ch);
        }
    }
}

/// The views of the spans.
pub open spec fn span_ints(v: Seq<(usize, usize)>) -> Seq<(int, int)> {
    v.map_values(|p: (usize, usize)| (p.0 as int, p.1 as int))
}

/// Finds the lines of `chars`.
fn find_lines(chars: &Vec<char>) -> (spans: Vec<(usize, usize)>)
    ensures
        span_ints(spans@) == line_spans(chars@, 0),
        forall|i: int| 0 <= i < spans.len() ==> (#[trigger] spans[i]).0 <= spans[i].1 <= chars.len(),
{
    let n = chars.len();
    let mut spans: Vec<(usize, usize)> = Vec::new();
    let mut pos: usize = 0;
    assert(span_ints(spans@) + line_spans(chars@, 0) =~= line_spans(chars@, 0));
    while pos < n
        invariant
            pos <= n == chars.len(),
            span_ints(spans@) + line_spans(chars@, pos as int) == line_spans(chars@, 0),
            forall|i: int| 0 <= i < spans.len() ==> (#[trigger] spans[i]).0 <= spans[i].1 <= chars.len(),
        decreases n - pos,
    {
        let mut p = pos;
        while p < n && chars[p] != '\n'
            invariant
                pos <= p <= n == chars.len(),
                newline_from(chars@, p as int) == newline_from(chars@, pos as int),
            decreases n - p,
        {
            p += 1;
        }
        let ghost before = span_ints(spans@);
        if p >= n {
            spans.push((pos, n));
            proof {
                assert(line_spans(chars@, pos as int) =~= seq![(pos as int, n as int)]);
                assert(span_ints(spans@) =~= before + seq![(pos as int, n as int)]);
                assert(line_spans(chars@, n as int) =~= Seq::<(int, int)>::empty());
                assert(span_ints(spans@) + line_spans(chars@, n as int) =~= before + line_spans(
                    chars@,
                    pos as int,
                ));
            }
            pos = n;
        } else {
            let end = if pos < p && chars[p - 1] == '\r' {
                p - 1
            } else {
                p
            };
            spans.push((pos, end));
            proof {
                assert(line_spans(chars@, pos as int) =~= seq![(pos as int, end as int)] + line_spans(
                    chars@,
                    p + 1,
                ));
                assert(span_ints(spans@) =~= before + seq![(pos as int, end as int)]);
                assert(span_ints(spans@) + line_spans(chars@, p + 1) =~= before + line_spans(
                    chars@,
                    pos as int,
                ));
            }
            pos = p + 1;
        }
    }
    assert(line_spans(chars@, pos as int) =~= Seq::<(int, int)>::empty());
    assert(span_ints(spans@) + Seq::<(int, int)>::empty() =~= span_ints(spans@));
    spans
}

/// Counts the characters `ch` at the start of the span `a..b`.
fn count_indent(chars: &Vec<char>, a: usize, b: usize, ch: char) -> (r: usize)
    requires
        a <= b <= chars.len(),
    ensures
        r == indent(chars@, a as int, b as int, ch),
        r <= b - a,
{
    let mut k = a;
    while k < b && chars[k] == ch
        invariant
            a <= k <= b <= chars.len(),
            indent(chars@, a as int, b as int, ch) == (k - a) + indent(chars@, k as int, b as int, ch),
        decreases b - k,
    {
        k += 1;
    }
    k - a
}

fn trim_multiline_inner(s: String, ignore_first: bool, ch: char) -> (r: String)
    ensures
        r@ == trim_inner_spec(s@, ignore_first, ch),
{
    let chars = chars_of(s.as_str());
    let spans = find_lines(&chars);
    let n = spans.len();
    let first: usize = if ignore_first {
        1
    } else {
        0
    };
    let ghost lines = line_spans(s@, 0);
    assert(span_ints(spans@).len() == n);
    let mut x: Option<usize> = None;
    let mut k: usize = first;
    while k < n
        invariant
            first <= k,
            k <= n || k == first,
            n == spans.len(),
            n == lines.len(),
            lines == span_ints(spans@),
            chars@ == s@,
            forall|i: int| 0 <= i < spans.len() ==> (#[trigger] spans[i]).0 <= spans[i].1 <= chars.len(),
            match x {
                Some(m) => min_indent(s@, lines, ch, first as int, k as int) == Some(m as int),
                None => min_indent(s@, lines, ch, first as int, k as int).is_none(),
            },
        decreases n - k,
    {
        let (a, b) = spans[k];
        assert(lines[k as int] == (a as int, b as int));
        if a < b {
            let here = count_indent(&chars, a, b, ch);
            x = match x {
                Some(m) => Some(
                    if here < m {
                        here
                    } else {
                        m
                    },
                ),
                None => Some(here),
            };
        }
        k += 1;
    }
    assert(first >= n ==> min_indent(s@, lines, ch, first as int, n as int).is_none());
    let x = match x {
        Some(x) => x,
        None => 0,
    };
    if x == 0 {
        return s;
    }
    let mut r = String::new();
    let text = s.as_str();
    let mut i: usize = 0;
    while i < n
        invariant
            i <= n == spans.len(),
            n == lines.len(),
            lines == span_ints(spans@),
            chars@ == s@,
            text@ == s@,
            x > 0,
            first == (if ignore_first {
                1usize
            } else {
                0usize
            }),
            min_indent(s@, lines, ch, first as int, n as int) == Some(x as int),
            forall|i: int| 0 <= i < spans.len() ==> (#[trigger] spans[i]).0 <= spans[i].1 <= chars.len(),
            r@ == joined_lines(s@, lines, x as int, ignore_first, i as int),
        decreases n - i,
    {
        let (a, b) = spans[i];
        assert(lines[i as int] == (a as int, b as int));
        if i > 0 {
            r.append("\n");
        }
        let keep = (ignore_first && i == 0) || a >= b;
        let from = if keep {
            a
        } else {
            proof {
                lemma_min_indent(s@, lines, ch, first as int, n as int, i as int);
            }
            a + x
        };
        r.append(text.substring_char(from, b));
        proof {
            if i == 0 {
                assert(Seq::<char>::empty() + trimmed_line(s@, lines, x as int, ignore_first, 0)
                    =~= trimmed_line(s@, lines, x as int, ignore_first, 0));
            }
        }
        i += 1;
    }
    r
}

/// Trim indentation from a multiline string with possibility of ignoring
/// the first line.
pub fn trim_multiline(s: String, ignore_first: bool) -> (r: String)
    ensures
        r@ == trim_multiline_spec(s@, ignore_first),
{
    let s_space = trim_multiline_inner(s, ignore_first, ' ');
    let s_tab = trim_multiline_inner(s_space, ignore_first, '\t');
    trim_multiline_inner(s_tab, ignore_first, ' ')
}

} // verus!
