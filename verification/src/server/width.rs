//! How many columns a line of text takes on a terminal, and how many of its characters
//! stand in escape sequences.
use vstd::prelude::*;
use crate::text::{chars_of, lines_from, lines_of, strip_cr};

verus! {

// ---------------------------------------------------------------------------
// Trusted: Unicode's tables
// ---------------------------------------------------------------------------

/// The columns that a line takes.
pub uninterp spec fn line_width(s: Seq<char>) -> nat;

/// The columns that a character takes by itself; a control character has none.
pub uninterp spec fn char_width(c: char) -> Option<nat>;

/// The character is one of ASCII.
pub open spec fn ascii(c: char) -> bool {
    c <= '\u{7f}'
}

/// The text is a single line in ASCII.
pub open spec fn ascii_line(s: Seq<char>) -> bool {
    forall|i: int| 0 <= i < s.len() ==> ascii(#[trigger] s[i]) && s[i] != '\n'
}

/// `unicode_width::UnicodeWidthStr::width` of a `str`: the result depends on the text
/// alone. Which characters are wide is left to Unicode's tables; of a line in ASCII
/// each character takes one column.
#[verifier::external_body]
fn columns_of_line(s: &str) -> (r: usize)
    ensures
        r as nat == line_width(s@),
        ascii_line(s@) ==> r == s@.len(),
{
    unicode_width::UnicodeWidthStr::width(s)
}

/// `unicode_width::UnicodeWidthChar::width` of a `char`: the result depends on the
/// character alone. Which characters are wide is left to Unicode's tables.
#[verifier::external_body]
fn columns_of_char(c: char) -> (r: Option<usize>)
    ensures
        (match r {
            Some(n) => char_width(c) == Some(n as nat),
            None => char_width(c) is None,
        }),
{
    unicode_width::UnicodeWidthChar::width(c)
}

// ---------------------------------------------------------------------------
// Escape sequences
// ---------------------------------------------------------------------------

/// Where in an escape sequence the reading of a line stands.
#[derive(Clone, Copy, Debug, PartialEq, Eq, Structural)]
pub enum Escape {
    /// In none.
    Outside,
    /// Behind the escape character.
    Begun,
    /// Behind the bracket, and not yet behind the `m` that ends the sequence.
    Inside,
}

/// Where the reading stands behind the character `c`.
pub open spec fn escape_after(e: Escape, c: char) -> Escape {
    match e {
        Escape::Outside => if c == '\u{1b}' {
            Escape::Begun
        } else {
            Escape::Outside
        },
        Escape::Begun => if c == '[' {
            Escape::Inside
        } else {
            Escape::Outside
        },
        Escape::Inside => if c == 'm' {
            Escape::Outside
        } else {
            Escape::Inside
        },
    }
}

/// The character `c` belongs to an escape sequence, from its bracket on.
pub open spec fn in_sequence(e: Escape, c: char) -> bool {
    e is Inside || (e is Begun && c == '[')
}

/// How many characters of `line` that take columns belong to escape sequences, where
/// `shown` tells which take columns and the reading stands at `e`.
pub open spec fn hidden_from(line: Seq<char>, shown: Seq<bool>, e: Escape) -> nat
    decreases line.len(),
{
    if line.len() == 0 {
        0
    } else {
        let rest = hidden_from(line.drop_first(), shown.drop_first(), escape_after(e, line[0]));
        if in_sequence(e, line[0]) && shown[0] {
            rest + 1
        } else {
            rest
        }
    }
}

/// The character takes columns.
pub open spec fn takes_columns(c: char) -> bool {
    char_width(c) matches Some(n) && n > 0
}

/// Which characters of the line take columns.
pub open spec fn shown_in(line: Seq<char>) -> Seq<bool> {
    line.map_values(|c: char| takes_columns(c))
}

/// How many characters of the line that take columns belong to escape sequences.
pub open spec fn hidden(line: Seq<char>) -> nat {
    hidden_from(line, shown_in(line), Escape::Outside)
}

/// The width of the line can be measured: it takes no fewer columns than the characters
/// that are left out of the count.
pub open spec fn measurable(line: Seq<char>) -> bool {
    hidden(line) <= line_width(line)
}

/// The text holds no escape character.
pub open spec fn unescaped(s: Seq<char>) -> bool {
    forall|i: int| 0 <= i < s.len() ==> #[trigger] s[i] != '\u{1b}'
}

/// How many characters of `line` that take columns belong to escape sequences, where
/// `shown` tells which take columns.
pub fn count_hidden(line: &Vec<char>, shown: &Vec<bool>) -> (r: usize)
    requires
        shown@.len() == line@.len(),
    ensures
        r == hidden_from(line@, shown@, Escape::Outside),
        r <= line@.len(),
{
    let n: usize = line.len();
    let mut e = Escape::Outside;
    let mut count: usize = 0;
    let mut i: usize = 0;
    proof {
        assert(line@.skip(0) =~= line@);
        assert(shown@.skip(0) =~= shown@);
    }
    while i < n
        invariant
            i <= n,
            n == line@.len(),
            n == shown@.len(),
            count <= i,
            count + hidden_from(line@.skip(i as int), shown@.skip(i as int), e) == hidden_from(
                line@,
                shown@,
                Escape::Outside,
            ),
        decreases n - i,
    {
        let c = line[i];
        proof {
            assert(line@.skip(i as int)[0] == c);
            assert(shown@.skip(i as int)[0] == shown@[i as int]);
            assert(line@.skip(i as int).drop_first() =~= line@.skip(i + 1));
            assert(shown@.skip(i as int).drop_first() =~= shown@.skip(i + 1));
        }
        let inside: bool = match e {
            Escape::Outside => false,
            Escape::Begun => c == '[',
            Escape::Inside => true,
        };
        if inside && shown[i] {
            count = count + 1;
        }
        e = match e {
            Escape::Outside => if c == '\u{1b}' {
                Escape::Begun
            } else {
                Escape::Outside
            },
            Escape::Begun => if c == '[' {
                Escape::Inside
            } else {
                Escape::Outside
            },
            Escape::Inside => if c == 'm' {
                Escape::Outside
            } else {
                Escape::Inside
            },
        };
        i = i + 1;
    }
    assert(line@.skip(n as int) =~= Seq::<char>::empty());
    count
}

/// Whether the width of a line can be measured. That of a line in ASCII can.
pub fn is_measurable(line: &str) -> (r: bool)
    ensures
        r == measurable(line@),
        ascii_line(line@) ==> r,
{
    let x = chars_of(line);
    let n: usize = x.len();
    let mut shown: Vec<bool> = Vec::new();
    let mut i: usize = 0;
    while i < n
        invariant
            i <= n,
            n == x@.len(),
            shown@ == shown_in(x@).take(i as int),
        decreases n - i,
    {
        let ghost q = shown@;
        let takes: bool = match columns_of_char(x[i]) {
            Some(k) => k > 0,
            None => false,
        };
        shown.push(takes);
        assert(shown_in(x@).take(i + 1) =~= q.push(takes));
        i = i + 1;
    }
    assert(shown_in(x@).take(n as int) =~= shown_in(x@));
    count_hidden(&x, &shown) <= columns_of_line(line)
}

/// No character of a line without an escape character belongs to an escape sequence.
pub(crate) proof fn lemma_unescaped_line(line: Seq<char>, shown: Seq<bool>)
    requires
        unescaped(line),
    ensures
        hidden_from(line, shown, Escape::Outside) == 0,
    decreases line.len(),
{
    if line.len() > 0 {
        assert(line[0] != '\u{1b}');
        let t = line.drop_first();
        assert forall|i: int| 0 <= i < t.len() implies #[trigger] t[i] != '\u{1b}' by {
            assert(t[i] == line[i + 1]);
        }
        lemma_unescaped_line(t, shown.drop_first());
    }
}

/// The lines of a text are made of its characters, and hold no newline.
pub(crate) proof fn lemma_lines_hold(s: Seq<char>, cur: Seq<char>, p: spec_fn(char) -> bool)
    requires
        forall|i: int| 0 <= i < s.len() ==> p(#[trigger] s[i]),
        forall|i: int| 0 <= i < cur.len() ==> p(#[trigger] cur[i]) && cur[i] != '\n',
    ensures
        forall|k: int, i: int|
            0 <= k < lines_from(s, cur).len() && 0 <= i < lines_from(s, cur)[k].len() ==> p(
                #[trigger] lines_from(s, cur)[k][i],
            ) && lines_from(s, cur)[k][i] != '\n',
    decreases s.len(),
{
    let v = lines_from(s, cur);
    if s.len() > 0 {
        let t = s.drop_first();
        assert forall|i: int| 0 <= i < t.len() implies p(#[trigger] t[i]) by {
            assert(t[i] == s[i + 1]);
        }
        assert(p(s[0]));
        if s[0] == '\n' {
            lemma_lines_hold(t, Seq::empty(), p);
            let w = lines_from(t, Seq::empty());
            let first = strip_cr(cur);
            assert(v =~= seq![first] + w);
            assert forall|k: int, i: int| 0 <= k < v.len() && 0 <= i < v[k].len() implies p(
                #[trigger] v[k][i],
            ) && v[k][i] != '\n' by {
                if k == 0 {
                    assert(v[k][i] == cur[i]);
                } else {
                    assert(v[k] == w[k - 1]);
                    assert(p(w[k - 1][i]));
                }
            }
        } else {
            let next = cur.push(s[0]);
            assert forall|i: int| 0 <= i < next.len() implies p(#[trigger] next[i]) && next[i]
                != '\n' by {
                if i < cur.len() {
                    assert(next[i] == cur[i]);
                }
            }
            lemma_lines_hold(t, next, p);
            assert(v == lines_from(t, next));
        }
    } else {
        assert forall|k: int, i: int| 0 <= k < v.len() && 0 <= i < v[k].len() implies p(
            #[trigger] v[k][i],
        ) && v[k][i] != '\n' by {
            assert(v[k][i] == cur[i]);
        }
    }
}

/// The lines of a text without an escape character can be measured.
pub(crate) proof fn lemma_unescaped_lines(s: Seq<char>)
    requires
        unescaped(s),
    ensures
        forall|k: int| 0 <= k < lines_of(s).len() ==> measurable(#[trigger] lines_of(s)[k]),
{
    let p = |c: char| c != '\u{1b}';
    lemma_lines_hold(s, Seq::empty(), p);
    assert forall|k: int| 0 <= k < lines_of(s).len() implies measurable(
        #[trigger] lines_of(s)[k],
    ) by {
        let line = lines_of(s)[k];
        assert forall|i: int| 0 <= i < line.len() implies #[trigger] line[i] != '\u{1b}' by {
            assert(p(lines_from(s, Seq::empty())[k][i]));
        }
        lemma_unescaped_line(line, shown_in(line));
    }
}

/// The lines of a text in ASCII are in ASCII.
pub(crate) proof fn lemma_ascii_lines(s: Seq<char>)
    requires
        forall|i: int| 0 <= i < s.len() ==> ascii(#[trigger] s[i]),
    ensures
        forall|k: int| 0 <= k < lines_of(s).len() ==> ascii_line(#[trigger] lines_of(s)[k]),
{
    let p = |c: char| ascii(c);
    lemma_lines_hold(s, Seq::empty(), p);
    assert forall|k: int| 0 <= k < lines_of(s).len() implies ascii_line(
        #[trigger] lines_of(s)[k],
    ) by {
        let line = lines_of(s)[k];
        assert forall|i: int| 0 <= i < line.len() implies ascii(#[trigger] line[i]) && line[i]
            != '\n' by {
            assert(p(lines_from(s, Seq::empty())[k][i]));
        }
    }
}

} // verus!
