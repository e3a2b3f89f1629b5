//! Operations on text, stated over sequences of characters.
use vstd::prelude::*;
use vstd::string::*;

verus! {

// ---------------------------------------------------------------------------
// What the operations mean
// ---------------------------------------------------------------------------

/// `pat` stands in `s` at position `i`.
pub open spec fn occurs_at(s: Seq<char>, pat: Seq<char>, i: int) -> bool {
    &&& 0 <= i
    &&& i + pat.len() <= s.len()
    &&& s.subrange(i, i + pat.len()) == pat
}

/// `pat` stands somewhere in `s`.
pub open spec fn contains_text(s: Seq<char>, pat: Seq<char>) -> bool {
    exists|i: int| occurs_at(s, pat, i)
}

/// `i` is the leftmost position at which `pat` stands in `s`.
pub open spec fn first_at(s: Seq<char>, pat: Seq<char>, i: int) -> bool {
    &&& occurs_at(s, pat, i)
    &&& forall|j: int| 0 <= j < i ==> !occurs_at(s, pat, j)
}

/// `s` begins with `pat`.
pub open spec fn begins_with(s: Seq<char>, pat: Seq<char>) -> bool {
    occurs_at(s, pat, 0)
}

/// `s` without a leading `pat`, or `s` itself where there is none.
pub open spec fn without_prefix(s: Seq<char>, pat: Seq<char>) -> Seq<char> {
    if begins_with(s, pat) {
        s.subrange(pat.len() as int, s.len() as int)
    } else {
        s
    }
}

/// The pieces of `s` between the occurrences of `sep`.
pub open spec fn split_on(s: Seq<char>, sep: char) -> Seq<Seq<char>>
    decreases s.len(),
{
    if s.len() == 0 {
        seq![s]
    } else {
        let rest = split_on(s.drop_first(), sep);
        if s[0] == sep {
            seq![Seq::<char>::empty()] + rest
        } else {
            seq![seq![s[0]] + rest[0]] + rest.drop_first()
        }
    }
}

/// `s` without one carriage return at its end.
pub open spec fn strip_cr(s: Seq<char>) -> Seq<char> {
    if s.len() > 0 && s.last() == '\r' {
        s.drop_last()
    } else {
        s
    }
}

/// The lines of the text `s`: each ends at a newline, which does not belong to
/// it, nor does a carriage return right before that newline; what follows the
/// last newline is a line where it is not empty.
pub open spec fn lines_of(s: Seq<char>) -> Seq<Seq<char>>
    decreases s.len(),
{
    lines_from(s, Seq::empty())
}

/// The lines of `cur + s` where `cur` holds no newline.
pub open spec fn lines_from(s: Seq<char>, cur: Seq<char>) -> Seq<Seq<char>>
    decreases s.len(),
{
    if s.len() == 0 {
        if cur.len() == 0 {
            Seq::empty()
        } else {
            seq![cur]
        }
    } else if s[0] == '\n' {
        seq![strip_cr(cur)] + lines_from(s.drop_first(), Seq::empty())
    } else {
        lines_from(s.drop_first(), cur.push(s[0]))
    }
}

/// The characters with the Unicode property White_Space.
pub open spec fn is_space(c: char) -> bool {
    ||| '\u{9}' <= c <= '\u{d}'
    ||| c == ' '
    ||| c == '\u{85}'
    ||| c == '\u{a0}'
    ||| c == '\u{1680}'
    ||| '\u{2000}' <= c <= '\u{200a}'
    ||| c == '\u{2028}'
    ||| c == '\u{2029}'
    ||| c == '\u{202f}'
    ||| c == '\u{205f}'
    ||| c == '\u{3000}'
}

/// `s` without its leading and trailing white space.
pub open spec fn trimmed(s: Seq<char>) -> Seq<char>
    decreases s.len(),
{
    if s.len() == 0 {
        s
    } else if is_space(s[0]) {
        trimmed(s.drop_first())
    } else if is_space(s.last()) {
        trimmed(s.drop_last())
    } else {
        s
    }
}

/// `s` with each occurrence of `from` replaced by `to`, taken from the left and
/// without overlap.
pub open spec fn replaced(s: Seq<char>, from: Seq<char>, to: Seq<char>) -> Seq<char>
    decreases s.len(),
{
    if s.len() == 0 || from.len() == 0 {
        s
    } else if begins_with(s, from) {
        to + replaced(s.skip(from.len() as int), from, to)
    } else {
        seq![s[0]] + replaced(s.drop_first(), from, to)
    }
}

/// The texts `parts`, one behind the other, with `sep` between two of them.
pub open spec fn joined(parts: Seq<Seq<char>>, sep: Seq<char>) -> Seq<char>
    decreases parts.len(),
{
    if parts.len() == 0 {
        Seq::empty()
    } else if parts.len() == 1 {
        parts[0]
    } else {
        joined(parts.drop_last(), sep) + sep + parts.last()
    }
}

/// `a` comes before `b`: by the first character in which they differ, or as a
/// proper prefix of it.
pub open spec fn text_before(a: Seq<char>, b: Seq<char>) -> bool
    decreases a.len(),
{
    if b.len() == 0 {
        false
    } else if a.len() == 0 {
        true
    } else if a[0] != b[0] {
        a[0] < b[0]
    } else {
        text_before(a.drop_first(), b.drop_first())
    }
}

/// The views of a list of texts.
pub open spec fn views(v: Seq<String>) -> Seq<Seq<char>> {
    v.map_values(|s: String| s@)
}

// ---------------------------------------------------------------------------
// Trusted: functions of std
// ---------------------------------------------------------------------------

/// `String::push` appends one character.
pub assume_specification[ String::push ](s: &mut String, c: char)
    ensures
        final(s)@ == old(s)@.push(c),
;

/// The lower case of a text by Unicode's tables.
pub uninterp spec fn lowercase(s: Seq<char>) -> Seq<char>;

/// `str::to_lowercase`: the result depends on the text alone; which character
/// becomes which is left to Unicode's tables.
#[verifier::external_body]
pub(crate) fn to_lower(s: &str) -> (r: String)
    ensures
        r@ == lowercase(s@),
{
    s.to_lowercase()
}

// ---------------------------------------------------------------------------
// Operations
// ---------------------------------------------------------------------------

/// The characters of `s`.
pub fn chars_of(s: &str) -> (r: Vec<char>)
    ensures
        r@ == s@,
{
    let mut r: Vec<char> = Vec::new();
    for c in it: s.chars()
        invariant
            r@ == it.seq().take(it.index() as int),
            it.seq() == s@,
    {
        r.push(c);
        assert(it.seq().take(it.index() + 1) =~= it.seq().take(it.index() as int).push(c));
    }
    assert(s@.take(s@.len() as int) =~= s@);
    r
}

/// The text that `v` holds from `lo` up to `hi`.
pub fn text_of(v: &Vec<char>, lo: usize, hi: usize) -> (r: String)
    requires
        lo <= hi <= v@.len(),
    ensures
        r@ == v@.subrange(lo as int, hi as int),
{
    let mut r = String::new();
    let mut i: usize = lo;
    while i < hi
        invariant
            lo <= i <= hi <= v@.len(),
            r@ == v@.subrange(lo as int, i as int),
        decreases hi - i,
    {
        r.push(v[i]);
        i = i + 1;
        assert(v@.subrange(lo as int, i as int) =~= v@.subrange(lo as int, i - 1).push(
            v@[i - 1],
        ));
    }
    r
}

/// Whether two texts are the same.
pub fn same_text(a: &str, b: &str) -> (r: bool)
    ensures
        r == (a@ == b@),
{
    let x = chars_of(a);
    let y = chars_of(b);
    if x.len() != y.len() {
        return false;
    }
    let n: usize = x.len();
    let mut i: usize = 0;
    while i < n
        invariant
            i <= n,
            n == x@.len() == y@.len(),
            x@ == a@,
            y@ == b@,
            forall|k: int| 0 <= k < i ==> x@[k] == y@[k],
        decreases n - i,
    {
        if x[i] != y[i] {
            return false;
        }
        i = i + 1;
    }
    assert(a@ =~= b@);
    true
}

/// Whether `pat` stands in `s` at position `i`.
fn matches_at(s: &Vec<char>, pat: &Vec<char>, i: usize) -> (r: bool)
    ensures
        r == occurs_at(s@, pat@, i as int),
{
    if i > s.len() || pat.len() > s.len() - i {
        return false;
    }
    let m: usize = s.len();
    let n: usize = pat.len();
    let mut k: usize = 0;
    while k < n
        invariant
            k <= n,
            n == pat@.len(),
            m == s@.len(),
            i + n <= m,
            forall|j: int| 0 <= j < k ==> s@[i + j] == pat@[j],
        decreases n - k,
    {
        if s[i + k] != pat[k] {
            proof {
                assert(s@.subrange(i as int, i + n)[k as int] == s@[i + k]);
            }
            return false;
        }
        k = k + 1;
    }
    assert(s@.subrange(i as int, i + n) =~= pat@);
    true
}

/// The leftmost position of `pat` in `s`, counted in characters.
pub fn position_of(s: &Vec<char>, pat: &Vec<char>) -> (r: Option<usize>)
    ensures
        (match r {
            Some(i) => first_at(s@, pat@, i as int),
            None => !contains_text(s@, pat@),
        }),
{
    let n: usize = s.len();
    let mut i: usize = 0;
    while i < n
        invariant
            i <= n,
            n == s@.len(),
            forall|j: int| 0 <= j < i ==> !occurs_at(s@, pat@, j),
        decreases n - i,
    {
        if matches_at(s, pat, i) {
            return Some(i);
        }
        i = i + 1;
    }
    if matches_at(s, pat, n) {
        return Some(n);
    }
    assert forall|j: int| !occurs_at(s@, pat@, j) by {
        if 0 <= j && j + pat@.len() <= n {
            assert(j <= n);
        }
    }
    None
}

/// Whether `pat` stands somewhere in `s`.
pub fn contains(s: &str, pat: &str) -> (r: bool)
    ensures
        r == contains_text(s@, pat@),
{
    let x = chars_of(s);
    let y = chars_of(pat);
    position_of(&x, &y).is_some()
}

/// Whether `s` begins with `pat`.
pub fn starts_with(s: &str, pat: &str) -> (r: bool)
    ensures
        r == begins_with(s@, pat@),
{
    let x = chars_of(s);
    let y = chars_of(pat);
    matches_at(&x, &y, 0)
}

/// `s` without a leading `pat`, or `s` itself where there is none.
pub fn strip_prefix_or_self(s: &str, pat: &str) -> (r: String)
    ensures
        r@ == without_prefix(s@, pat@),
{
    let x = chars_of(s);
    let y = chars_of(pat);
    if matches_at(&x, &y, 0) {
        text_of(&x, y.len(), x.len())
    } else {
        s.to_owned()
    }
}

/// What stands before and what stands behind the leftmost `sep` in `s`.
pub fn split_once(s: &str, sep: &str) -> (r: Option<(String, String)>)
    ensures
        (match r {
            Some((a, b)) => first_at(s@, sep@, a@.len() as int) && s@ == a@ + sep@ + b@,
            None => !contains_text(s@, sep@),
        }),
{
    let x = chars_of(s);
    let y = chars_of(sep);
    match position_of(&x, &y) {
        Some(i) => {
            let n: usize = x.len();
            let a = text_of(&x, 0, i);
            let b = text_of(&x, i + y.len(), n);
            assert(s@ =~= a@ + sep@ + b@) by {
                assert(s@.subrange(i as int, i + y@.len()) == y@);
            }
            Some((a, b))
        },
        None => None,
    }
}

/// The pieces of `s` between the occurrences of `sep`.
pub fn split_char(s: &str, sep: char) -> (r: Vec<String>)
    ensures
        views(r@) == split_on(s@, sep),
{
    let x = chars_of(s);
    let n: usize = x.len();
    // From the right: `r` holds the finished pieces of the tail in reverse.
    let mut done: Vec<String> = Vec::new();
    let mut end: usize = n;
    let mut i: usize = n;
    proof {
        assert(x@.subrange(n as int, n as int) =~= Seq::<char>::empty());
        assert(x@.skip(n as int) =~= Seq::<char>::empty());
        assert(split_on(x@.skip(n as int), sep) =~= seq![x@.subrange(n as int, n as int)] + views(
            done@,
        ).reverse());
    }
    while i > 0
        invariant
            i <= end <= n,
            n == x@.len(),
            x@ == s@,
            split_on(x@.skip(i as int), sep) == seq![x@.subrange(i as int, end as int)] + views(
                done@,
            ).reverse(),
        decreases i,
    {
        let ghost tail = split_on(x@.skip(i as int), sep);
        let ghost before = done@;
        let c = x[i - 1];
        proof {
            assert(x@.skip(i - 1).drop_first() =~= x@.skip(i as int));
            assert(x@.skip(i - 1)[0] == c);
        }
        if c == sep {
            let piece = text_of(&x, i, end);
            done.push(piece);
            proof {
                assert(views(done@) =~= views(before).push(piece@));
                assert(views(done@).reverse() =~= seq![piece@] + views(before).reverse());
                assert(x@.subrange(i - 1, i - 1) =~= Seq::<char>::empty());
                assert(split_on(x@.skip(i - 1), sep) =~= seq![Seq::<char>::empty()] + tail);
            }
            end = i - 1;
        } else {
            proof {
                assert(tail[0] == x@.subrange(i as int, end as int));
                assert(tail.drop_first() =~= views(before).reverse());
                assert(seq![c] + x@.subrange(i as int, end as int) =~= x@.subrange(
                    i - 1,
                    end as int,
                ));
            }
        }
        i = i - 1;
    }
    let first = text_of(&x, 0, end);
    done.push(first);
    let mut r: Vec<String> = Vec::new();
    let ghost all = done@;
    while done.len() > 0
        invariant
            r@ + done@.reverse() == all.reverse(),
        decreases done@.len(),
    {
        let ghost d = done@;
        let ghost q = r@;
        match done.pop() {
            Some(t) => {
                r.push(t);
                proof {
                    assert(d =~= done@.push(t));
                    assert(d.reverse() =~= seq![t] + done@.reverse());
                    assert(r@ + done@.reverse() =~= q + d.reverse());
                }
            },
            None => {},
        }
    }
    proof {
        assert(done@.reverse() =~= Seq::<String>::empty());
        assert(r@ =~= all.reverse());
        assert(x@.skip(0) =~= x@);
        assert(views(r@) =~= views(all).reverse());
        assert(views(all) =~= views(all.drop_last()).push(first@));
        assert(views(all).reverse() =~= seq![first@] + views(all.drop_last()).reverse());
    }
    r
}

/// The lines of the text `s`.
pub fn lines(s: &str) -> (r: Vec<String>)
    ensures
        views(r@) == lines_of(s@),
{
    let x = chars_of(s);
    let n: usize = x.len();
    let mut r: Vec<String> = Vec::new();
    let mut start: usize = 0;
    let mut i: usize = 0;
    proof {
        assert(x@.skip(0) =~= x@);
        assert(x@.subrange(0, 0) =~= Seq::<char>::empty());
        assert(views(r@) =~= Seq::<Seq<char>>::empty());
        assert(views(r@) + lines_from(x@, Seq::empty()) =~= lines_of(s@));
    }
    while i < n
        invariant
            start <= i <= n,
            n == x@.len(),
            x@ == s@,
            lines_of(s@) == views(r@) + lines_from(
                x@.skip(i as int),
                x@.subrange(start as int, i as int),
            ),
        decreases n - i,
    {
        let ghost cur = x@.subrange(start as int, i as int);
        let ghost q = r@;
        proof {
            assert(x@.skip(i as int).drop_first() =~= x@.skip(i + 1));
            assert(x@.skip(i as int)[0] == x@[i as int]);
        }
        if x[i] == '\n' {
            let hi: usize = if i > start && x[i - 1] == '\r' {
                i - 1
            } else {
                i
            };
            let line = text_of(&x, start, hi);
            r.push(line);
            proof {
                assert(cur.len() == i - start);
                if cur.len() > 0 {
                    assert(cur.last() == x@[i - 1]);
                }
                assert(line@ =~= strip_cr(cur));
                assert(views(r@) =~= views(q).push(line@));
                assert(x@.subrange(i + 1, i + 1) =~= Seq::<char>::empty());
                assert(views(q) + (seq![line@] + lines_from(x@.skip(i + 1), Seq::empty()))
                    =~= views(r@) + lines_from(x@.skip(i + 1), Seq::empty()));
            }
            start = i + 1;
        } else {
            proof {
                assert(cur.push(x@[i as int]) =~= x@.subrange(start as int, i + 1));
            }
        }
        i = i + 1;
    }
    if start < n {
        let ghost q = r@;
        let line = text_of(&x, start, n);
        r.push(line);
        proof {
            assert(x@.skip(n as int) =~= Seq::<char>::empty());
            assert(views(r@) =~= views(q) + seq![line@]);
        }
    } else {
        proof {
            assert(x@.skip(n as int) =~= Seq::<char>::empty());
            assert(views(r@) =~= views(r@) + Seq::<Seq<char>>::empty());
        }
    }
    r
}

/// Whether `c` is white space.
fn space(c: char) -> (r: bool)
    ensures
        r == is_space(c),
{
    ('\u{9}' <= c && c <= '\u{d}') || c == ' ' || c == '\u{85}' || c == '\u{a0}' || c == '\u{1680}'
        || ('\u{2000}' <= c && c <= '\u{200a}') || c == '\u{2028}' || c == '\u{2029}' || c
        == '\u{202f}' || c == '\u{205f}' || c == '\u{3000}'
}

/// `s` without its leading and trailing white space.
pub fn trim(s: &str) -> (r: String)
    ensures
        r@ == trimmed(s@),
{
    let x = chars_of(s);
    let n: usize = x.len();
    let mut lo: usize = 0;
    assert(x@.subrange(0, n as int) =~= x@);
    while lo < n && space(x[lo])
        invariant
            lo <= n,
            n == x@.len(),
            trimmed(x@.subrange(lo as int, n as int)) == trimmed(s@),
        decreases n - lo,
    {
        proof {
            let t = x@.subrange(lo as int, n as int);
            assert(t[0] == x@[lo as int]);
            assert(t.drop_first() =~= x@.subrange(lo + 1, n as int));
        }
        lo = lo + 1;
    }
    let mut hi: usize = n;
    while hi > lo && space(x[hi - 1])
        invariant
            lo <= hi <= n,
            n == x@.len(),
            lo < hi ==> !is_space(x@[lo as int]),
            trimmed(x@.subrange(lo as int, hi as int)) == trimmed(s@),
        decreases hi - lo,
    {
        proof {
            let t = x@.subrange(lo as int, hi as int);
            assert(t[0] == x@[lo as int]);
            assert(t.last() == x@[hi - 1]);
            assert(t.drop_last() =~= x@.subrange(lo as int, hi - 1));
        }
        hi = hi - 1;
    }
    proof {
        let t = x@.subrange(lo as int, hi as int);
        if lo < hi {
            assert(t[0] == x@[lo as int]);
            assert(t.last() == x@[hi - 1]);
        }
    }
    text_of(&x, lo, hi)
}

/// `s` with each occurrence of `from` replaced by `to`.
pub fn replace(s: &str, from: &str, to: &str) -> (r: String)
    requires
        from@.len() > 0,
    ensures
        r@ == replaced(s@, from@, to@),
{
    let x = chars_of(s);
    let y = chars_of(from);
    let n: usize = x.len();
    let mut r = String::new();
    let mut i: usize = 0;
    proof {
        assert(x@.skip(0) =~= x@);
        assert(r@ + replaced(x@, y@, to@) =~= replaced(s@, from@, to@));
    }
    while i < n
        invariant
            i <= n,
            n == x@.len(),
            y@.len() > 0,
            y@ == from@,
            replaced(s@, from@, to@) == r@ + replaced(x@.skip(i as int), y@, to@),
        decreases n - i,
    {
        let ghost q = r@;
        let ghost t = x@.skip(i as int);
        if matches_at(&x, &y, i) {
            r.append(to);
            proof {
                assert(t.subrange(0, y@.len() as int) =~= x@.subrange(i as int, i + y@.len()));
                assert(t.skip(y@.len() as int) =~= x@.skip(i + y@.len()));
                assert(r@ + replaced(x@.skip(i + y@.len()), y@, to@) =~= q + (to@ + replaced(
                    x@.skip(i + y@.len()),
                    y@,
                    to@,
                )));
            }
            i = i + y.len();
        } else {
            r.push(x[i]);
            proof {
                if begins_with(t, y@) {
                    assert(t.subrange(0, y@.len() as int) =~= x@.subrange(i as int, i + y@.len()));
                }
                assert(t[0] == x@[i as int]);
                assert(t.drop_first() =~= x@.skip(i + 1));
                assert(r@ + replaced(x@.skip(i + 1), y@, to@) =~= q + (seq![x@[i as int]]
                    + replaced(x@.skip(i + 1), y@, to@)));
            }
            i = i + 1;
        }
    }
    proof {
        assert(x@.skip(n as int) =~= Seq::<char>::empty());
        assert(r@ + Seq::<char>::empty() =~= r@);
    }
    r
}

/// The texts `parts`, with `sep` between two of them.
pub fn join(parts: &Vec<String>, sep: &str) -> (r: String)
    ensures
        r@ == joined(views(parts@), sep@),
{
    let n: usize = parts.len();
    let mut r = String::new();
    let mut i: usize = 0;
    while i < n
        invariant
            i <= n,
            n == parts@.len(),
            r@ == joined(views(parts@).take(i as int), sep@),
        decreases n - i,
    {
        if i > 0 {
            r.append(sep);
        }
        r.append(parts[i].as_str());
        proof {
            let v = views(parts@);
            assert(v.take(i + 1).drop_last() =~= v.take(i as int));
            assert(v.take(i + 1).last() == parts@[i as int]@);
            if i == 0 {
                assert(r@ =~= parts@[0]@);
            }
        }
        i = i + 1;
    }
    assert(views(parts@).take(n as int) =~= views(parts@));
    r
}

/// Whether `a` comes before `b`.
pub fn before(a: &str, b: &str) -> (r: bool)
    ensures
        r == text_before(a@, b@),
{
    let x = chars_of(a);
    let y = chars_of(b);
    let mut i: usize = 0;
    proof {
        assert(x@.skip(0) =~= x@);
        assert(y@.skip(0) =~= y@);
    }
    while i < x.len() && i < y.len()
        invariant
            i <= x@.len(),
            i <= y@.len(),
            x@ == a@,
            y@ == b@,
            text_before(x@.skip(i as int), y@.skip(i as int)) == text_before(a@, b@),
        decreases x@.len() - i,
    {
        proof {
            assert(x@.skip(i as int)[0] == x@[i as int]);
            assert(y@.skip(i as int)[0] == y@[i as int]);
            assert(x@.skip(i as int).drop_first() =~= x@.skip(i + 1));
            assert(y@.skip(i as int).drop_first() =~= y@.skip(i + 1));
        }
        if x[i] != y[i] {
            return x[i] < y[i];
        }
        i = i + 1;
    }
    i < y.len()
}

// ---------------------------------------------------------------------------
// What holds of the operations
// ---------------------------------------------------------------------------

/// A text stands at a place where each of its characters does; it stands in another where
/// there is such a place, first at the leftmost, and begins it where that is the first.
pub proof fn law_where_a_text_stands(s: Seq<char>, pat: Seq<char>, i: int)
    ensures
        occurs_at(s, pat, i) <==> 0 <= i && i + pat.len() <= s.len() && forall|k: int|
            0 <= k < pat.len() ==> s[i + k] == #[trigger] pat[k],
        contains_text(s, pat) <==> exists|j: int| #[trigger] occurs_at(s, pat, j),
        first_at(s, pat, i) <==> occurs_at(s, pat, i) && forall|j: int|
            0 <= j < i ==> !#[trigger] occurs_at(s, pat, j),
        begins_with(s, pat) <==> s.len() >= pat.len() && s.take(pat.len() as int) == pat,
        begins_with(s, pat) ==> pat + without_prefix(s, pat) == s,
        !begins_with(s, pat) ==> without_prefix(s, pat) == s,
{
    if 0 <= i && i + pat.len() <= s.len() {
        let t = s.subrange(i, i + pat.len());
        if forall|k: int| 0 <= k < pat.len() ==> s[i + k] == #[trigger] pat[k] {
            assert(t =~= pat);
        }
        if t == pat {
            assert forall|k: int| 0 <= k < pat.len() implies s[i + k] == #[trigger] pat[k] by {
                assert(t[k] == s[i + k]);
            }
        }
    }
    if s.len() >= pat.len() {
        assert(s.take(pat.len() as int) =~= s.subrange(0, pat.len() as int));
    }
    if begins_with(s, pat) {
        assert(pat + without_prefix(s, pat) =~= s);
    }
}

/// The pieces of a text: one without the separator is one piece, and what stands before
/// the first separator is the first piece, with those of what stands behind it after it.
pub proof fn law_pieces_of_a_text(a: Seq<char>, b: Seq<char>, sep: char)
    requires
        !a.contains(sep),
    ensures
        split_on(a, sep) == seq![a],
        split_on(a + seq![sep] + b, sep) == seq![a] + split_on(b, sep),
    decreases a.len(),
{
    if a.len() == 0 {
        let t = a + seq![sep] + b;
        assert(t[0] == sep);
        assert(t.drop_first() =~= b);
        assert(a =~= Seq::<char>::empty());
    } else {
        let c = a.drop_first();
        assert(!c.contains(sep)) by {
            if c.contains(sep) {
                let i = choose|i: int| 0 <= i < c.len() && c[i] == sep;
                assert(a[i + 1] == sep);
            }
        }
        law_pieces_of_a_text(c, b, sep);
        assert(a[0] != sep);
        assert(seq![a[0]] + c =~= a);
        assert(split_on(a, sep) =~= seq![a]);
        let t = a + seq![sep] + b;
        assert(t[0] == a[0]);
        assert(t.drop_first() =~= c + seq![sep] + b);
        let rest = seq![c] + split_on(b, sep);
        assert(rest[0] == c);
        assert(rest.drop_first() =~= split_on(b, sep));
        assert(split_on(t, sep) =~= seq![a] + split_on(b, sep));
    }
}

/// The lines of a text: what stands before the first newline is the first line, without a
/// carriage return at its end, with those of what stands behind it after it; a text without
/// a newline is one line as it is, or none where it is empty.
pub proof fn law_lines_of_a_text(a: Seq<char>, b: Seq<char>)
    requires
        !a.contains('\n'),
    ensures
        a.len() == 0 ==> lines_of(a).len() == 0,
        a.len() > 0 ==> lines_of(a) == seq![a],
        a.len() > 0 && a[a.len() - 1] == '\r' ==> lines_of(a + seq!['\n'] + b) == seq![
            a.take(a.len() - 1),
        ] + lines_of(b),
        a.len() == 0 || a[a.len() - 1] != '\r' ==> lines_of(a + seq!['\n'] + b) == seq![a]
            + lines_of(b),
{
    lemma_lines_split(a, b, Seq::empty());
    assert(Seq::<char>::empty() + a =~= a);
    if a.len() > 0 {
        assert(a.take(a.len() - 1) =~= a.drop_last());
    }
}

proof fn lemma_lines_split(a: Seq<char>, b: Seq<char>, cur: Seq<char>)
    requires
        !a.contains('\n'),
    ensures
        lines_from(a, cur) == (if (cur + a).len() == 0 {
            Seq::<Seq<char>>::empty()
        } else {
            seq![cur + a]
        }),
        lines_from(a + seq!['\n'] + b, cur) == seq![strip_cr(cur + a)] + lines_from(
            b,
            Seq::empty(),
        ),
    decreases a.len(),
{
    let t = a + seq!['\n'] + b;
    if a.len() == 0 {
        assert(cur + a =~= cur);
        assert(t[0] == '\n');
        assert(t.drop_first() =~= b);
    } else {
        let c = a.drop_first();
        assert(!c.contains('\n')) by {
            if c.contains('\n') {
                let i = choose|i: int| 0 <= i < c.len() && c[i] == '\n';
                assert(a[i + 1] == '\n');
            }
        }
        assert(a[0] != '\n');
        lemma_lines_split(c, b, cur.push(a[0]));
        assert(cur.push(a[0]) + c =~= cur + a);
        assert(t[0] == a[0]);
        assert(t.drop_first() =~= c + seq!['\n'] + b);
    }
}

/// The characters that are white space, by their numbers.
pub proof fn law_which_characters_are_space(c: char)
    ensures
        is_space(c) <==> {
            let n = c as int;
            ||| 9 <= n <= 13
            ||| n == 32
            ||| n == 133
            ||| n == 160
            ||| n == 5760
            ||| 8192 <= n <= 8202
            ||| n == 8232
            ||| n == 8233
            ||| n == 8239
            ||| n == 8287
            ||| n == 12288
        },
{
}

/// What is left of a text without the white space around it: a part of it, between the
/// two places that come back, that neither begins nor ends with white space, while all
/// before and behind it is.
pub proof fn law_what_trimming_leaves(s: Seq<char>) -> (part: (int, int))
    ensures
        0 <= part.0 <= part.1 <= s.len(),
        trimmed(s) == s.subrange(part.0, part.1),
        part.0 < part.1 ==> !is_space(s[part.0]) && !is_space(s[part.1 - 1]),
        forall|i: int| 0 <= i < part.0 ==> is_space(#[trigger] s[i]),
        forall|i: int| part.1 <= i < s.len() ==> is_space(#[trigger] s[i]),
{
    let part = lemma_trimmed_part(s);
    reveal(solid_between);
    part
}

/// Between the places `lo` and `hi` the text neither begins nor ends with white space,
/// and all around them is.
#[verifier::opaque]
spec fn solid_between(s: Seq<char>, lo: int, hi: int) -> bool {
    &&& 0 <= lo <= hi <= s.len()
    &&& lo < hi ==> !is_space(s[lo]) && !is_space(s[hi - 1])
    &&& forall|i: int| 0 <= i < lo ==> is_space(#[trigger] s[i])
    &&& forall|i: int| hi <= i < s.len() ==> is_space(#[trigger] s[i])
}

proof fn lemma_trimmed_part(s: Seq<char>) -> (part: (int, int))
    ensures
        solid_between(s, part.0, part.1),
        trimmed(s) == s.subrange(part.0, part.1),
    decreases s.len(),
{
    if s.len() == 0 {
        assert(s.subrange(0, 0) =~= s);
        assert(solid_between(s, 0, 0)) by {
            reveal(solid_between);
        }
        (0, 0)
    } else if is_space(s[0]) {
        let p = lemma_trimmed_part(s.drop_first());
        lemma_solid_behind(s, p.0, p.1);
        (p.0 + 1, p.1 + 1)
    } else if is_space(s.last()) {
        let p = lemma_trimmed_part(s.drop_last());
        lemma_solid_before(s, p.0, p.1);
        p
    } else {
        assert(s.subrange(0, s.len() as int) =~= s);
        assert(solid_between(s, 0, s.len() as int)) by {
            reveal(solid_between);
        }
        (0, s.len() as int)
    }
}

proof fn lemma_solid_behind(s: Seq<char>, lo: int, hi: int)
    requires
        s.len() > 0,
        is_space(s[0]),
        solid_between(s.drop_first(), lo, hi),
    ensures
        solid_between(s, lo + 1, hi + 1),
        s.drop_first().subrange(lo, hi) == s.subrange(lo + 1, hi + 1),
{
    reveal(solid_between);
    let t = s.drop_first();
    assert(t.subrange(lo, hi) =~= s.subrange(lo + 1, hi + 1));
    assert forall|i: int| 0 <= i < lo + 1 implies is_space(#[trigger] s[i]) by {
        if i > 0 {
            assert(t[i - 1] == s[i]);
        }
    }
    assert forall|i: int| hi + 1 <= i < s.len() implies is_space(#[trigger] s[i]) by {
        assert(t[i - 1] == s[i]);
    }
}

proof fn lemma_solid_before(s: Seq<char>, lo: int, hi: int)
    requires
        s.len() > 0,
        is_space(s.last()),
        solid_between(s.drop_last(), lo, hi),
    ensures
        solid_between(s, lo, hi),
        s.drop_last().subrange(lo, hi) == s.subrange(lo, hi),
{
    reveal(solid_between);
    let t = s.drop_last();
    assert(t.subrange(lo, hi) =~= s.subrange(lo, hi));
    assert forall|i: int| 0 <= i < lo implies is_space(#[trigger] s[i]) by {
        assert(t[i] == s[i]);
    }
    assert forall|i: int| hi <= i < s.len() implies is_space(#[trigger] s[i]) by {
        if i < t.len() {
            assert(t[i] == s[i]);
        }
    }
}

/// The text with the occurrences replaced: up to the first of them it stays, and behind it
/// goes on in the same way; where there is none, all of it stays.
pub proof fn law_what_replacing_gives(s: Seq<char>, from: Seq<char>, to: Seq<char>, i: int)
    requires
        from.len() > 0,
    ensures
        !contains_text(s, from) ==> replaced(s, from, to) == s,
        first_at(s, from, i) ==> replaced(s, from, to) == s.take(i) + to + replaced(
            s.skip(i + from.len()),
            from,
            to,
        ),
    decreases s.len(),
{
    if s.len() > 0 {
        let t = s.drop_first();
        assert forall|j: int| occurs_at(t, from, j) <==> j >= 0 && #[trigger] occurs_at(
            s,
            from,
            j + 1,
        ) by {
            if 0 <= j && j + from.len() <= t.len() {
                assert(t.subrange(j, j + from.len()) =~= s.subrange(j + 1, j + 1 + from.len()));
            }
        }
        if begins_with(s, from) {
            assert(occurs_at(s, from, 0));
            if first_at(s, from, i) {
                assert(i == 0) by {
                    if i > 0 {
                        assert(!occurs_at(s, from, 0));
                    }
                }
                assert(s.take(0) + to =~= to);
            }
        } else {
            law_what_replacing_gives(t, from, to, i - 1);
            if !contains_text(s, from) {
                assert(!contains_text(t, from)) by {
                    if contains_text(t, from) {
                        let j = choose|j: int| occurs_at(t, from, j);
                        assert(occurs_at(s, from, j + 1));
                    }
                }
                assert(seq![s[0]] + t =~= s);
            }
            if first_at(s, from, i) {
                assert(i > 0);
                assert(occurs_at(s, from, (i - 1) + 1));
                assert(occurs_at(t, from, i - 1));
                assert forall|j: int| 0 <= j < i - 1 implies !occurs_at(t, from, j) by {
                    assert(!occurs_at(s, from, j + 1));
                }
                assert(t.skip(i - 1 + from.len()) =~= s.skip(i + from.len()));
                assert(seq![s[0]] + (t.take(i - 1) + to + replaced(
                    s.skip(i + from.len()),
                    from,
                    to,
                )) =~= s.take(i) + to + replaced(s.skip(i + from.len()), from, to));
            }
        }
    } else if contains_text(s, from) {
        let j = choose|j: int| occurs_at(s, from, j);
        assert(false);
    }
}

/// Texts joined: none give nothing, one gives itself, and one more is added behind the
/// separator.
pub proof fn law_texts_joined(v: Seq<Seq<char>>, x: Seq<char>, sep: Seq<char>)
    ensures
        joined(Seq::<Seq<char>>::empty(), sep).len() == 0,
        joined(seq![x], sep) == x,
        v.len() > 0 ==> joined(v.push(x), sep) == joined(v, sep) + sep + x,
{
    assert(v.push(x).drop_last() =~= v);
}

/// A text comes before another exactly where they agree up to a place at which it ends and
/// the other does not, or has the lower character.
pub proof fn law_order_of_texts(a: Seq<char>, b: Seq<char>)
    ensures
        text_before(a, b) <==> exists|k: int|
            0 <= k <= a.len() && k < b.len() && #[trigger] a.take(k) == b.take(k) && (k == a.len()
                || a[k] < b[k]),
    decreases a.len(),
{
    if b.len() > 0 && a.len() > 0 && a[0] == b[0] {
        let c = a.drop_first();
        let d = b.drop_first();
        law_order_of_texts(c, d);
        if exists|k: int|
            0 <= k <= c.len() && k < d.len() && #[trigger] c.take(k) == d.take(k) && (k == c.len()
                || c[k] < d[k]) {
            let k = choose|k: int|
                0 <= k <= c.len() && k < d.len() && #[trigger] c.take(k) == d.take(k) && (k
                    == c.len() || c[k] < d[k]);
            assert(a.take(k + 1) =~= seq![a[0]] + c.take(k));
            assert(b.take(k + 1) =~= seq![b[0]] + d.take(k));
        }
        if exists|k: int|
            0 <= k <= a.len() && k < b.len() && #[trigger] a.take(k) == b.take(k) && (k == a.len()
                || a[k] < b[k]) {
            let k = choose|k: int|
                0 <= k <= a.len() && k < b.len() && #[trigger] a.take(k) == b.take(k) && (k
                    == a.len() || a[k] < b[k]);
            assert(k > 0);
            assert(c.take(k - 1) =~= a.take(k).drop_first());
            assert(d.take(k - 1) =~= b.take(k).drop_first());
        }
    } else if b.len() > 0 {
        assert(a.take(0) =~= b.take(0));
        if a.len() > 0 {
            assert forall|k: int|
                0 < k <= a.len() && k < b.len() implies #[trigger] a.take(k) != b.take(k) by {
                assert(a.take(k)[0] == a[0]);
                assert(b.take(k)[0] == b[0]);
            }
        }
    }
}

/// The views of a list of texts, text by text.
pub proof fn law_views_of_texts(v: Seq<String>, i: int)
    requires
        0 <= i < v.len(),
    ensures
        views(v).len() == v.len(),
        views(v)[i] == v[i]@,
{
}

} // verus!
