//! Character-level text operations over `Seq<char>` models.
use vstd::prelude::*;
use vstd::string::StrSliceExecFns;

verus! {

/// Relies on the standard `String: FromIterator<&char>`: the string holds exactly the given characters.
#[verifier::external_body]
pub fn string_of(v: &Vec<char>) -> (r: String)
    ensures
        r@ == v@,
{
    String::from_iter(v.iter())
}

/// The characters of `s`, in order.
pub fn chars_of(s: &str) -> (r: Vec<char>)
    ensures
        r@ == s@,
{
    let n = s.unicode_len();
    let mut r: Vec<char> = Vec::new();
    let mut i: usize = 0;
    while i < n
        invariant
            n == s@.len(),
            i <= n,
            r@ == s@.subrange(0, i as int),
        decreases n - i,
    {
        r.push(s.get_char(i));
        i = i + 1;
    }
    assert(r@ == s@);
    r
}

/// The first position at or after `from` where `q` occurs in `t`, or -1 when there is none.
pub open spec fn first_from(t: Seq<char>, q: Seq<char>, from: int) -> int
    decreases t.len() + 1 - from,
{
    if from < 0 || from + q.len() > t.len() {
        -1
    } else if t.subrange(from, from + q.len()) == q {
        from
    } else {
        first_from(t, q, from + 1)
    }
}

/// `q` occurs in `t` as a contiguous run of characters.
pub open spec fn contains(t: Seq<char>, q: Seq<char>) -> bool {
    first_from(t, q, 0) >= 0
}

/// `q` occurs in `t` starting at position `i`.
pub open spec fn occurs_at(t: Seq<char>, q: Seq<char>, i: int) -> bool {
    0 <= i && i + q.len() <= t.len() && t.subrange(i, i + q.len()) == q
}

/// The search from `from` finds an occurrence exactly when one exists at or after `from`,
/// and what it finds is the leftmost one.
pub proof fn lemma_first_from(t: Seq<char>, q: Seq<char>, from: int)
    requires
        0 <= from,
    ensures
        first_from(t, q, from) >= 0 <==> exists|i: int| from <= i && #[trigger] occurs_at(t, q, i),
        first_from(t, q, from) >= 0 ==> from <= first_from(t, q, from) && occurs_at(
            t,
            q,
            first_from(t, q, from),
        ),
        forall|i: int| from <= i < first_from(t, q, from) ==> !#[trigger] occurs_at(t, q, i),
    decreases t.len() + 1 - from,
{
    if from + q.len() > t.len() {
        assert forall|i: int| from <= i implies !#[trigger] occurs_at(t, q, i) by {}
    } else if t.subrange(from, from + q.len()) == q {
        assert(occurs_at(t, q, from));
    } else {
        lemma_first_from(t, q, from + 1);
        if exists|i: int| from <= i && #[trigger] occurs_at(t, q, i) {
            let i = choose|i: int| from <= i && #[trigger] occurs_at(t, q, i);
            assert(i != from);
            assert(from + 1 <= i && occurs_at(t, q, i));
        }
    }
}

/// Whether `q` occurs in `t` at position `i`.
fn matches_at(t: &Vec<char>, q: &Vec<char>, i: usize) -> (r: bool)
    requires
        i + q@.len() <= t@.len(),
    ensures
        r == (t@.subrange(i as int, i + q@.len()) == q@),
{
    let n = t.len();
    let mut k: usize = 0;
    while k < q.len()
        invariant
            n == t@.len(),
            i + q@.len() <= t@.len(),
            k <= q@.len(),
            t@.subrange(i as int, i + k) == q@.subrange(0, k as int),
        decreases q@.len() - k,
    {
        if t[i + k] != q[k] {
            assert(t@.subrange(i as int, i + q@.len())[k as int] != q@[k as int]);
            return false;
        }
        assert(t@.subrange(i as int, i + k + 1) == q@.subrange(0, k + 1));
        k = k + 1;
    }
    assert(q@.subrange(0, k as int) == q@);
    true
}

/// The position of the first occurrence of `q` in `t`.
pub fn find(t: &Vec<char>, q: &Vec<char>) -> (r: Option<usize>)
    ensures
        match r {
            Some(i) => i == first_from(t@, q@, 0),
            None => first_from(t@, q@, 0) == -1,
        },
{
    if q.len() > t.len() {
        return None;
    }
    let last = t.len() - q.len();
    let mut i: usize = 0;
    while i <= last
        invariant
            last + q@.len() == t@.len(),
            first_from(t@, q@, 0) == first_from(t@, q@, i as int),
        decreases last + 1 - i,
    {
        if matches_at(t, q, i) {
            return Some(i);
        }
        if i == last {
            assert(first_from(t@, q@, i + 1) == -1);
            return None;
        }
        i = i + 1;
    }
    None
}

/// `t` with every occurrence of `p` from position `i` on replaced by `r`, scanning left to
/// right without overlap; an empty `p` occurs before every character and at the end.
pub open spec fn replace_from(t: Seq<char>, p: Seq<char>, r: Seq<char>, i: int) -> Seq<char>
    decreases t.len() - i,
{
    if i < 0 || i > t.len() {
        Seq::empty()
    } else if p.len() == 0 {
        if i == t.len() {
            r
        } else {
            r + seq![t[i]] + replace_from(t, p, r, i + 1)
        }
    } else if i + p.len() <= t.len() && t.subrange(i, i + p.len()) == p {
        r + replace_from(t, p, r, i + p.len())
    } else if i < t.len() {
        seq![t[i]] + replace_from(t, p, r, i + 1)
    } else {
        Seq::empty()
    }
}

/// `t` with every occurrence of `p` replaced by `r`.
pub open spec fn replace_all(t: Seq<char>, p: Seq<char>, r: Seq<char>) -> Seq<char> {
    replace_from(t, p, r, 0)
}

/// Appends the characters of `src` to `dst`.
pub fn append_chars(dst: &mut Vec<char>, src: &Vec<char>)
    ensures
        final(dst)@ == old(dst)@ + src@,
{
    let mut k: usize = 0;
    while k < src.len()
        invariant
            k <= src@.len(),
            dst@ == old(dst)@ + src@.subrange(0, k as int),
        decreases src@.len() - k,
    {
        dst.push(src[k]);
        assert(src@.subrange(0, k + 1) == src@.subrange(0, k as int).push(src@[k as int]));
        k = k + 1;
    }
    assert(src@.subrange(0, k as int) == src@);
}

/// `t` with every occurrence of `p` replaced by `r`.
pub fn replace(t: &Vec<char>, p: &Vec<char>, r: &Vec<char>) -> (out: Vec<char>)
    ensures
        out@ == replace_all(t@, p@, r@),
{
    let n = t.len();
    let mut out: Vec<char> = Vec::new();
    let mut i: usize = 0;
    while i < n
        invariant
            n == t@.len(),
            i <= t@.len(),
            out@ + replace_from(t@, p@, r@, i as int) == replace_all(t@, p@, r@),
        decreases t@.len() - i,
    {
        let ghost before = out@;
        if p.len() == 0 {
            append_chars(&mut out, r);
            out.push(t[i]);
            assert(out@ == before + r@ + seq![t@[i as int]]);
            i = i + 1;
        } else if p.len() <= n - i && matches_at(t, p, i) {
            append_chars(&mut out, r);
            i = i + p.len();
        } else {
            out.push(t[i]);
            assert(out@ == before + seq![t@[i as int]]);
            i = i + 1;
        }
        assert(out@ + replace_from(t@, p@, r@, i as int) == replace_all(t@, p@, r@));
    }
    if p.len() == 0 {
        append_chars(&mut out, r);
    }
    assert(out@ == out@ + replace_from(t@, p@, r@, i as int) || p@.len() == 0);
    out
}

/// A line's content without the carriage return of a `\r\n` ending.
pub open spec fn strip_cr(l: Seq<char>) -> Seq<char> {
    if l.len() > 0 && l.last() == '\r' {
        l.drop_last()
    } else {
        l
    }
}

/// The lines of `s[start..]`, scanning from `i`: lines end at `\n` (or `\r\n`), and a final
/// line ending adds no empty line.
pub open spec fn lines_from(s: Seq<char>, start: int, i: int) -> Seq<Seq<char>>
    decreases s.len() - i,
{
    if i < start || i >= s.len() {
        if 0 <= start < s.len() {
            seq![s.subrange(start, s.len() as int)]
        } else {
            Seq::empty()
        }
    } else if s[i] == '\n' {
        seq![strip_cr(s.subrange(start, i))] + lines_from(s, i + 1, i + 1)
    } else {
        lines_from(s, start, i + 1)
    }
}

/// The lines of `s`.
pub open spec fn lines_of(s: Seq<char>) -> Seq<Seq<char>> {
    lines_from(s, 0, 0)
}

/// The lines of `s`, in order, without their line endings.
pub fn split_lines(s: &Vec<char>) -> (r: Vec<Vec<char>>)
    ensures
        r@.len() == lines_of(s@).len(),
        forall|k: int| 0 <= k < r@.len() ==> #[trigger] r@[k]@ == lines_of(s@)[k],
{
    let n = s.len();
    let mut r: Vec<Vec<char>> = Vec::new();
    let mut start: usize = 0;
    let mut i: usize = 0;
    let mut cur: Vec<char> = Vec::new();
    while i < n
        invariant
            n == s@.len(),
            start <= i <= n,
            cur@ == s@.subrange(start as int, i as int),
            r@.len() + lines_from(s@, start as int, i as int).len() == lines_of(s@).len(),
            forall|k: int| 0 <= k < r@.len() ==> #[trigger] r@[k]@ == lines_of(s@)[k],
            forall|k: int|
                0 <= k < lines_from(s@, start as int, i as int).len() ==> #[trigger] lines_from(
                    s@,
                    start as int,
                    i as int,
                )[k] == lines_of(s@)[r@.len() + k],
        decreases n - i,
    {
        if s[i] == '\n' {
            let ghost rest = lines_from(s@, start as int, i as int);
            assert(rest == seq![strip_cr(cur@)] + lines_from(s@, i + 1, i + 1));
            assert(rest[0] == strip_cr(cur@));
            if cur.len() > 0 && cur[cur.len() - 1] == '\r' {
                cur.pop();
            }
            assert(cur@ == lines_of(s@)[r@.len() as int]);
            r.push(cur);
            cur = Vec::new();
            i = i + 1;
            start = i;
            assert forall|k: int|
                0 <= k < lines_from(s@, start as int, i as int).len() implies #[trigger] lines_from(
                s@,
                start as int,
                i as int,
            )[k] == lines_of(s@)[r@.len() + k] by {
                assert(rest[k + 1] == lines_from(s@, start as int, i as int)[k]);
            }
        } else {
            cur.push(s[i]);
            assert(cur@ == s@.subrange(start as int, i + 1));
            i = i + 1;
        }
    }
    if start < n {
        assert(lines_from(s@, start as int, i as int)[0] == cur@);
        r.push(cur);
    }
    r
}

/// Whether `c` is white space by Unicode's `White_Space` property.
pub open spec fn is_white(c: char) -> bool {
    ('\u{9}' <= c && c <= '\u{d}') || c == ' ' || c == '\u{85}' || c == '\u{a0}' || c
        == '\u{1680}' || ('\u{2000}' <= c && c <= '\u{200a}') || c == '\u{2028}' || c
        == '\u{2029}' || c == '\u{202f}' || c == '\u{205f}' || c == '\u{3000}'
}

/// Whether `c` is white space by Unicode's `White_Space` property.
pub fn white(c: char) -> (r: bool)
    ensures
        r == is_white(c),
{
    ('\u{9}' <= c && c <= '\u{d}') || c == ' ' || c == '\u{85}' || c == '\u{a0}' || c
        == '\u{1680}' || ('\u{2000}' <= c && c <= '\u{200a}') || c == '\u{2028}' || c
        == '\u{2029}' || c == '\u{202f}' || c == '\u{205f}' || c == '\u{3000}'
}

/// The position of the first character at or after `i` that is not white space.
pub open spec fn lead(t: Seq<char>, i: int) -> int
    decreases t.len() - i,
{
    if 0 <= i < t.len() && is_white(t[i]) {
        lead(t, i + 1)
    } else {
        i
    }
}

/// The position just past the last character before `j` that is not white space, no lower
/// than `lo`.
pub open spec fn trail(t: Seq<char>, lo: int, j: int) -> int
    decreases j - lo,
{
    if lo < j <= t.len() && is_white(t[j - 1]) {
        trail(t, lo, j - 1)
    } else {
        j
    }
}

/// `t` without its leading and trailing white space.
pub open spec fn trim(t: Seq<char>) -> Seq<char> {
    t.subrange(lead(t, 0), trail(t, lead(t, 0), t.len() as int))
}

/// `t` without its leading and trailing white space.
pub fn trimmed(t: &Vec<char>) -> (r: Vec<char>)
    ensures
        r@ == trim(t@),
{
    let n = t.len();
    let mut a: usize = 0;
    while a < n && white(t[a])
        invariant
            n == t@.len(),
            a <= n,
            lead(t@, a as int) == lead(t@, 0),
        decreases n - a,
    {
        a = a + 1;
    }
    let mut b: usize = n;
    while b > a && white(t[b - 1])
        invariant
            n == t@.len(),
            a <= b <= n,
            lead(t@, 0) == a,
            trail(t@, a as int, b as int) == trail(t@, a as int, n as int),
        decreases b - a,
    {
        b = b - 1;
    }
    let mut r: Vec<char> = Vec::new();
    let mut k: usize = a;
    while k < b
        invariant
            a <= k <= b <= n,
            n == t@.len(),
            r@ == t@.subrange(a as int, k as int),
        decreases b - k,
    {
        r.push(t[k]);
        assert(t@.subrange(a as int, k + 1) == t@.subrange(a as int, k as int).push(t@[k as int]));
        k = k + 1;
    }
    r
}

/// The decimal digit for `d`.
pub open spec fn digit(d: nat) -> char {
    if d == 0 { '0' } else if d == 1 { '1' } else if d == 2 { '2' } else if d == 3 { '3' }
    else if d == 4 { '4' } else if d == 5 { '5' } else if d == 6 { '6' } else if d == 7 { '7' }
    else if d == 8 { '8' } else { '9' }
}

/// `n` written in decimal, without leading zeros.
pub open spec fn decimal(n: nat) -> Seq<char>
    decreases n,
{
    if n < 10 {
        seq![digit(n)]
    } else {
        decimal(n / 10) + seq![digit(n % 10)]
    }
}

fn digit_char(d: usize) -> (c: char)
    requires
        d < 10,
    ensures
        c == digit(d as nat),
{
    if d == 0 { '0' } else if d == 1 { '1' } else if d == 2 { '2' } else if d == 3 { '3' }
    else if d == 4 { '4' } else if d == 5 { '5' } else if d == 6 { '6' } else if d == 7 { '7' }
    else if d == 8 { '8' } else { '9' }
}

/// Appends `n` written in decimal to `out`.
pub fn push_decimal(out: &mut Vec<char>, n: usize)
    ensures
        final(out)@ == old(out)@ + decimal(n as nat),
    decreases n,
{
    if n >= 10 {
        push_decimal(out, n / 10);
    }
    out.push(digit_char(n % 10));
}

/// The longer of `x` and `y` by their length in bytes; `y` when they are as long.
pub fn longest<'a>(x: &'a str, y: &'a str) -> (r: &'a str)
    ensures
        r == if x.len() > y.len() {
            x
        } else {
            y
        },
{
    if x.len() > y.len() {
        x
    } else {
        y
    }
}

} // verus!
