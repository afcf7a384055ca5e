//! Character-level helpers used by the rest of the library.

use crate::primitives::push_char;
use vstd::prelude::*;

verus! {

/// The characters of a string slice, in order.
pub fn chars_of(s: &str) -> (res: Vec<char>)
    ensures
        res@ == s@,
{
    let mut res: Vec<char> = Vec::new();
    for c in it: s.chars()
        invariant
            res@ == it.seq().take(it.index() as int),
            it.seq() == s@,
    {
        res.push(c);
    }
    res
}

} // verus!

verus! {

/// The ASCII digit for a value below ten.
pub open spec fn digit_char(d: nat) -> char
    recommends
        d < 10,
{
    if d == 0 { '0' }
    else if d == 1 { '1' }
    else if d == 2 { '2' }
    else if d == 3 { '3' }
    else if d == 4 { '4' }
    else if d == 5 { '5' }
    else if d == 6 { '6' }
    else if d == 7 { '7' }
    else if d == 8 { '8' }
    else { '9' }
}

/// Decimal digits of a natural number, most significant first, without leading zeros.
pub open spec fn decimal_digits(n: nat) -> Seq<char>
    decreases n,
{
    if n < 10 {
        seq![digit_char(n)]
    } else {
        decimal_digits(n / 10).push(digit_char(n % 10))
    }
}

/// The decimal rendering of an integer, as Rust's `Display` writes it.
pub open spec fn decimal(v: int) -> Seq<char> {
    if v < 0 {
        seq!['-'] + decimal_digits((-v) as nat)
    } else {
        decimal_digits(v as nat)
    }
}

fn digit_of(d: u64) -> (c: char)
    requires
        d < 10,
    ensures
        c == digit_char(d as nat),
{
    if d == 0 { '0' }
    else if d == 1 { '1' }
    else if d == 2 { '2' }
    else if d == 3 { '3' }
    else if d == 4 { '4' }
    else if d == 5 { '5' }
    else if d == 6 { '6' }
    else if d == 7 { '7' }
    else if d == 8 { '8' }
    else { '9' }
}

/// Appends the decimal digits of `n` to `out`.
fn push_decimal_digits(out: &mut String, n: u64)
    ensures
        final(out)@ == old(out)@ + decimal_digits(n as nat),
    decreases n,
{
    if n < 10 {
        push_char(out, digit_of(n));
        assert(decimal_digits(n as nat) == seq![digit_char(n as nat)]);
        assert(old(out)@.push(digit_char(n as nat)) =~= old(out)@ + seq![digit_char(n as nat)]);
    } else {
        push_decimal_digits(out, n / 10);
        push_char(out, digit_of(n % 10));
        assert(decimal_digits(n as nat) == decimal_digits((n / 10) as nat).push(digit_char((n % 10) as nat)));
        assert((old(out)@ + decimal_digits((n / 10) as nat)).push(digit_char((n % 10) as nat))
            =~= old(out)@ + decimal_digits(n as nat));
    }
}

/// Renders a signed integer in decimal.
pub fn format_i64(v: i64) -> (res: String)
    ensures
        res@ == decimal(v as int),
{
    let mut out = String::new();
    if v < 0 {
        push_char(&mut out, '-');
        let magnitude: u64 = if v == i64::MIN {
            9223372036854775808u64
        } else {
            (-v) as u64
        };
        push_decimal_digits(&mut out, magnitude);
    } else {
        push_decimal_digits(&mut out, v as u64);
    }
    assert(out@ =~= decimal(v as int));
    out
}

} // verus!

verus! {

/// Renders an unsigned integer in decimal.
pub fn format_u64(v: u64) -> (res: String)
    ensures
        res@ == decimal(v as int),
{
    let mut out = String::new();
    push_decimal_digits(&mut out, v);
    assert(out@ =~= decimal(v as int));
    out
}

/// The string made of `chars[lo..hi]`.
pub fn string_from_range(chars: &Vec<char>, lo: usize, hi: usize) -> (res: String)
    requires
        lo <= hi <= chars@.len(),
    ensures
        res@ == chars@.subrange(lo as int, hi as int),
{
    let mut out = String::new();
    let mut i = lo;
    while i < hi
        invariant
            lo <= i <= hi <= chars@.len(),
            out@ == chars@.subrange(lo as int, i as int),
        decreases hi - i,
    {
        push_char(&mut out, chars[i]);
        assert(chars@.subrange(lo as int, i as int).push(chars@[i as int]) =~= chars@.subrange(
            lo as int,
            i + 1,
        ));
        i = i + 1;
    }
    out
}

/// `needle` occurs in `hay` at position `at`.
pub open spec fn occurs_at(hay: Seq<char>, needle: Seq<char>, at: int) -> bool {
    0 <= at && at + needle.len() <= hay.len() && hay.subrange(at, at + needle.len()) == needle
}

/// `needle` occurs somewhere in `hay`.
pub open spec fn contains_text(hay: Seq<char>, needle: Seq<char>) -> bool {
    exists|at: int| occurs_at(hay, needle, at)
}

fn occurs_at_exec(hay: &Vec<char>, needle: &Vec<char>, at: usize) -> (res: bool)
    requires
        at + needle@.len() <= hay@.len(),
    ensures
        res == occurs_at(hay@, needle@, at as int),
{
    let mut k: usize = 0;
    while k < needle.len()
        invariant
            at + needle@.len() <= hay@.len(),
            k <= needle@.len(),
            forall|j: int| 0 <= j < k ==> hay@[at + j] == needle@[j],
        decreases needle@.len() - k,
    {
        assert(hay@.len() == hay.len());
        if hay[at + k] != needle[k] {
            assert(hay@.subrange(at as int, at + needle@.len())[k as int] != needle@[k as int]);
            return false;
        }
        k = k + 1;
    }
    assert(hay@.subrange(at as int, at + needle@.len()) =~= needle@);
    true
}

/// Whether `needle` occurs in `hay`.
pub fn contains_str(hay: &str, needle: &str) -> (res: bool)
    ensures
        res == contains_text(hay@, needle@),
{
    let h = chars_of(hay);
    let n = chars_of(needle);
    if n.len() > h.len() {
        assert forall|at: int| !occurs_at(hay@, needle@, at) by {}
        return false;
    }
    let last = h.len() - n.len();
    let mut at: usize = 0;
    while at <= last
        invariant
            h@ == hay@,
            n@ == needle@,
            last + n@.len() == h@.len(),
            forall|p: int| 0 <= p < at ==> !occurs_at(hay@, needle@, p),
        decreases last + 1 - at,
    {
        if occurs_at_exec(&h, &n, at) {
            return true;
        }
        if at == last {
            assert forall|p: int| !occurs_at(hay@, needle@, p) by {
                if 0 <= p && p <= last {
                    assert(p < at || p == at);
                }
            }
            return false;
        }
        at = at + 1;
    }
    false
}

} // verus!

verus! {

/// The parts laid end to end with `sep` between neighbours.
pub open spec fn join(parts: Seq<Seq<char>>, sep: Seq<char>) -> Seq<char>
    decreases parts.len(),
{
    if parts.len() == 0 {
        seq![]
    } else if parts.len() == 1 {
        parts[0]
    } else {
        join(parts.drop_last(), sep) + sep + parts.last()
    }
}

/// The character sequences that a list of strings holds.
pub open spec fn views(list: Seq<String>) -> Seq<Seq<char>> {
    list.map_values(|s: String| s@)
}

/// Joins the strings with `sep` between neighbours.
pub fn join_strings(parts: &Vec<String>, sep: &str) -> (res: String)
    ensures
        res@ == join(views(parts@), sep@),
{
    let mut out = String::new();
    let ghost all = views(parts@);
    let mut i: usize = 0;
    while i < parts.len()
        invariant
            i <= parts@.len(),
            all == views(parts@),
            all.len() == parts@.len(),
            out@ == join(all.take(i as int), sep@),
        decreases parts@.len() - i,
    {
        if i != 0 {
            out.append(sep);
        }
        out.append(parts[i].as_str());
        proof {
            let next = all.take(i + 1);
            assert(next.drop_last() =~= all.take(i as int));
            assert(next.last() == parts@[i as int]@);
            if i == 0 {
                assert(out@ =~= next[0]);
            }
        }
        i = i + 1;
    }
    assert(all.take(parts@.len() as int) =~= all);
    out
}

} // verus!

verus! {

/// The decimal rendering of an integer is not empty and ends in a digit.
pub proof fn lemma_decimal_ends_in_digit(v: int)
    ensures
        decimal(v).len() > 0,
        '0' <= decimal(v).last() <= '9',
{
    let n: nat = if v < 0 {
        (-v) as nat
    } else {
        v as nat
    };
    let d = decimal_digits(n);
    assert(d.len() > 0 && '0' <= d.last() <= '9') by {
        if n >= 10 {
            assert(d == decimal_digits(n / 10).push(digit_char(n % 10)));
        }
    }
    if v < 0 {
        assert(decimal(v).last() == d.last());
    }
}

} // verus!

verus! {

/// A character with the Unicode `White_Space` property, the set `str::trim` strips.
pub open spec fn is_white_space(c: char) -> bool {
    ('\u{9}' <= c && c <= '\u{d}') || c == ' ' || c == '\u{85}' || c == '\u{a0}' || c == '\u{1680}'
        || ('\u{2000}' <= c && c <= '\u{200a}') || c == '\u{2028}' || c == '\u{2029}' || c
        == '\u{202f}' || c == '\u{205f}' || c == '\u{3000}'
}

/// Every character of `s` is white space (in particular, the empty text).
pub open spec fn all_white_space(s: Seq<char>) -> bool {
    forall|k: int| 0 <= k < s.len() ==> is_white_space(#[trigger] s[k])
}

/// `s[i..j]` is what remains of `s` once leading and trailing white space is removed.
pub open spec fn is_trim_bounds(s: Seq<char>, i: int, j: int) -> bool {
    &&& 0 <= i <= j <= s.len()
    &&& forall|k: int| 0 <= k < i ==> is_white_space(#[trigger] s[k])
    &&& forall|k: int| j <= k < s.len() ==> is_white_space(#[trigger] s[k])
    &&& i < j ==> !is_white_space(s[i]) && !is_white_space(s[j - 1])
}

/// The text without its leading and trailing white space.
pub open spec fn trimmed(s: Seq<char>) -> Seq<char> {
    let (i, j) = choose|i: int, j: int| is_trim_bounds(s, i, j);
    s.subrange(i, j)
}

/// Any bounds that trim `s` cut out the same text, so `trimmed` is that text.
pub proof fn lemma_trimmed_is(s: Seq<char>, i: int, j: int)
    requires
        is_trim_bounds(s, i, j),
    ensures
        trimmed(s) == s.subrange(i, j),
{
    let (a, b) = choose|a: int, b: int| is_trim_bounds(s, a, b);
    assert(is_trim_bounds(s, a, b));
    if i < j {
        if a == b {
            assert(is_white_space(s[i]));
        }
        if a < i {
            assert(is_white_space(s[a]));
        }
        if i < a {
            assert(is_white_space(s[i]));
        }
        if b < j {
            assert(is_white_space(s[j - 1]));
        }
        if j < b {
            assert(is_white_space(s[b - 1]));
        }
        assert(a == i && b == j);
    } else {
        if a < b {
            if a < i {
                assert(is_white_space(s[a]));
            } else {
                assert(is_white_space(s[a]));
            }
        }
        assert(s.subrange(a, b) =~= s.subrange(i, j));
    }
}

fn is_white_space_exec(c: char) -> (res: bool)
    ensures
        res == is_white_space(c),
{
    ('\u{9}' <= c && c <= '\u{d}') || c == ' ' || c == '\u{85}' || c == '\u{a0}' || c == '\u{1680}'
        || ('\u{2000}' <= c && c <= '\u{200a}') || c == '\u{2028}' || c == '\u{2029}' || c
        == '\u{202f}' || c == '\u{205f}' || c == '\u{3000}'
}

/// The text without its leading and trailing white space, as `str::trim` gives it.
pub fn trim(text: &str) -> (res: String)
    ensures
        res@ == trimmed(text@),
        res@.len() == 0 <==> all_white_space(text@),
{
    let c = chars_of(text);
    let n = c.len();
    let mut i: usize = 0;
    while i < n
        invariant
            i <= n,
            n == c@.len(),
            forall|k: int| 0 <= k < i ==> is_white_space(#[trigger] c@[k]),
        ensures
            i <= n,
            forall|k: int| 0 <= k < i ==> is_white_space(#[trigger] c@[k]),
            i == n || !is_white_space(c@[i as int]),
        decreases n - i,
    {
        if !is_white_space_exec(c[i]) {
            break;
        }
        i = i + 1;
    }
    let mut j: usize = n;
    while j > i
        invariant
            i <= j <= n,
            n == c@.len(),
            forall|k: int| 0 <= k < i ==> is_white_space(#[trigger] c@[k]),
            i == n || !is_white_space(c@[i as int]),
            forall|k: int| j <= k < n ==> is_white_space(#[trigger] c@[k]),
        ensures
            i <= j <= n,
            forall|k: int| 0 <= k < i ==> is_white_space(#[trigger] c@[k]),
            i == n || !is_white_space(c@[i as int]),
            forall|k: int| j <= k < n ==> is_white_space(#[trigger] c@[k]),
            j == i || !is_white_space(c@[j - 1]),
        decreases j - i,
    {
        if !is_white_space_exec(c[j - 1]) {
            break;
        }
        j = j - 1;
    }
    proof {
        assert(is_trim_bounds(c@, i as int, j as int));
        lemma_trimmed_is(c@, i as int, j as int);
        if i < j {
            assert(!is_white_space(c@[i as int]));
        } else {
            assert forall|k: int| 0 <= k < c@.len() implies is_white_space(#[trigger] c@[k]) by {
                if k < i {
                } else {
                    assert(j <= k);
                }
            }
        }
    }
    string_from_range(&c, i, j)
}

} // verus!

verus! {

/// A text found in `b` is found in `a + b + c` too.
pub proof fn lemma_contains_in_middle(a: Seq<char>, b: Seq<char>, c: Seq<char>, needle: Seq<char>)
    requires
        contains_text(b, needle),
    ensures
        contains_text(a + b + c, needle),
{
    let at = choose|at: int| occurs_at(b, needle, at);
    let whole = a + b + c;
    assert(whole.subrange(a.len() + at, a.len() + at + needle.len()) =~= b.subrange(
        at,
        at + needle.len(),
    ));
    assert(occurs_at(whole, needle, a.len() + at));
}

/// Every part occurs in the joined text.
pub proof fn lemma_join_contains(parts: Seq<Seq<char>>, sep: Seq<char>, k: int)
    requires
        0 <= k < parts.len(),
    ensures
        contains_text(join(parts, sep), parts[k]),
    decreases parts.len(),
{
    if parts.len() == 1 {
        assert(join(parts, sep).subrange(0, parts[0].len() as int) =~= parts[0]);
        assert(occurs_at(join(parts, sep), parts[k], 0));
    } else {
        let front = join(parts.drop_last(), sep);
        assert(join(parts, sep) == front + sep + parts.last());
        if k == parts.len() - 1 {
            let empty: Seq<char> = seq![];
            assert(parts.last().subrange(0, parts.last().len() as int) =~= parts.last());
            assert(occurs_at(parts.last(), parts[k], 0));
            lemma_contains_in_middle(front + sep, parts.last(), empty, parts[k]);
            assert(front + sep + parts.last() + empty =~= join(parts, sep));
        } else {
            lemma_join_contains(parts.drop_last(), sep, k);
            assert(parts.drop_last()[k] == parts[k]);
            let empty: Seq<char> = seq![];
            lemma_contains_in_middle(empty, front, sep + parts.last(), parts[k]);
            assert(empty + front + (sep + parts.last()) =~= join(parts, sep));
        }
    }
}

} // verus!
