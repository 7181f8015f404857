//! Character-level helpers over `&str` and `String`, specified over the
//! `Seq<char>` view that vstd gives every string.
use vstd::prelude::*;

verus! {

/// ASCII lower-casing of one character; other characters are kept.
pub open spec fn ascii_lower(c: char) -> char {
    if 'A' <= c && c <= 'Z' {
        ((c as u32) + 32) as char
    } else {
        c
    }
}

/// ASCII lower-casing of a whole character sequence.
pub open spec fn lower_seq(s: Seq<char>) -> Seq<char> {
    Seq::new(s.len(), |i: int| ascii_lower(s[i]))
}

/// Equality up to ASCII case, as `str::eq_ignore_ascii_case` defines it.
pub open spec fn eq_ignore_case(a: Seq<char>, b: Seq<char>) -> bool {
    lower_seq(a) == lower_seq(b)
}

/// `needle` occurs in `hay` at position `i`.
pub open spec fn occurs_at(hay: Seq<char>, needle: Seq<char>, i: int) -> bool {
    0 <= i && i + needle.len() <= hay.len() && hay.subrange(i, i + needle.len()) == needle
}

/// `needle` occurs somewhere in `hay` (the empty needle always does).
pub open spec fn seq_contains(hay: Seq<char>, needle: Seq<char>) -> bool {
    exists|i: int| occurs_at(hay, needle, i)
}

/// `s` begins with `prefix`.
pub open spec fn seq_starts_with(s: Seq<char>, prefix: Seq<char>) -> bool {
    occurs_at(s, prefix, 0)
}

/// The characters that `char::is_whitespace` accepts (Unicode `White_Space`).
pub open spec fn is_space(c: char) -> bool {
    let u = c as u32;
    (0x09 <= u && u <= 0x0d) || u == 0x20 || u == 0x85 || u == 0xa0 || u == 0x1680 || (0x2000
        <= u && u <= 0x200a) || u == 0x2028 || u == 0x2029 || u == 0x202f || u == 0x205f || u
        == 0x3000
}

/// Number of leading whitespace characters of `s`.
pub open spec fn leading_space(s: Seq<char>) -> nat
    decreases s.len(),
{
    if s.len() > 0 && is_space(s[0]) {
        1 + leading_space(s.drop_first())
    } else {
        0
    }
}

/// Number of trailing whitespace characters of `s`.
pub open spec fn trailing_space(s: Seq<char>) -> nat
    decreases s.len(),
{
    if s.len() > 0 && is_space(s.last()) {
        1 + trailing_space(s.drop_last())
    } else {
        0
    }
}

/// `s` without its leading whitespace (`str::trim_start`).
pub open spec fn trim_start_seq(s: Seq<char>) -> Seq<char> {
    s.skip(leading_space(s) as int)
}

/// `s` without leading and trailing whitespace (`str::trim`).
pub open spec fn trim_seq(s: Seq<char>) -> Seq<char> {
    let t = trim_start_seq(s);
    t.take(t.len() - trailing_space(t))
}

pub proof fn lemma_leading_space_bound(s: Seq<char>)
    ensures
        leading_space(s) <= s.len(),
        forall|j: int| 0 <= j < leading_space(s) ==> is_space(#[trigger] s[j]),
        leading_space(s) < s.len() ==> !is_space(s[leading_space(s) as int]),
    decreases s.len(),
{
    if s.len() > 0 && is_space(s[0]) {
        lemma_leading_space_bound(s.drop_first());
        assert forall|j: int| 0 <= j < leading_space(s) implies is_space(#[trigger] s[j]) by {
            if j > 0 {
                assert(s[j] == s.drop_first()[j - 1]);
            }
        }
    }
}

pub proof fn lemma_trailing_space_bound(s: Seq<char>)
    ensures
        trailing_space(s) <= s.len(),
        forall|j: int| s.len() - trailing_space(s) <= j < s.len() ==> is_space(#[trigger] s[j]),
        trailing_space(s) < s.len() ==> !is_space(s[s.len() - trailing_space(s) - 1]),
    decreases s.len(),
{
    if s.len() > 0 && is_space(s.last()) {
        lemma_trailing_space_bound(s.drop_last());
        assert forall|j: int| s.len() - trailing_space(s) <= j < s.len() implies is_space(
            #[trigger] s[j],
        ) by {
            if j < s.len() - 1 {
                assert(s[j] == s.drop_last()[j]);
            }
        }
    }
}

/// Appends one character to a string.
/// Trusted: `String::push`, which appends the given char to the end of the string.
#[verifier::external_body]
pub(crate) fn push_char(s: &mut String, c: char)
    ensures
        final(s)@ == old(s)@.push(c),
{
    s.push(c);
}

/// The characters of `s`, in order.
pub fn chars_of(s: &str) -> (r: Vec<char>)
    ensures
        r@ == s@,
{
    broadcast use vstd::string::group_string_axioms;

    let mut out: Vec<char> = Vec::new();
    for c in it: s.chars()
        invariant
            it.seq() == s@,
            out@ == it.seq().take(it.index() as int),
    {
        out.push(c);
        assert(out@ == it.seq().take(it.index() + 1));
    }
    out
}

/// A string holding exactly the characters `cs[from..to]`.
pub fn string_from_range(cs: &Vec<char>, from: usize, to: usize) -> (r: String)
    requires
        from <= to <= cs.len(),
    ensures
        r@ == cs@.subrange(from as int, to as int),
{
    let mut out = String::new();
    let mut i = from;
    while i < to
        invariant
            from <= i <= to <= cs.len(),
            out@ == cs@.subrange(from as int, i as int),
        decreases to - i,
    {
        push_char(&mut out, cs[i]);
        assert(out@ == cs@.subrange(from as int, i + 1));
        i += 1;
    }
    out
}

/// A string holding exactly the characters of `cs`.
pub fn string_from_chars(cs: &Vec<char>) -> (r: String)
    ensures
        r@ == cs@,
{
    let r = string_from_range(cs, 0, cs.len());
    assert(cs@.subrange(0, cs@.len() as int) == cs@);
    r
}

/// ASCII lower-casing of one character.
pub fn lower_char(c: char) -> (r: char)
    ensures
        r == ascii_lower(c),
{
    if 'A' <= c && c <= 'Z' {
        ((c as u8) + 32) as char
    } else {
        c
    }
}

/// The ASCII lower-cased characters of `s` (`str::to_ascii_lowercase`).
pub fn lower_chars(s: &str) -> (r: Vec<char>)
    ensures
        r@ == lower_seq(s@),
{
    let cs = chars_of(s);
    let mut out: Vec<char> = Vec::new();
    let mut i: usize = 0;
    while i < cs.len()
        invariant
            i <= cs.len(),
            cs@ == s@,
            out@ == lower_seq(s@).take(i as int),
        decreases cs.len() - i,
    {
        out.push(lower_char(cs[i]));
        assert(out@ == lower_seq(s@).take(i + 1));
        i += 1;
    }
    assert(lower_seq(s@).take(cs.len() as int) == lower_seq(s@));
    out
}

/// Whether `needle` occurs in `hay` at position `at`.
pub fn chars_occur_at(hay: &Vec<char>, needle: &Vec<char>, at: usize) -> (r: bool)
    ensures
        r == occurs_at(hay@, needle@, at as int),
{
    if needle.len() > hay.len() || at > hay.len() - needle.len() {
        return false;
    }
    let mut j: usize = 0;
    while j < needle.len()
        invariant
            j <= needle.len(),
            at + needle.len() <= hay.len(),
            forall|k: int| 0 <= k < j ==> hay@[at + k] == needle@[k],
        decreases needle.len() - j,
    {
        if hay[at + j] != needle[j] {
            assert(hay@.subrange(at as int, at + needle.len())[j as int] != needle@[j as int]);
            return false;
        }
        j += 1;
    }
    assert(hay@.subrange(at as int, at + needle.len()) =~= needle@);
    true
}

/// Whether `needle` occurs anywhere in `hay`.
pub fn chars_contain(hay: &Vec<char>, needle: &Vec<char>) -> (r: bool)
    ensures
        r == seq_contains(hay@, needle@),
{
    if needle.len() > hay.len() {
        return false;
    }
    let last = hay.len() - needle.len();
    let mut i: usize = 0;
    while i < last
        invariant
            last == hay.len() - needle.len(),
            i <= last,
            forall|k: int| 0 <= k < i ==> !occurs_at(hay@, needle@, k),
        decreases last - i,
    {
        if chars_occur_at(hay, needle, i) {
            return true;
        }
        i += 1;
    }
    chars_occur_at(hay, needle, last)
}

/// Whether the ASCII lower-cased form of `s` contains the (already lower-case) `needle`.
pub fn lower_contains(s: &str, needle: &str) -> (r: bool)
    ensures
        r == seq_contains(lower_seq(s@), needle@),
{
    let hay = lower_chars(s);
    let n = chars_of(needle);
    chars_contain(&hay, &n)
}

/// Whether `s` contains `needle` (`str::contains` with a string pattern).
pub fn str_contains(s: &str, needle: &str) -> (r: bool)
    ensures
        r == seq_contains(s@, needle@),
{
    let hay = chars_of(s);
    let n = chars_of(needle);
    chars_contain(&hay, &n)
}

/// Whether `s` begins with `prefix` (`str::starts_with` with a string pattern).
pub fn str_starts_with(s: &str, prefix: &str) -> (r: bool)
    ensures
        r == seq_starts_with(s@, prefix@),
{
    let hay = chars_of(s);
    let n = chars_of(prefix);
    chars_occur_at(&hay, &n, 0)
}

/// `str::eq_ignore_ascii_case`.
pub fn eq_ignore_ascii_case(a: &str, b: &str) -> (r: bool)
    ensures
        r == eq_ignore_case(a@, b@),
{
    let la = lower_chars(a);
    let lb = lower_chars(b);
    if la.len() != lb.len() {
        return false;
    }
    let mut i: usize = 0;
    while i < la.len()
        invariant
            la@ == lower_seq(a@),
            lb@ == lower_seq(b@),
            la.len() == lb.len(),
            i <= la.len(),
            forall|k: int| 0 <= k < i ==> la@[k] == lb@[k],
        decreases la.len() - i,
    {
        if la[i] != lb[i] {
            assert(la@[i as int] != lb@[i as int]);
            return false;
        }
        i += 1;
    }
    assert(la@ =~= lb@);
    true
}

/// `char::is_whitespace`.
pub fn char_is_space(c: char) -> (r: bool)
    ensures
        r == is_space(c),
{
    let u = c as u32;
    (0x09 <= u && u <= 0x0d) || u == 0x20 || u == 0x85 || u == 0xa0 || u == 0x1680 || (0x2000
        <= u && u <= 0x200a) || u == 0x2028 || u == 0x2029 || u == 0x202f || u == 0x205f || u
        == 0x3000
}

/// Index of the first non-whitespace character of `cs`.
pub fn skip_space(cs: &Vec<char>) -> (r: usize)
    ensures
        r == leading_space(cs@),
{
    proof {
        lemma_leading_space_bound(cs@);
    }
    let mut i: usize = 0;
    while i < cs.len() && char_is_space(cs[i])
        invariant
            i <= cs.len(),
            i <= leading_space(cs@),
            leading_space(cs@) <= cs.len(),
            forall|j: int| 0 <= j < leading_space(cs@) ==> is_space(#[trigger] cs@[j]),
            leading_space(cs@) < cs.len() ==> !is_space(cs@[leading_space(cs@) as int]),
        decreases cs.len() - i,
    {
        i += 1;
    }
    i
}

/// Number of trailing whitespace characters in `cs`.
pub fn count_trailing_space(cs: &Vec<char>) -> (r: usize)
    ensures
        r == trailing_space(cs@),
{
    proof {
        lemma_trailing_space_bound(cs@);
    }
    let mut n: usize = 0;
    while n < cs.len() && char_is_space(cs[cs.len() - 1 - n])
        invariant
            n <= cs.len(),
            n <= trailing_space(cs@),
            trailing_space(cs@) <= cs.len(),
            forall|j: int|
                cs.len() - trailing_space(cs@) <= j < cs.len() ==> is_space(#[trigger] cs@[j]),
            trailing_space(cs@) < cs.len() ==> !is_space(
                cs@[cs.len() - trailing_space(cs@) - 1],
            ),
        decreases cs.len() - n,
    {
        n += 1;
    }
    n
}

/// `str::trim`: `s` without leading and trailing whitespace.
pub fn trim(s: &str) -> (r: String)
    ensures
        r@ == trim_seq(s@),
{
    let cs = chars_of(s);
    let start = skip_space(&cs);
    proof {
        lemma_leading_space_bound(cs@);
    }
    let rest = string_from_range(&cs, start, cs.len());
    let rest_chars = chars_of(rest.as_str());
    assert(rest_chars@ == trim_start_seq(s@));
    let tail = count_trailing_space(&rest_chars);
    proof {
        lemma_trailing_space_bound(rest_chars@);
    }
    let r = string_from_range(&rest_chars, 0, rest_chars.len() - tail);
    assert(rest_chars@.subrange(0, rest_chars.len() - tail) == trim_seq(s@));
    r
}

/// Copies a string slice into an owned `String`.
pub fn to_owned_string(s: &str) -> (r: String)
    ensures
        r@ == s@,
{
    s.to_owned()
}

/// Concatenation of two string slices.
pub fn concat2(a: &str, b: &str) -> (r: String)
    ensures
        r@ == a@ + b@,
{
    let mut out = a.to_owned();
    out.append(b);
    out
}

/// Concatenation of three string slices.
pub fn concat3(a: &str, b: &str, c: &str) -> (r: String)
    ensures
        r@ == a@ + b@ + c@,
{
    let mut out = a.to_owned();
    out.append(b);
    out.append(c);
    out
}

/// Whether two string slices hold the same characters.
pub fn same_text(a: &str, b: &str) -> (r: bool)
    ensures
        r == (a@ == b@),
{
    let x = chars_of(a);
    let y = chars_of(b);
    if x.len() != y.len() {
        return false;
    }
    let mut i: usize = 0;
    while i < x.len()
        invariant
            x@ == a@,
            y@ == b@,
            x.len() == y.len(),
            i <= x.len(),
            forall|k: int| 0 <= k < i ==> x@[k] == y@[k],
        decreases x.len() - i,
    {
        if x[i] != y[i] {
            assert(x@[i as int] != y@[i as int]);
            return false;
        }
        i += 1;
    }
    assert(x@ =~= y@);
    true
}

/// The decimal digits of `n`, most significant first, without leading zeros.
pub open spec fn decimal(n: nat) -> Seq<char>
    decreases n,
{
    if n < 10 {
        seq![digit_char(n)]
    } else {
        decimal(n / 10).push(digit_char(n % 10))
    }
}

/// The ASCII digit of a value below ten.
pub open spec fn digit_char(d: nat) -> char {
    (('0' as u32) + d) as char
}

/// The decimal text of `n` (`u64::to_string`).
pub fn decimal_string(n: u64) -> (r: String)
    ensures
        r@ == decimal(n as nat),
    decreases n,
{
    let d: u64 = n % 10;
    let c: char = ((d as u8) + 48) as char;
    assert(c == digit_char(d as nat));
    if n < 10 {
        let mut s = String::new();
        push_char(&mut s, c);
        assert(s@ =~= decimal(n as nat));
        s
    } else {
        let mut s = decimal_string(n / 10);
        push_char(&mut s, c);
        s
    }
}

/// `needle` occurs in `hay` exactly when some stretch of `hay` equals it.
pub proof fn lemma_contains_at_some_position(h: Seq<char>, w: Seq<char>)
    ensures
        seq_contains(h, w) <==> exists|i: int|
            0 <= i && i + w.len() <= h.len() && #[trigger] h.subrange(i, i + w.len()) == w,
{
    if seq_contains(h, w) {
        let i = choose|i: int| occurs_at(h, w, i);
        assert(h.subrange(i, i + w.len()) == w);
    }
    if exists|i: int| 0 <= i && i + w.len() <= h.len() && #[trigger] h.subrange(i, i + w.len()) == w {
        let i = choose|i: int| 0 <= i && i + w.len() <= h.len() && #[trigger] h.subrange(i, i + w.len()) == w;
        assert(occurs_at(h, w, i));
    }
}

/// Equality up to ASCII case compares the texts letter by letter.
pub proof fn lemma_eq_ignore_case_by_letter(v: Seq<char>, w: Seq<char>)
    ensures
        eq_ignore_case(v, w) <==> (v.len() == w.len() && forall|i: int|
            0 <= i < v.len() ==> ascii_lower(#[trigger] v[i]) == ascii_lower(w[i])),
{
    let lv = lower_seq(v);
    let lw = lower_seq(w);
    assert(lv.len() == v.len() && lw.len() == w.len());
    if eq_ignore_case(v, w) {
        assert forall|i: int| 0 <= i < v.len() implies ascii_lower(#[trigger] v[i])
            == ascii_lower(w[i]) by {
            assert(lv[i] == lw[i]);
        }
    }
    if v.len() == w.len() && forall|i: int|
        0 <= i < v.len() ==> ascii_lower(#[trigger] v[i]) == ascii_lower(w[i]) {
        assert(lv =~= lw);
    }
}

} // verus!
