//! Text primitives on chat messages: Unicode whitespace, trimming, words,
//! prefixes and UTF-8 byte offsets, each specified over `Seq<char>`.

use vstd::prelude::*;
use vstd::string::StrSliceExecFns;
use vstd::string::StringExecFns;

verus! {

/// The Unicode `White_Space` property, the set that `char::is_whitespace`,
/// `str::trim` and `str::split_whitespace` use.
pub open spec fn is_ws(c: char) -> bool {
    let u = c as u32;
    ||| (0x9 <= u && u <= 0xd)
    ||| u == 0x20
    ||| u == 0x85
    ||| u == 0xa0
    ||| u == 0x1680
    ||| (0x2000 <= u && u <= 0x200a)
    ||| u == 0x2028
    ||| u == 0x2029
    ||| u == 0x202f
    ||| u == 0x205f
    ||| u == 0x3000
}

/// Whether `c` is a Unicode whitespace character.
pub fn is_whitespace(c: char) -> (b: bool)
    ensures
        b == is_ws(c),
{
    let u = c as u32;
    (0x9 <= u && u <= 0xd) || u == 0x20 || u == 0x85 || u == 0xa0 || u == 0x1680 || (0x2000 <= u
        && u <= 0x200a) || u == 0x2028 || u == 0x2029 || u == 0x202f || u == 0x205f || u == 0x3000
}

/// The first index at or after `i` that does not hold whitespace.
pub open spec fn skip_ws(s: Seq<char>, i: int) -> int
    decreases s.len() - i,
{
    if 0 <= i < s.len() && is_ws(s[i]) {
        skip_ws(s, i + 1)
    } else {
        i
    }
}

/// The end of the run of non-whitespace characters that starts at `i`.
pub open spec fn word_end(s: Seq<char>, i: int) -> int
    decreases s.len() - i,
{
    if 0 <= i < s.len() && !is_ws(s[i]) {
        word_end(s, i + 1)
    } else {
        i
    }
}

/// The start of the run of whitespace that ends at `j`.
pub open spec fn trailing_ws_start(s: Seq<char>, j: int) -> int
    decreases j,
{
    if 0 < j <= s.len() && is_ws(s[j - 1]) {
        trailing_ws_start(s, j - 1)
    } else {
        j
    }
}

/// `s` without leading and trailing whitespace (`str::trim`).
pub open spec fn trim_seq(s: Seq<char>) -> Seq<char> {
    let a = skip_ws(s, 0);
    let b = trailing_ws_start(s, s.len() as int);
    if b <= a {
        Seq::empty()
    } else {
        s.subrange(a, b)
    }
}

/// The first whitespace-separated word of `s`
/// (`str::split_whitespace().next()`).
pub open spec fn first_word(s: Seq<char>) -> Option<Seq<char>> {
    let a = skip_ws(s, 0);
    if a >= s.len() {
        None
    } else {
        Some(s.subrange(a, word_end(s, a)))
    }
}

/// Whether `p` is a prefix of `s` (`str::starts_with`).
pub open spec fn has_prefix(s: Seq<char>, p: Seq<char>) -> bool {
    p.len() <= s.len() && s.subrange(0, p.len() as int) =~= p
}

/// Whether `p` occurs in `s` (`str::contains` with a string pattern).
pub open spec fn has_infix(s: Seq<char>, p: Seq<char>) -> bool {
    exists|i: int| 0 <= i && i + p.len() <= s.len() && #[trigger] s.subrange(i, i + p.len()) =~= p
}

/// The number of bytes of the UTF-8 encoding of `c`.
pub open spec fn char_utf8_len(c: char) -> int {
    let u = c as u32;
    if u < 0x80 {
        1
    } else if u < 0x800 {
        2
    } else if u < 0x10000 {
        3
    } else {
        4
    }
}

/// The number of bytes of the UTF-8 encoding of `s` (`str::len`).
pub open spec fn utf8_len(s: Seq<char>) -> int
    decreases s.len(),
{
    if s.len() == 0 {
        0
    } else {
        utf8_len(s.drop_last()) + char_utf8_len(s.last())
    }
}

/// Walking from character `i`, the index of the character at which `k` more
/// bytes have been passed; `None` where byte `k` falls inside a character
/// or past the end.
pub open spec fn char_at_byte(s: Seq<char>, k: int, i: int) -> Option<int>
    decreases s.len() - i,
{
    if k == 0 && 0 <= i <= s.len() {
        Some(i)
    } else if k < 0 || i < 0 || i >= s.len() {
        None
    } else {
        char_at_byte(s, k - char_utf8_len(s[i]), i + 1)
    }
}

/// `s[k..]` on the bytes of `s`: `None` where the slice would panic.
pub open spec fn byte_suffix(s: Seq<char>, k: int) -> Option<Seq<char>> {
    match char_at_byte(s, k, 0) {
        Some(j) => Some(s.subrange(j, s.len() as int)),
        None => None,
    }
}

/// The number of bytes that the UTF-8 encoding of `c` takes.
pub fn utf8_char_len(c: char) -> (n: usize)
    ensures
        n == char_utf8_len(c),
{
    let u = c as u32;
    if u < 0x80 {
        1
    } else if u < 0x800 {
        2
    } else if u < 0x10000 {
        3
    } else {
        4
    }
}

pub proof fn lemma_utf8_len_push(s: Seq<char>, c: char)
    ensures
        utf8_len(s.push(c)) == utf8_len(s) + char_utf8_len(c),
{
    assert(s.push(c).drop_last() =~= s);
}

pub proof fn lemma_utf8_len_bounds(s: Seq<char>)
    ensures
        s.len() <= utf8_len(s) <= 4 * s.len(),
    decreases s.len(),
{
    if s.len() > 0 {
        lemma_utf8_len_bounds(s.drop_last());
    }
}

/// The byte length of the UTF-8 encoding of `s`.
pub fn utf8_length(s: &str) -> (n: u128)
    ensures
        n == utf8_len(s@),
{
    let len = s.unicode_len();
    let mut i: usize = 0;
    let mut n: u128 = 0;
    while i < len
        invariant
            len == s@.len(),
            i <= len,
            n == utf8_len(s@.subrange(0, i as int)),
            n <= 4 * i,
        decreases len - i,
    {
        let c = s.get_char(i);
        proof {
            lemma_utf8_len_push(s@.subrange(0, i as int), c);
            assert(s@.subrange(0, i as int).push(c) =~= s@.subrange(0, i + 1));
        }
        n = n + utf8_char_len(c) as u128;
        i = i + 1;
    }
    proof {
        assert(s@.subrange(0, len as int) =~= s@);
    }
    n
}

/// `s` without leading and trailing whitespace.
pub fn trim(s: &str) -> (r: &str)
    ensures
        r@ == trim_seq(s@),
{
    let len = s.unicode_len();
    let mut a: usize = 0;
    while a < len && is_whitespace(s.get_char(a))
        invariant
            len == s@.len(),
            a <= len,
            skip_ws(s@, a as int) == skip_ws(s@, 0),
        decreases len - a,
    {
        a = a + 1;
    }
    let mut b: usize = len;
    while b > 0 && is_whitespace(s.get_char(b - 1))
        invariant
            len == s@.len(),
            b <= len,
            trailing_ws_start(s@, b as int) == trailing_ws_start(s@, len as int),
        decreases b,
    {
        b = b - 1;
    }
    if b <= a {
        proof {
            assert(s@.subrange(0, 0) =~= Seq::<char>::empty());
        }
        s.substring_char(0, 0)
    } else {
        s.substring_char(a, b)
    }
}

/// The first whitespace-separated word of `s`, if there is one.
pub fn first_word_of(s: &str) -> (r: Option<&str>)
    ensures
        match first_word(s@) {
            Some(w) => r is Some && r->0@ == w,
            None => r is None,
        },
{
    let len = s.unicode_len();
    let mut a: usize = 0;
    while a < len && is_whitespace(s.get_char(a))
        invariant
            len == s@.len(),
            a <= len,
            skip_ws(s@, a as int) == skip_ws(s@, 0),
        decreases len - a,
    {
        a = a + 1;
    }
    if a >= len {
        return None;
    }
    let mut e: usize = a;
    while e < len && !is_whitespace(s.get_char(e))
        invariant
            len == s@.len(),
            a <= e <= len,
            word_end(s@, e as int) == word_end(s@, a as int),
        decreases len - e,
    {
        e = e + 1;
    }
    Some(s.substring_char(a, e))
}

/// Whether `s` starts with `p`.
pub fn starts_with(s: &str, p: &str) -> (b: bool)
    ensures
        b == has_prefix(s@, p@),
{
    let n = s.unicode_len();
    let m = p.unicode_len();
    if m > n {
        return false;
    }
    let mut i: usize = 0;
    while i < m
        invariant
            n == s@.len(),
            m == p@.len(),
            m <= n,
            i <= m,
            forall|j: int| 0 <= j < i ==> s@[j] == p@[j],
        decreases m - i,
    {
        if s.get_char(i) != p.get_char(i) {
            proof {
                assert(s@.subrange(0, m as int)[i as int] != p@[i as int]);
            }
            return false;
        }
        i = i + 1;
    }
    true
}

/// `s[k..]`, where `k` counts bytes; `None` where `k` does not fall on a
/// character boundary of `s` or lies past its end.
pub fn suffix_from_byte(s: &str, k: u128) -> (r: Option<&str>)
    ensures
        match byte_suffix(s@, k as int) {
            Some(t) => r is Some && r->0@ == t,
            None => r is None,
        },
{
    let len = s.unicode_len();
    let mut i: usize = 0;
    let mut rest: u128 = k;
    while rest > 0 && i < len
        invariant
            len == s@.len(),
            i <= len,
            char_at_byte(s@, k as int, 0) == char_at_byte(s@, rest as int, i as int),
        decreases len - i,
    {
        let c = utf8_char_len(s.get_char(i)) as u128;
        if c > rest {
            proof {
                assert(char_at_byte(s@, rest as int - c, i + 1) is None) by {
                    lemma_char_at_negative(s@, rest as int - c, i + 1);
                }
            }
            return None;
        }
        rest = rest - c;
        i = i + 1;
    }
    if rest > 0 {
        return None;
    }
    Some(s.substring_char(i, len))
}

/// Whether `s` and `t` hold the same characters.
pub fn str_eq(s: &str, t: &str) -> (b: bool)
    ensures
        b == (s@ == t@),
{
    let n = s.unicode_len();
    let m = t.unicode_len();
    if n != m {
        return false;
    }
    let mut i: usize = 0;
    while i < n
        invariant
            n == s@.len(),
            m == t@.len(),
            n == m,
            i <= n,
            forall|j: int| 0 <= j < i ==> s@[j] == t@[j],
        decreases n - i,
    {
        if s.get_char(i) != t.get_char(i) {
            return false;
        }
        i = i + 1;
    }
    proof {
        assert(s@ =~= t@);
    }
    true
}

/// A copy of a list of strings.
pub fn copy_strings(v: &Vec<String>) -> (r: Vec<String>)
    ensures
        r.deep_view() == v.deep_view(),
        r@ == v@,
{
    let mut r: Vec<String> = Vec::new();
    let mut i: usize = 0;
    while i < v.len()
        invariant
            i <= v.len(),
            r@ == v@.subrange(0, i as int),
        decreases v.len() - i,
    {
        r.push(v[i].clone());
        i = i + 1;
    }
    proof {
        assert(v@.subrange(0, v.len() as int) =~= v@);
        assert(r.deep_view() =~= v.deep_view());
    }
    r
}

pub proof fn lemma_utf8_len_first(s: Seq<char>)
    requires
        s.len() > 0,
    ensures
        utf8_len(s) == char_utf8_len(s[0]) + utf8_len(s.drop_first()),
    decreases s.len(),
{
    if s.len() > 1 {
        lemma_utf8_len_first(s.drop_last());
        assert(s.drop_last().drop_first() =~= s.drop_first().drop_last());
    } else {
        assert(s.drop_last() =~= Seq::<char>::empty());
        assert(s.drop_first() =~= Seq::<char>::empty());
    }
}

/// Walking the bytes of a run of characters of `s` ends at its last character.
pub proof fn lemma_char_at_byte_run(s: Seq<char>, i: int, e: int)
    requires
        0 <= i <= e <= s.len(),
    ensures
        char_at_byte(s, utf8_len(s.subrange(i, e)), i) == Some(e),
    decreases e - i,
{
    if i == e {
        assert(s.subrange(i, e) =~= Seq::<char>::empty());
    } else {
        let r = s.subrange(i, e);
        lemma_utf8_len_first(r);
        assert(r.drop_first() =~= s.subrange(i + 1, e));
        lemma_utf8_len_bounds(r.drop_first());
        lemma_char_at_byte_run(s, i + 1, e);
    }
}

pub proof fn lemma_skip_ws_bounds(s: Seq<char>, i: int)
    requires
        0 <= i <= s.len(),
    ensures
        i <= skip_ws(s, i) <= s.len(),
        skip_ws(s, i) < s.len() ==> !is_ws(s[skip_ws(s, i)]),
        forall|j: int| i <= j < skip_ws(s, i) ==> is_ws(#[trigger] s[j]),
    decreases s.len() - i,
{
    if i < s.len() && is_ws(s[i]) {
        lemma_skip_ws_bounds(s, i + 1);
    }
}

pub proof fn lemma_word_end_bounds(s: Seq<char>, i: int)
    requires
        0 <= i <= s.len(),
    ensures
        i <= word_end(s, i) <= s.len(),
    decreases s.len() - i,
{
    if i < s.len() && !is_ws(s[i]) {
        lemma_word_end_bounds(s, i + 1);
    }
}

pub proof fn lemma_trailing_bounds(s: Seq<char>, j: int)
    requires
        0 <= j <= s.len(),
    ensures
        0 <= trailing_ws_start(s, j) <= j,
        forall|k: int| trailing_ws_start(s, j) <= k < j ==> is_ws(#[trigger] s[k]),
    decreases j,
{
    if 0 < j && is_ws(s[j - 1]) {
        lemma_trailing_bounds(s, j - 1);
    }
}

/// A trimmed text does not begin with whitespace.
pub proof fn lemma_trim_no_leading_ws(s: Seq<char>)
    ensures
        skip_ws(trim_seq(s), 0) == 0,
{
    lemma_skip_ws_bounds(s, 0);
    lemma_trailing_bounds(s, s.len() as int);
    let t = trim_seq(s);
    if t.len() > 0 {
        assert(t[0] == s[skip_ws(s, 0)]);
    }
}

/// In a text that does not begin with whitespace, slicing off the bytes of
/// its first word lands on a character boundary.
pub proof fn lemma_first_word_boundary(s: Seq<char>)
    requires
        skip_ws(s, 0) == 0,
        first_word(s) is Some,
    ensures
        byte_suffix(s, utf8_len(first_word(s)->0)) == Some(
            s.subrange(word_end(s, 0), s.len() as int),
        ),
{
    lemma_word_end_bounds(s, 0);
    lemma_char_at_byte_run(s, 0, word_end(s, 0));
}

/// The character of the decimal digit `d`.
pub open spec fn digit_char(d: nat) -> char {
    (d + 48) as char
}

/// The decimal notation of `n`, as `Display` writes an unsigned integer.
pub open spec fn decimal(n: nat) -> Seq<char>
    decreases n,
{
    if n < 10 {
        seq![digit_char(n)]
    } else {
        decimal(n / 10).push(digit_char(n % 10))
    }
}

/// The text of `a` followed by `b`.
pub fn concat_text(a: &str, b: &str) -> (r: String)
    ensures
        r@ == a@ + b@,
{
    let mut r = a.to_owned();
    r.append(b);
    r
}

/// The one-character text of the digit `d`.
fn digit_str(d: u64) -> (r: &'static str)
    requires
        d < 10,
    ensures
        r@ == seq![digit_char(d as nat)],
{
    let digits = "0123456789";
    proof {
        reveal_strlit("0123456789");
    }
    let r = digits.substring_char(d as usize, d as usize + 1);
    proof {
        assert(r@ =~= seq![digit_char(d as nat)]);
    }
    r
}

/// The decimal notation of `n`.
pub fn u64_to_string(n: u64) -> (r: String)
    ensures
        r@ == decimal(n as nat),
    decreases n,
{
    if n < 10 {
        digit_str(n).to_owned()
    } else {
        let mut r = u64_to_string(n / 10);
        r.append(digit_str(n % 10));
        r
    }
}

proof fn lemma_char_at_negative(s: Seq<char>, k: int, i: int)
    requires
        k < 0,
    ensures
        char_at_byte(s, k, i) is None,
{
}

/// `r` holds the text `s`.
pub open spec fn reply_is(r: Option<String>, s: Seq<char>) -> bool {
    r matches Some(x) && x@ == s
}

/// Whether `p` occurs in `s` at character `i`.
fn occurs_at(s: &str, p: &str, i: usize) -> (b: bool)
    requires
        i + p@.len() <= s@.len(),
    ensures
        b == (s@.subrange(i as int, i + p@.len()) =~= p@),
{
    let m = p.unicode_len();
    let n = s.unicode_len();
    let mut j: usize = 0;
    while j < m
        invariant
            j <= m,
            m == p@.len(),
            n == s@.len(),
            i + m <= s@.len(),
            forall|k: int| 0 <= k < j ==> s@[i + k] == p@[k],
        decreases m - j,
    {
        if s.get_char(i + j) != p.get_char(j) {
            proof {
                assert(s@.subrange(i as int, i + m)[j as int] != p@[j as int]);
            }
            return false;
        }
        j = j + 1;
    }
    proof {
        assert(s@.subrange(i as int, i + m) =~= p@);
    }
    true
}

/// Whether `p` occurs in `s` (`str::contains`).
pub fn contains_text(s: &str, p: &str) -> (b: bool)
    ensures
        b == has_infix(s@, p@),
{
    let n = s.unicode_len();
    let m = p.unicode_len();
    if m > n {
        return false;
    }
    let mut i: usize = 0;
    while i <= n - m
        invariant
            n == s@.len(),
            m == p@.len(),
            m <= n,
            i <= n - m + 1,
            forall|k: int| 0 <= k < i ==> !(#[trigger] s@.subrange(k, k + m) =~= p@),
        decreases n - m + 1 - i,
    {
        if occurs_at(s, p, i) {
            return true;
        }
        i = i + 1;
    }
    proof {
        assert forall|k: int| 0 <= k && k + p@.len() <= s@.len() implies !(#[trigger] s@.subrange(
            k,
            k + p@.len(),
        ) =~= p@) by {
            assert(k < i);
        }
    }
    false
}

} // verus!
