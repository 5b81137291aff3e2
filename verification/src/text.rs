//! Character and string helpers shared by the library, each with its
//! mathematical meaning over `Seq<char>`.

use vstd::prelude::*;

verus! {

// ---------------------------------------------------------------------------
// Character classes
// ---------------------------------------------------------------------------

/// ASCII letter or digit.
pub open spec fn is_ascii_alnum(c: char) -> bool {
    ('a' <= c && c <= 'z') || ('A' <= c && c <= 'Z') || ('0' <= c && c <= '9')
}

pub open spec fn is_ascii_digit(c: char) -> bool {
    '0' <= c && c <= '9'
}

pub open spec fn is_ascii_upper(c: char) -> bool {
    'A' <= c && c <= 'Z'
}

pub open spec fn is_ascii_hexdigit(c: char) -> bool {
    ('0' <= c && c <= '9') || ('a' <= c && c <= 'f') || ('A' <= c && c <= 'F')
}

/// Unicode `White_Space`, the class that `str::trim` and
/// `str::split_whitespace` strip and split on.
pub open spec fn is_ws(c: char) -> bool {
    ||| ('\u{9}' <= c && c <= '\u{d}')
    ||| c == ' '
    ||| c == '\u{85}'
    ||| c == '\u{a0}'
    ||| c == '\u{1680}'
    ||| ('\u{2000}' <= c && c <= '\u{200a}')
    ||| c == '\u{2028}'
    ||| c == '\u{2029}'
    ||| c == '\u{202f}'
    ||| c == '\u{205f}'
    ||| c == '\u{3000}'
}

/// ASCII lowercase of one character; other characters are unchanged.
pub open spec fn ascii_lower_char(c: char) -> char {
    if is_ascii_upper(c) {
        ((c as u32) + 32) as char
    } else {
        c
    }
}

pub open spec fn ascii_lower(s: Seq<char>) -> Seq<char> {
    s.map_values(|c: char| ascii_lower_char(c))
}

pub fn char_is_ascii_alnum(c: char) -> (r: bool)
    ensures
        r == is_ascii_alnum(c),
{
    let n = c as u32;
    (97 <= n && n <= 122) || (65 <= n && n <= 90) || (48 <= n && n <= 57)
}

pub fn char_is_ascii_digit(c: char) -> (r: bool)
    ensures
        r == is_ascii_digit(c),
{
    let n = c as u32;
    48 <= n && n <= 57
}

pub fn char_is_ascii_hexdigit(c: char) -> (r: bool)
    ensures
        r == is_ascii_hexdigit(c),
{
    let n = c as u32;
    (48 <= n && n <= 57) || (97 <= n && n <= 102) || (65 <= n && n <= 70)
}

pub fn char_is_ws(c: char) -> (r: bool)
    ensures
        r == is_ws(c),
{
    let n = c as u32;
    (9 <= n && n <= 13) || n == 32 || n == 0x85 || n == 0xa0 || n == 0x1680 || (0x2000 <= n
        && n <= 0x200a) || n == 0x2028 || n == 0x2029 || n == 0x202f || n == 0x205f || n
        == 0x3000
}

pub fn char_to_ascii_lower(c: char) -> (r: char)
    ensures
        r == ascii_lower_char(c),
{
    let n = c as u32;
    if 65 <= n && n <= 90 {
        let b: u8 = (n + 32) as u8;
        b as char
    } else {
        c
    }
}

// ---------------------------------------------------------------------------
// Conversions between `&str`, `String` and `Vec<char>`
// ---------------------------------------------------------------------------

/// Characters of a string slice, in order.
pub fn chars_of(s: &str) -> (v: Vec<char>)
    ensures
        v@ == s@,
{
    let n = s.unicode_len();
    let mut v: Vec<char> = Vec::new();
    let mut i: usize = 0;
    while i < n
        invariant
            n == s@.len(),
            i <= n,
            v@ == s@.subrange(0, i as int),
        decreases n - i,
    {
        v.push(s.get_char(i));
        i = i + 1;
    }
    v
}

/// `String::push` from std, as its documentation states it: the character
/// is appended at the end.
pub assume_specification[ String::push ](s: &mut String, ch: char)
    ensures
        final(s)@ == old(s)@.push(ch),
;

/// A `String` holding exactly the given characters.
pub fn string_of(v: &Vec<char>) -> (s: String)
    ensures
        s@ == v@,
{
    let mut s = String::new();
    let mut i: usize = 0;
    while i < v.len()
        invariant
            i <= v.len(),
            s@ == v@.subrange(0, i as int),
        decreases v.len() - i,
    {
        s.push(v[i]);
        i = i + 1;
    }
    s
}

/// The characters `v[a..b]`.
pub fn sub_chars(v: &Vec<char>, a: usize, b: usize) -> (r: Vec<char>)
    requires
        a <= b <= v.len(),
    ensures
        r@ == v@.subrange(a as int, b as int),
{
    let mut r: Vec<char> = Vec::new();
    let mut i = a;
    while i < b
        invariant
            a <= i <= b <= v.len(),
            r@ == v@.subrange(a as int, i as int),
        decreases b - i,
    {
        r.push(v[i]);
        i = i + 1;
    }
    r
}

/// Appends the characters of `s` to `out`.
pub fn push_str(out: &mut String, s: &str)
    ensures
        final(out)@ == old(out)@ + s@,
{
    out.append(s);
}

/// Appends the characters of `v` to `out`.
pub fn push_chars(out: &mut String, v: &Vec<char>)
    ensures
        final(out)@ == old(out)@ + v@,
{
    let ghost start = out@;
    let mut i: usize = 0;
    while i < v.len()
        invariant
            i <= v.len(),
            out@ == start + v@.subrange(0, i as int),
        decreases v.len() - i,
    {
        out.push(v[i]);
        i = i + 1;
        assert(v@.subrange(0, i as int) =~= v@.subrange(0, i - 1).push(v@[i - 1]));
    }
    assert(v@.subrange(0, v.len() as int) =~= v@);
}

// ---------------------------------------------------------------------------
// Equality, lowercase
// ---------------------------------------------------------------------------

pub fn chars_eq(a: &Vec<char>, b: &Vec<char>) -> (r: bool)
    ensures
        r == (a@ == b@),
{
    if a.len() != b.len() {
        return false;
    }
    let mut i: usize = 0;
    while i < a.len()
        invariant
            a.len() == b.len(),
            i <= a.len(),
            forall|k: int| 0 <= k < i ==> a@[k] == b@[k],
        decreases a.len() - i,
    {
        if a[i] != b[i] {
            return false;
        }
        i = i + 1;
    }
    assert(a@ =~= b@);
    true
}

/// `a == b` on string slices.
pub fn str_eq(a: &str, b: &str) -> (r: bool)
    ensures
        r == (a@ == b@),
{
    let va = chars_of(a);
    let vb = chars_of(b);
    chars_eq(&va, &vb)
}

pub fn ascii_lower_chars(v: &Vec<char>) -> (r: Vec<char>)
    ensures
        r@ == ascii_lower(v@),
{
    let mut r: Vec<char> = Vec::new();
    let mut i: usize = 0;
    while i < v.len()
        invariant
            i <= v.len(),
            r@ == ascii_lower(v@.subrange(0, i as int)),
        decreases v.len() - i,
    {
        r.push(char_to_ascii_lower(v[i]));
        i = i + 1;
        assert(ascii_lower(v@.subrange(0, i as int)) =~= ascii_lower(v@.subrange(0, i - 1)).push(
            ascii_lower_char(v@[i - 1]),
        ));
    }
    assert(v@.subrange(0, v.len() as int) =~= v@);
    r
}

/// `str::to_ascii_lowercase`.
pub fn to_ascii_lowercase(s: &str) -> (r: String)
    ensures
        r@ == ascii_lower(s@),
{
    let v = chars_of(s);
    let l = ascii_lower_chars(&v);
    string_of(&l)
}

/// `str::eq_ignore_ascii_case`.
pub fn eq_ignore_ascii_case(a: &str, b: &str) -> (r: bool)
    ensures
        r == (ascii_lower(a@) == ascii_lower(b@)),
{
    let la = ascii_lower_chars(&chars_of(a));
    let lb = ascii_lower_chars(&chars_of(b));
    chars_eq(&la, &lb)
}

/// Unicode lowercase mapping of a string (`str::to_lowercase`).
pub uninterp spec fn unicode_lowercase(s: Seq<char>) -> Seq<char>;

/// Calls `str::to_lowercase` from std. The contract claims that the result
/// is a function of the input's characters, named `unicode_lowercase`, and
/// that on ASCII text it is the ASCII lowercase (Unicode lowercases `A`-`Z`
/// to `a`-`z` and leaves the other ASCII characters alone).
#[verifier::external_body]
pub(crate) fn to_lowercase(s: &str) -> (r: String)
    ensures
        r@ == unicode_lowercase(s@),
        (forall|i: int| 0 <= i < s@.len() ==> (#[trigger] s@[i] as u32) < 128) ==> r@ == ascii_lower(s@),
{
    s.to_lowercase()
}

/// Unicode uppercase mapping of a character (`char::to_uppercase`).
pub uninterp spec fn unicode_upper_char(c: char) -> Seq<char>;

/// Calls `char::to_uppercase` from std and collects the characters. The
/// contract claims only that the result depends on the character alone,
/// named `unicode_upper_char`.
#[verifier::external_body]
pub(crate) fn char_to_uppercase(c: char) -> (r: String)
    ensures
        r@ == unicode_upper_char(c),
{
    c.to_uppercase().collect::<String>()
}

// ---------------------------------------------------------------------------
// Trimming
// ---------------------------------------------------------------------------

pub open spec fn trim_start(s: Seq<char>) -> Seq<char>
    decreases s.len(),
{
    if s.len() > 0 && is_ws(s[0]) {
        trim_start(s.drop_first())
    } else {
        s
    }
}

pub open spec fn trim_end(s: Seq<char>) -> Seq<char>
    decreases s.len(),
{
    if s.len() > 0 && is_ws(s.last()) {
        trim_end(s.drop_last())
    } else {
        s
    }
}

/// `str::trim`: leading and trailing Unicode whitespace removed.
pub open spec fn trim(s: Seq<char>) -> Seq<char> {
    trim_end(trim_start(s))
}

proof fn lemma_trim_start_at(s: Seq<char>, i: int)
    requires
        0 <= i <= s.len(),
        forall|k: int| 0 <= k < i ==> is_ws(#[trigger] s[k]),
        i == s.len() || !is_ws(s[i]),
    ensures
        trim_start(s) == s.subrange(i, s.len() as int),
    decreases i,
{
    if i == 0 {
        assert(s.subrange(0, s.len() as int) =~= s);
    } else {
        assert(is_ws(s[0]));
        let t = s.drop_first();
        assert forall|k: int| 0 <= k < i - 1 implies is_ws(#[trigger] t[k]) by {
            assert(t[k] == s[k + 1]);
        }
        lemma_trim_start_at(t, i - 1);
        assert(t.subrange(i - 1, t.len() as int) =~= s.subrange(i, s.len() as int));
    }
}

proof fn lemma_trim_end_at(s: Seq<char>, j: int)
    requires
        0 <= j <= s.len(),
        forall|k: int| j <= k < s.len() ==> is_ws(#[trigger] s[k]),
        j == 0 || !is_ws(s[j - 1]),
    ensures
        trim_end(s) == s.subrange(0, j),
    decreases s.len() - j,
{
    if j == s.len() {
        assert(s.subrange(0, j) =~= s);
    } else {
        assert(is_ws(s.last()));
        let t = s.drop_last();
        assert forall|k: int| j <= k < t.len() implies is_ws(#[trigger] t[k]) by {
            assert(t[k] == s[k]);
        }
        lemma_trim_end_at(t, j);
        assert(t.subrange(0, j) =~= s.subrange(0, j));
    }
}

pub fn trim_chars(v: &Vec<char>) -> (r: Vec<char>)
    ensures
        r@ == trim(v@),
{
    let n = v.len();
    let mut i: usize = 0;
    while i < n && char_is_ws(v[i])
        invariant
            n == v.len(),
            i <= n,
            forall|k: int| 0 <= k < i ==> is_ws(#[trigger] v@[k]),
        decreases n - i,
    {
        i = i + 1;
    }
    let mut j: usize = n;
    while j > i && char_is_ws(v[j - 1])
        invariant
            n == v.len(),
            i <= j <= n,
            forall|k: int| j <= k < n ==> is_ws(#[trigger] v@[k]),
        decreases j - i,
    {
        j = j - 1;
    }
    proof {
        lemma_trim_start_at(v@, i as int);
        let t = v@.subrange(i as int, n as int);
        assert forall|k: int| j - i <= k < t.len() implies is_ws(#[trigger] t[k]) by {
            assert(t[k] == v@[k + i]);
        }
        if j > i {
            assert(t[j - i - 1] == v@[j - 1]);
        }
        lemma_trim_end_at(t, j - i);
        assert(t.subrange(0, j - i) =~= v@.subrange(i as int, j as int));
    }
    sub_chars(v, i, j)
}

/// `str::trim`, as an owned string.
pub fn trim_str(s: &str) -> (r: String)
    ensures
        r@ == trim(s@),
{
    let v = chars_of(s);
    let t = trim_chars(&v);
    string_of(&t)
}


// ---------------------------------------------------------------------------
// Decimal rendering of integers
// ---------------------------------------------------------------------------

pub open spec fn digit_char(d: nat) -> char {
    (48 + d) as char
}

/// The decimal digits of `n` (what `to_string` and `{}` print for an
/// unsigned integer).
pub open spec fn decimal(n: nat) -> Seq<char>
    decreases n,
{
    if n < 10 {
        seq![digit_char(n)]
    } else {
        decimal(n / 10).push(digit_char(n % 10))
    }
}

pub fn decimal_chars(n: u64) -> (r: Vec<char>)
    ensures
        r@ == decimal(n as nat),
    decreases n,
{
    if n < 10 {
        let b: u8 = (48 + n) as u8;
        let mut v: Vec<char> = Vec::new();
        v.push(b as char);
        v
    } else {
        let mut v = decimal_chars(n / 10);
        let b: u8 = (48 + n % 10) as u8;
        v.push(b as char);
        v
    }
}

/// `n.to_string()` for an unsigned integer.
pub fn u64_to_string(n: u64) -> (r: String)
    ensures
        r@ == decimal(n as nat),
{
    let v = decimal_chars(n);
    string_of(&v)
}


// ---------------------------------------------------------------------------
// Joining, searching and replacing
// ---------------------------------------------------------------------------

/// The parts joined with `sep` between consecutive parts (`[..].join(sep)`).
pub open spec fn join(parts: Seq<Seq<char>>, sep: Seq<char>) -> Seq<char>
    decreases parts.len(),
{
    if parts.len() == 0 {
        Seq::empty()
    } else if parts.len() == 1 {
        parts[0]
    } else {
        join(parts.drop_last(), sep) + sep + parts.last()
    }
}

/// The views of a vector of strings.
pub open spec fn views(v: Seq<String>) -> Seq<Seq<char>> {
    v.map_values(|s: String| s@)
}

pub fn join_strings(parts: &Vec<String>, sep: &str) -> (r: String)
    ensures
        r@ == join(views(parts@), sep@),
{
    let mut r = String::new();
    let mut i: usize = 0;
    while i < parts.len()
        invariant
            i <= parts.len(),
            r@ == join(views(parts@.subrange(0, i as int)), sep@),
        decreases parts.len() - i,
    {
        let ghost before = views(parts@.subrange(0, i as int));
        if i > 0 {
            r.append(sep);
        }
        r.append(parts[i].as_str());
        i = i + 1;
        proof {
            let now = views(parts@.subrange(0, i as int));
            assert(now.drop_last() =~= before);
            assert(now.last() == parts@[i - 1]@);
            if i == 1 {
                assert(before =~= Seq::<Seq<char>>::empty());
            }
        }
    }
    assert(parts@.subrange(0, parts.len() as int) =~= parts@);
    r
}

/// `s[i..i + pat.len()] == pat`.
pub open spec fn matches_at(s: Seq<char>, i: int, pat: Seq<char>) -> bool {
    0 <= i && i + pat.len() <= s.len() && s.subrange(i, i + pat.len()) == pat
}

/// `s` contains `pat` as a contiguous piece (`str::contains`).
pub open spec fn contains_seq(s: Seq<char>, pat: Seq<char>) -> bool {
    exists|i: int| matches_at(s, i, pat)
}

pub fn chars_match_at(s: &Vec<char>, i: usize, pat: &Vec<char>) -> (r: bool)
    ensures
        r == matches_at(s@, i as int, pat@),
{
    if i > s.len() || pat.len() > s.len() - i {
        return false;
    }
    let mut k: usize = 0;
    while k < pat.len()
        invariant
            i + pat.len() <= s.len(),
            k <= pat.len(),
            forall|j: int| 0 <= j < k ==> s@[i + j] == pat@[j],
        decreases pat.len() - k,
    {
        if s[i + k] != pat[k] {
            assert(s@.subrange(i as int, i + pat.len())[k as int] != pat@[k as int]);
            return false;
        }
        k = k + 1;
    }
    assert(s@.subrange(i as int, i + pat.len()) =~= pat@);
    true
}

pub fn chars_contains(s: &Vec<char>, pat: &Vec<char>) -> (r: bool)
    ensures
        r == contains_seq(s@, pat@),
{
    if pat.len() > s.len() {
        return false;
    }
    let mut i: usize = 0;
    loop
        invariant
            pat.len() <= s.len(),
            i <= s.len() - pat.len(),
            forall|j: int| 0 <= j < i ==> !matches_at(s@, j, pat@),
        decreases s.len() - pat.len() - i,
    {
        if chars_match_at(s, i, pat) {
            return true;
        }
        if i == s.len() - pat.len() {
            assert forall|j: int| matches_at(s@, j, pat@) implies false by {
                assert(j <= i);
            }
            return false;
        }
        i = i + 1;
    }
}

/// `str::starts_with`.
pub open spec fn starts_with(s: Seq<char>, prefix: Seq<char>) -> bool {
    prefix.len() <= s.len() && s.subrange(0, prefix.len() as int) == prefix
}

pub fn chars_starts_with(s: &Vec<char>, prefix: &Vec<char>) -> (r: bool)
    ensures
        r == starts_with(s@, prefix@),
{
    chars_match_at(s, 0, prefix)
}

/// Every non-overlapping occurrence of `pat`, scanning left to right,
/// replaced by `rep` (`str::replace` with a non-empty pattern).
pub open spec fn replace_all(s: Seq<char>, pat: Seq<char>, rep: Seq<char>) -> Seq<char>
    decreases s.len(),
{
    if pat.len() == 0 || s.len() < pat.len() {
        s
    } else if s.subrange(0, pat.len() as int) == pat {
        rep + replace_all(s.subrange(pat.len() as int, s.len() as int), pat, rep)
    } else {
        seq![s[0]] + replace_all(s.drop_first(), pat, rep)
    }
}

pub fn replace_chars(s: &Vec<char>, pat: &Vec<char>, rep: &Vec<char>) -> (r: Vec<char>)
    requires
        pat.len() > 0,
    ensures
        r@ == replace_all(s@, pat@, rep@),
{
    let n = s.len();
    let mut out: Vec<char> = Vec::new();
    let mut i: usize = 0;
    assert(s@.subrange(0, n as int) =~= s@);
    assert(Seq::<char>::empty() + replace_all(s@, pat@, rep@) =~= replace_all(s@, pat@, rep@));
    while i < n
        invariant
            n == s.len(),
            pat.len() > 0,
            i <= n,
            out@ + replace_all(s@.subrange(i as int, n as int), pat@, rep@) == replace_all(s@, pat@, rep@),
        decreases n - i,
    {
        let ghost rest = s@.subrange(i as int, n as int);
        if chars_match_at(s, i, pat) {
            proof {
                assert(rest.subrange(0, pat.len() as int) =~= s@.subrange(i as int, i + pat.len()));
                assert(rest.subrange(pat.len() as int, rest.len() as int) =~= s@.subrange(i + pat.len(), n as int));
            }
            let mut k: usize = 0;
            let ghost out0 = out@;
            while k < rep.len()
                invariant
                    k <= rep.len(),
                    out@ == out0 + rep@.subrange(0, k as int),
                decreases rep.len() - k,
            {
                out.push(rep[k]);
                k = k + 1;
                assert(rep@.subrange(0, k as int) =~= rep@.subrange(0, k - 1).push(rep@[k - 1]));
            }
            assert(rep@.subrange(0, rep.len() as int) =~= rep@);
            assert(out@ =~= out0 + rep@);
            i = i + pat.len();
        } else {
            proof {
                if rest.len() >= pat.len() {
                    assert(rest.subrange(0, pat.len() as int) =~= s@.subrange(i as int, i + pat.len()));
                }
                assert(rest.drop_first() =~= s@.subrange(i + 1, n as int));
            }
            out.push(s[i]);
            i = i + 1;
        }
    }
    assert(s@.subrange(n as int, n as int) =~= Seq::<char>::empty());
    assert(out@ + Seq::<char>::empty() =~= out@);
    out
}

/// `str::replace` with a non-empty pattern.
pub fn replace_str(s: &str, pat: &str, rep: &str) -> (r: String)
    requires
        pat@.len() > 0,
    ensures
        r@ == replace_all(s@, pat@, rep@),
{
    let v = replace_chars(&chars_of(s), &chars_of(pat), &chars_of(rep));
    string_of(&v)
}


/// Before the first occurrence of `pat`, replacing leaves the text as it was.
pub proof fn lemma_replace_prefix(s: Seq<char>, pat: Seq<char>, rep: Seq<char>, k: int)
    requires
        pat.len() > 0,
        0 <= k <= s.len(),
        forall|j: int| 0 <= j < k ==> !matches_at(s, j, pat),
    ensures
        replace_all(s, pat, rep) == s.subrange(0, k) + replace_all(s.subrange(k, s.len() as int), pat, rep),
    decreases k,
{
    if k == 0 {
        assert(s.subrange(0, s.len() as int) =~= s);
        assert(s.subrange(0, 0) + replace_all(s, pat, rep) =~= replace_all(s, pat, rep));
    } else if s.len() < pat.len() {
        assert(s.subrange(k, s.len() as int).len() < pat.len());
        assert(s.subrange(0, k) + s.subrange(k, s.len() as int) =~= s);
    } else {
        assert(!matches_at(s, 0, pat));
        assert(s.subrange(0, pat.len() as int) != pat);
        let u = s.drop_first();
        assert forall|j: int| 0 <= j < k - 1 implies !matches_at(u, j, pat) by {
            assert(!matches_at(s, j + 1, pat));
            if matches_at(u, j, pat) {
                assert(u.subrange(j, j + pat.len()) =~= s.subrange(j + 1, j + 1 + pat.len()));
            }
        }
        lemma_replace_prefix(u, pat, rep, k - 1);
        assert(u.subrange(k - 1, u.len() as int) =~= s.subrange(k, s.len() as int));
        assert(seq![s[0]] + u.subrange(0, k - 1) =~= s.subrange(0, k));
        assert(seq![s[0]] + (u.subrange(0, k - 1) + replace_all(s.subrange(k, s.len() as int), pat, rep))
            =~= s.subrange(0, k) + replace_all(s.subrange(k, s.len() as int), pat, rep));
    }
}

/// The first occurrence of `pat` in `s` at or after `i`, below `b`.
proof fn first_match_from(s: Seq<char>, pat: Seq<char>, i: int, b: int) -> (j: int)
    requires
        0 <= i <= b,
        exists|m: int| i <= m < b && matches_at(s, m, pat),
    ensures
        i <= j < b,
        matches_at(s, j, pat),
        forall|m: int| i <= m < j ==> !matches_at(s, m, pat),
    decreases b - i,
{
    if matches_at(s, i, pat) {
        i
    } else {
        let m = choose|m: int| i <= m < b && matches_at(s, m, pat);
        assert(i + 1 <= m);
        first_match_from(s, pat, i + 1, b)
    }
}

/// Replacing cannot create a new occurrence of `pat` when the first
/// character of `pat` occurs nowhere else in `pat` or in `rep` but at the
/// start of `rep`, and `rep` is no prefix of `pat`: the result holds no
/// occurrence of `pat`.
pub proof fn lemma_replace_removes_all(s: Seq<char>, pat: Seq<char>, rep: Seq<char>)
    requires
        pat.len() > 0,
        0 < rep.len() <= pat.len(),
        rep[0] == pat[0],
        forall|j: int| 1 <= j < pat.len() ==> #[trigger] pat[j] != pat[0],
        forall|j: int| 1 <= j < rep.len() ==> #[trigger] rep[j] != pat[0],
        rep != pat.take(rep.len() as int),
    ensures
        !contains_seq(replace_all(s, pat, rep), pat),
    decreases s.len(),
{
    let r = replace_all(s, pat, rep);
    if s.len() < pat.len() {
        assert forall|i: int| !matches_at(r, i, pat) by {}
    } else if s.subrange(0, pat.len() as int) == pat {
        let rest = s.subrange(pat.len() as int, s.len() as int);
        lemma_replace_removes_all(rest, pat, rep);
        let t = replace_all(rest, pat, rep);
        assert(r == rep + t);
        assert forall|i: int| !matches_at(r, i, pat) by {
            if matches_at(r, i, pat) {
                if i >= rep.len() {
                    assert(r.subrange(i, i + pat.len()) =~= t.subrange(i - rep.len(), i - rep.len() + pat.len()));
                    assert(matches_at(t, i - rep.len(), pat));
                } else if i > 0 {
                    assert(r.subrange(i, i + pat.len())[0] == r[i]);
                    assert(r[i] == rep[i]);
                } else {
                    assert(rep =~= r.subrange(0, pat.len() as int).take(rep.len() as int));
                }
            }
        }
    } else {
        let u = s.drop_first();
        lemma_replace_removes_all(u, pat, rep);
        let t = replace_all(u, pat, rep);
        assert(r == seq![s[0]] + t);
        assert forall|i: int| !matches_at(r, i, pat) by {
            if matches_at(r, i, pat) {
                if i >= 1 {
                    assert(r.subrange(i, i + pat.len()) =~= t.subrange(i - 1, i - 1 + pat.len()));
                    assert(matches_at(t, i - 1, pat));
                } else {
                    let b = pat.len() - 1;
                    if exists|m: int| 0 <= m < b && matches_at(u, m, pat) {
                        let j = first_match_from(u, pat, 0, b);
                        lemma_replace_prefix(u, pat, rep, j);
                        let w = u.subrange(j, u.len() as int);
                        assert(w.subrange(0, pat.len() as int) =~= u.subrange(j, j + pat.len()));
                        assert(replace_all(w, pat, rep) == rep + replace_all(w.subrange(pat.len() as int, w.len() as int), pat, rep));
                        assert(t[j] == rep[0]);
                        assert(r[j + 1] == t[j]);
                        assert(r.subrange(0, pat.len() as int)[j + 1] == pat[j + 1]);
                    } else {
                        lemma_replace_prefix(u, pat, rep, b);
                        assert(t.subrange(0, b) =~= u.subrange(0, b));
                        assert(r.subrange(0, pat.len() as int) =~= s.subrange(0, pat.len() as int));
                    }
                }
            }
        }
    }
}

// ---------------------------------------------------------------------------
// Splitting
// ---------------------------------------------------------------------------

/// The pieces between occurrences of `sep`, empty ones included
/// (`str::split` with a character).
pub open spec fn split_pieces(s: Seq<char>, sep: char) -> Seq<Seq<char>>
    decreases s.len(),
{
    if s.len() == 0 {
        seq![Seq::empty()]
    } else {
        let p = split_pieces(s.drop_last(), sep);
        if s.last() == sep {
            p.push(Seq::empty())
        } else {
            p.update(p.len() - 1, p.last().push(s.last()))
        }
    }
}

/// Splitting always gives at least one piece.
pub proof fn lemma_split_pieces_len(s: Seq<char>, sep: char)
    ensures
        split_pieces(s, sep).len() >= 1,
    decreases s.len(),
{
    if s.len() > 0 {
        lemma_split_pieces_len(s.drop_last(), sep);
    }
}

pub fn split_on(s: &str, sep: char) -> (r: Vec<String>)
    ensures
        views(r@) == split_pieces(s@, sep),
{
    let v = chars_of(s);
    let mut pieces: Vec<Vec<char>> = Vec::new();
    pieces.push(Vec::new());
    let mut i: usize = 0;
    assert(v@.take(0) =~= Seq::<char>::empty());
    assert(pieces@.map_values(|p: Vec<char>| p@) =~= split_pieces(v@.take(0), sep));
    while i < v.len()
        invariant
            i <= v.len(),
            pieces@.len() >= 1,
            pieces@.map_values(|p: Vec<char>| p@) == split_pieces(v@.take(i as int), sep),
        decreases v.len() - i,
    {
        let c = v[i];
        proof {
            assert(v@.take(i + 1).drop_last() =~= v@.take(i as int));
            assert(v@.take(i + 1).last() == c);
        }
        let ghost before = pieces@.map_values(|p: Vec<char>| p@);
        if c == sep {
            pieces.push(Vec::new());
            assert(pieces@.map_values(|p: Vec<char>| p@) =~= before.push(Seq::empty()));
        } else {
            let last = pieces.len() - 1;
            let mut w = pieces[last].clone();
            w.push(c);
            pieces.set(last, w);
            assert(pieces@.map_values(|p: Vec<char>| p@) =~= before.update(before.len() - 1, before.last().push(c)));
        }
        i = i + 1;
    }
    assert(v@.take(v.len() as int) =~= v@);
    let ghost pv = pieces@.map_values(|p: Vec<char>| p@);
    let mut out: Vec<String> = Vec::new();
    let mut k: usize = 0;
    while k < pieces.len()
        invariant
            k <= pieces.len(),
            pv == pieces@.map_values(|p: Vec<char>| p@),
            views(out@) == pv.take(k as int),
        decreases pieces.len() - k,
    {
        let ghost before = views(out@);
        out.push(string_of(&pieces[k]));
        assert(views(out@) =~= before.push(pv[k as int]));
        k = k + 1;
        assert(pv.take(k as int) =~= pv.take(k - 1).push(pv[k - 1]));
    }
    assert(pv.take(pieces.len() as int) =~= pv);
    out
}

} // verus!
