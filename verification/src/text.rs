//! Character-level helpers on `String` and `&str`, stated over `Seq<char>`.
use vstd::prelude::*;

verus! {

/// Appends one character to a string.
/// Trusted: `String::push` appends exactly the given character to the end. It panics when
/// the string would pass `isize::MAX` bytes; no `requires` states that bound, as none does for
/// the other growing string operations that Verus specifies.
#[verifier::external_body]
pub(crate) fn push_char(s: &mut String, c: char)
    ensures
        final(s)@ == old(s)@.push(c),
{
    s.push(c);
}

/// The characters of a string slice, in order.
pub fn chars_of(s: &str) -> (res: Vec<char>)
    ensures
        res@ == s@,
{
    let mut res: Vec<char> = Vec::new();
    for c in it: s.chars()
        invariant
            res@ == it.seq().take(it.index() as int),
            it.seq() == s@,
    {
        res.push(c);
    }
    res
}


/// A string whose characters are exactly the given sequence.
pub fn string_from_chars(cs: &[char]) -> (res: String)
    ensures
        res@ == cs@,
{
    let mut res = String::new();
    let mut i: usize = 0;
    while i < cs.len()
        invariant
            i <= cs@.len(),
            res@ == cs@.take(i as int),
        decreases cs@.len() - i,
    {
        push_char(&mut res, cs[i]);
        i = i + 1;
        assert(cs@.take(i as int) == cs@.take(i - 1).push(cs@[i - 1]));
    }
    assert(cs@.take(cs@.len() as int) == cs@);
    res
}

/// Unicode `White_Space`: the characters that `char::is_whitespace` accepts.
pub open spec fn is_white_space(c: char) -> bool {
    ||| ('\u{9}' <= c && c <= '\u{d}')
    ||| c == ' '
    ||| c == '\u{85}'
    ||| c == '\u{a0}'
    ||| c == '\u{1680}'
    ||| ('\u{2000}' <= c && c <= '\u{200a}')
    ||| c == '\u{2028}'
    ||| c == '\u{2029}'
    ||| c == '\u{202f}'
    ||| c == '\u{205f}'
    ||| c == '\u{3000}'
}

/// Executable form of `is_white_space`.
pub fn is_white_space_char(c: char) -> (b: bool)
    ensures
        b == is_white_space(c),
{
    ('\u{9}' <= c && c <= '\u{d}') || c == ' ' || c == '\u{85}' || c == '\u{a0}' || c == '\u{1680}'
        || ('\u{2000}' <= c && c <= '\u{200a}') || c == '\u{2028}' || c == '\u{2029}'
        || c == '\u{202f}' || c == '\u{205f}' || c == '\u{3000}'
}

/// Number of leading white-space characters of `s`.
pub open spec fn leading_ws(s: Seq<char>) -> nat
    decreases s.len(),
{
    if s.len() > 0 && is_white_space(s[0]) {
        1 + leading_ws(s.skip(1))
    } else {
        0
    }
}

/// Number of trailing white-space characters of `s`.
pub open spec fn trailing_ws(s: Seq<char>) -> nat
    decreases s.len(),
{
    if s.len() > 0 && is_white_space(s.last()) {
        1 + trailing_ws(s.drop_last())
    } else {
        0
    }
}

/// `s` with leading and trailing white space removed, as `str::trim` does.
pub open spec fn trimmed(s: Seq<char>) -> Seq<char> {
    let a = leading_ws(s) as int;
    if a == s.len() {
        Seq::empty()
    } else {
        s.subrange(a, s.len() - trailing_ws(s) as int)
    }
}

/// A string is blank when it is empty after trimming.
pub open spec fn is_blank(s: Seq<char>) -> bool {
    forall|i: int| 0 <= i < s.len() ==> is_white_space(#[trigger] s[i])
}

proof fn lemma_leading_ws(s: Seq<char>)
    ensures
        leading_ws(s) <= s.len(),
        forall|i: int| 0 <= i < leading_ws(s) ==> is_white_space(#[trigger] s[i]),
        leading_ws(s) < s.len() ==> !is_white_space(s[leading_ws(s) as int]),
    decreases s.len(),
{
    if s.len() > 0 && is_white_space(s[0]) {
        lemma_leading_ws(s.skip(1));
        assert forall|i: int| 0 <= i < leading_ws(s) implies is_white_space(#[trigger] s[i]) by {
            if i > 0 {
                assert(s[i] == s.skip(1)[i - 1]);
            }
        }
    }
}

proof fn lemma_trailing_ws(s: Seq<char>)
    ensures
        trailing_ws(s) <= s.len(),
        forall|i: int| s.len() - trailing_ws(s) <= i < s.len() ==> is_white_space(#[trigger] s[i]),
        trailing_ws(s) < s.len() ==> !is_white_space(s[s.len() - trailing_ws(s) - 1]),
    decreases s.len(),
{
    if s.len() > 0 && is_white_space(s.last()) {
        lemma_trailing_ws(s.drop_last());
        assert forall|i: int| s.len() - trailing_ws(s) <= i < s.len() implies is_white_space(
            #[trigger] s[i],
        ) by {
            if i < s.len() - 1 {
                assert(s[i] == s.drop_last()[i]);
            }
        }
    }
}

/// Trimming leaves nothing exactly when every character is white space.
pub proof fn lemma_trimmed_empty_iff_blank(s: Seq<char>)
    ensures
        trimmed(s).len() == 0 <==> is_blank(s),
{
    lemma_leading_ws(s);
    lemma_trailing_ws(s);
    if leading_ws(s) < s.len() {
        let a = leading_ws(s) as int;
        assert(!is_white_space(s[a]));
        assert(s.len() - trailing_ws(s) > a) by {
            if s.len() - trailing_ws(s) <= a {
                assert(is_white_space(s[a]));
            }
        }
    }
}

/// Index of the first character of `cs` that is not white space (or `cs.len()`).
fn first_non_ws(cs: &Vec<char>) -> (k: usize)
    ensures
        k == leading_ws(cs@),
{
    proof { lemma_leading_ws(cs@); }
    let mut k: usize = 0;
    while k < cs.len() && is_white_space_char(cs[k])
        invariant
            k <= cs@.len(),
            forall|i: int| 0 <= i < k ==> is_white_space(#[trigger] cs@[i]),
            k <= leading_ws(cs@),
            leading_ws(cs@) <= cs@.len(),
            leading_ws(cs@) < cs@.len() ==> !is_white_space(cs@[leading_ws(cs@) as int]),
        decreases cs@.len() - k,
    {
        k = k + 1;
    }
    k
}

/// Number of trailing white-space characters of `cs`.
fn count_trailing_ws(cs: &Vec<char>) -> (k: usize)
    ensures
        k == trailing_ws(cs@),
{
    proof { lemma_trailing_ws(cs@); }
    let mut k: usize = 0;
    while k < cs.len() && is_white_space_char(cs[cs.len() - 1 - k])
        invariant
            k <= cs@.len(),
            forall|i: int| cs@.len() - k <= i < cs@.len() ==> is_white_space(#[trigger] cs@[i]),
            k <= trailing_ws(cs@),
            trailing_ws(cs@) <= cs@.len(),
            trailing_ws(cs@) < cs@.len() ==> !is_white_space(
                cs@[cs@.len() - trailing_ws(cs@) - 1],
            ),
        decreases cs@.len() - k,
    {
        k = k + 1;
    }
    k
}

/// `s` without leading and trailing white space (`str::trim`).
pub fn trim(s: &str) -> (res: String)
    ensures
        res@ == trimmed(s@),
{
    let cs = chars_of(s);
    let a = first_non_ws(&cs);
    if a == cs.len() {
        return String::new();
    }
    let t = count_trailing_ws(&cs);
    proof {
        lemma_leading_ws(cs@);
        lemma_trailing_ws(cs@);
        lemma_trimmed_empty_iff_blank(cs@);
        assert(cs.len() - t > a) by {
            if cs.len() - t <= a {
                assert(is_white_space(cs@[a as int]));
            }
        }
    }
    string_from_chars(&cs[a..cs.len() - t])
}

/// Whether `s` is empty after trimming white space.
pub fn is_blank_str(s: &str) -> (b: bool)
    ensures
        b == is_blank(s@),
        b == (trimmed(s@).len() == 0),
{
    proof {
        lemma_trimmed_empty_iff_blank(s@);
        lemma_leading_ws(s@);
        if leading_ws(s@) < s@.len() {
            assert(!is_white_space(s@[leading_ws(s@) as int]));
        }
    }
    let cs = chars_of(s);
    first_non_ws(&cs) == cs.len()
}


/// The character of a decimal digit `d < 10`.
pub open spec fn decimal_digit_char(d: nat) -> char {
    (('0' as u32) + d) as char
}

/// The decimal digits of `n`, most significant first, without leading zeros.
pub open spec fn decimal_digits(n: nat) -> Seq<char>
    decreases n,
{
    if n < 10 {
        seq![decimal_digit_char(n)]
    } else {
        decimal_digits(n / 10).push(decimal_digit_char(n % 10))
    }
}

/// A number has at least one digit, and more than one from ten on.
proof fn lemma_decimal_digits_len(n: nat)
    ensures
        decimal_digits(n).len() >= 1,
        n >= 10 ==> decimal_digits(n).len() >= 2,
    decreases n,
{
    if n >= 10 {
        lemma_decimal_digits_len(n / 10);
    }
}

/// Different numbers have different decimal digits.
pub proof fn lemma_decimal_digits_injective(n: nat, m: nat)
    requires
        n != m,
    ensures
        decimal_digits(n) != decimal_digits(m),
    decreases n + m,
{
    lemma_decimal_digits_len(n);
    lemma_decimal_digits_len(m);
    if n < 10 && m < 10 {
        assert(decimal_digits(n)[0] == decimal_digit_char(n));
        assert(decimal_digits(m)[0] == decimal_digit_char(m));
        assert(decimal_digit_char(n) as u32 == 48 + n);
        assert(decimal_digit_char(m) as u32 == 48 + m);
    } else if n >= 10 && m >= 10 {
        if n % 10 != m % 10 {
            assert(decimal_digits(n).last() == decimal_digit_char(n % 10));
            assert(decimal_digits(m).last() == decimal_digit_char(m % 10));
            assert(decimal_digit_char(n % 10) as u32 == 48 + n % 10);
            assert(decimal_digit_char(m % 10) as u32 == 48 + m % 10);
        } else {
            assert(n / 10 != m / 10);
            lemma_decimal_digits_injective(n / 10, m / 10);
            if decimal_digits(n) == decimal_digits(m) {
                assert(decimal_digits(n).drop_last() == decimal_digits(n / 10));
                assert(decimal_digits(m).drop_last() == decimal_digits(m / 10));
            }
        }
    }
}

/// Appends the decimal form of `n` to `s`.
pub fn push_decimal(s: &mut String, n: u128)
    ensures
        final(s)@ == old(s)@ + decimal_digits(n as nat),
    decreases n,
{
    if n >= 10 {
        push_decimal(s, n / 10);
    }
    let d = (n % 10) as u32;
    let c = char_from_digit_value(48 + d);
    push_char(s, c);
    proof {
        if n >= 10 {
            assert(old(s)@ + decimal_digits(n as nat) == old(s)@ + decimal_digits((n / 10) as nat)
                + seq![decimal_digit_char((n % 10) as nat)]);
        } else {
            assert(old(s)@ + decimal_digits(n as nat) == old(s)@.push(decimal_digit_char(n as nat)));
        }
    }
}

/// The character with code point `v`, for an ASCII code point.
fn char_from_digit_value(v: u32) -> (c: char)
    requires
        v < 128,
    ensures
        c == v as char,
{
    let b = v as u8;
    b as char
}

/// The character of a hexadecimal digit `d < 16`, upper case.
pub open spec fn hex_digit_char(d: nat) -> char {
    if d < 10 {
        (('0' as u32) + d) as char
    } else {
        (('A' as u32) + (d - 10)) as char
    }
}

/// The upper-case hexadecimal digits of `n`, most significant first, without leading zeros.
pub open spec fn hex_digits(n: nat) -> Seq<char>
    decreases n,
{
    if n < 16 {
        seq![hex_digit_char(n)]
    } else {
        hex_digits(n / 16).push(hex_digit_char(n % 16))
    }
}

/// Appends the upper-case hexadecimal form of `n` to `s`.
pub fn push_hex(s: &mut String, n: usize)
    ensures
        final(s)@ == old(s)@ + hex_digits(n as nat),
    decreases n,
{
    if n >= 16 {
        push_hex(s, n / 16);
    }
    let d = (n % 16) as u32;
    let c = if d < 10 { char_from_digit_value(48 + d) } else { char_from_digit_value(55 + d) };
    push_char(s, c);
    proof {
        if n >= 16 {
            assert(old(s)@ + hex_digits(n as nat) == old(s)@ + hex_digits((n / 16) as nat)
                + seq![hex_digit_char((n % 16) as nat)]);
        } else {
            assert(old(s)@ + hex_digits(n as nat) == old(s)@.push(hex_digit_char(n as nat)));
        }
    }
}


/// `c` with A-Z mapped to a-z (`char::to_ascii_lowercase`).
pub open spec fn ascii_lower_char(c: char) -> char {
    if 'A' <= c && c <= 'Z' {
        ((c as u32) + 32) as char
    } else {
        c
    }
}

/// `s` with A-Z mapped to a-z (`str::to_ascii_lowercase`).
pub open spec fn ascii_lowercase(s: Seq<char>) -> Seq<char> {
    s.map_values(|c: char| ascii_lower_char(c))
}

/// `s` with A-Z mapped to a-z.
pub fn to_ascii_lowercase(s: &str) -> (r: String)
    ensures
        r@ == ascii_lowercase(s@),
{
    let cs = chars_of(s);
    let mut out: Vec<char> = Vec::new();
    let mut i: usize = 0;
    while i < cs.len()
        invariant
            cs@ == s@,
            i <= cs@.len(),
            out@.len() == i,
            forall|j: int| 0 <= j < i ==> #[trigger] out@[j] == ascii_lower_char(cs@[j]),
        decreases cs@.len() - i,
    {
        let c = cs[i];
        let l = if 'A' <= c && c <= 'Z' {
            let b = (c as u32 + 32) as u8;
            b as char
        } else {
            c
        };
        out.push(l);
        i = i + 1;
    }
    assert(out@ =~= ascii_lowercase(s@));
    string_from_chars(out.as_slice())
}

/// Whether `s` starts with `prefix`.
pub open spec fn starts_with(s: Seq<char>, prefix: Seq<char>) -> bool {
    prefix.len() <= s.len() && s.take(prefix.len() as int) == prefix
}

/// Whether `s` holds `needle` as a contiguous part.
pub open spec fn contains_seq(s: Seq<char>, needle: Seq<char>) -> bool {
    exists|k: int| 0 <= k && k + needle.len() <= s.len() && #[trigger] s.subrange(k, k + needle.len()) == needle
}

/// Whether `needle` occurs in `s` at position `k`.
fn occurs_at(s: &Vec<char>, needle: &Vec<char>, k: usize) -> (b: bool)
    requires
        k + needle@.len() <= s@.len(),
    ensures
        b == (s@.subrange(k as int, k + needle@.len()) == needle@),
{
    let n = s.len();
    let mut j: usize = 0;
    while j < needle.len()
        invariant
            n == s@.len(),
            k + needle@.len() <= s@.len(),
            j <= needle@.len(),
            forall|t: int| 0 <= t < j ==> s@[k + t] == needle@[t],
        decreases needle@.len() - j,
    {
        if s[k + j] != needle[j] {
            assert(s@.subrange(k as int, k + needle@.len())[j as int] != needle@[j as int]);
            return false;
        }
        j = j + 1;
    }
    assert(s@.subrange(k as int, k + needle@.len()) =~= needle@);
    true
}

/// Whether `s` starts with `prefix`.
pub fn str_starts_with(s: &str, prefix: &str) -> (b: bool)
    ensures
        b == starts_with(s@, prefix@),
{
    let cs = chars_of(s);
    let ps = chars_of(prefix);
    if ps.len() > cs.len() {
        return false;
    }
    let r = occurs_at(&cs, &ps, 0);
    assert(cs@.subrange(0, ps@.len() as int) == cs@.take(ps@.len() as int));
    r
}

/// Whether `needle` occurs in `s`.
pub fn str_contains(s: &str, needle: &str) -> (b: bool)
    ensures
        b == contains_seq(s@, needle@),
{
    let cs = chars_of(s);
    let ns = chars_of(needle);
    if ns.len() > cs.len() {
        return false;
    }
    let limit = cs.len() - ns.len();
    let mut k: usize = 0;
    loop
        invariant
            cs@ == s@,
            ns@ == needle@,
            limit == cs@.len() - ns@.len(),
            k <= limit,
            forall|t: int| 0 <= t < k ==> #[trigger] cs@.subrange(t, t + ns@.len()) != ns@,
        ensures
            forall|t: int| 0 <= t <= limit ==> #[trigger] cs@.subrange(t, t + ns@.len()) != ns@,
        decreases limit - k,
    {
        if occurs_at(&cs, &ns, k) {
            return true;
        }
        if k == limit {
            break;
        }
        k = k + 1;
    }
    assert forall|t: int| 0 <= t && t + needle@.len() <= s@.len() implies #[trigger] s@.subrange(t, t + needle@.len()) != needle@ by {
        assert(t <= limit);
    }
    false
}

/// Whether two strings have the same characters.
pub fn str_eq(a: &str, b: &str) -> (r: bool)
    ensures
        r == (a@ == b@),
{
    a.to_owned() == b.to_owned()
}

/// What `str::to_lowercase` returns: the Unicode lowercase mapping of the text, a capital
/// sigma mapped by whether it ends a word.
pub uninterp spec fn unicode_lowercase(s: Seq<char>) -> Seq<char>;

/// `str::to_lowercase`: the string mapped to Unicode lowercase (a capital sigma by its place in
/// a word). The contract claims only that the result is `unicode_lowercase` of the argument.
#[verifier::external_body]
pub(crate) fn to_lowercase(s: &str) -> (r: String)
    ensures
        r@ == unicode_lowercase(s@),
{
    s.to_lowercase()
}

} // verus!
