//! Verified text primitives: whitespace trimming, case-insensitive comparison
//! against short keywords, and decimal rendering and parsing of `u64` values.
//!
//! Whitespace here is the ASCII set (space, tab, line feed, carriage return),
//! and case folding covers ASCII letters only; the keywords the engine
//! compares against are plain ASCII, so nothing more is needed.

use vstd::prelude::*;
use vstd::string::StrSliceExecFns;
use vstd::string::StringExecFns;

verus! {

/// ASCII whitespace.
pub open spec fn is_ws(c: char) -> bool {
    c == ' ' || c == '\t' || c == '\n' || c == '\r'
}

pub fn is_whitespace(c: char) -> (r: bool)
    ensures
        r == is_ws(c),
{
    c == ' ' || c == '\t' || c == '\n' || c == '\r'
}

/// `s` with leading whitespace removed.
pub open spec fn trim_front_spec(s: Seq<char>) -> Seq<char>
    decreases s.len(),
{
    if s.len() > 0 && is_ws(s[0]) {
        trim_front_spec(s.drop_first())
    } else {
        s
    }
}

/// `s` with trailing whitespace removed.
pub open spec fn trim_back_spec(s: Seq<char>) -> Seq<char>
    decreases s.len(),
{
    if s.len() > 0 && is_ws(s[s.len() - 1]) {
        trim_back_spec(s.drop_last())
    } else {
        s
    }
}

/// `s` with leading and trailing whitespace removed.
pub open spec fn trim_spec(s: Seq<char>) -> Seq<char> {
    trim_back_spec(trim_front_spec(s))
}

/// Strip leading and trailing whitespace.
pub fn trim(s: &str) -> (r: &str)
    ensures
        r@ == trim_spec(s@),
{
    let len = s.unicode_len();
    proof {
        assert(s@.subrange(0, len as int) =~= s@);
    }
    let mut i: usize = 0;
    while i < len && is_whitespace(s.get_char(i))
        invariant
            0 <= i <= len,
            len == s@.len(),
            trim_front_spec(s@) == trim_front_spec(s@.subrange(i as int, len as int)),
        decreases len - i,
    {
        proof {
            assert(s@.subrange(i as int, len as int).drop_first() =~= s@.subrange(
                i + 1,
                len as int,
            ));
        }
        i = i + 1;
    }
    proof {
        assert(trim_front_spec(s@) =~= s@.subrange(i as int, len as int));
    }
    let mut j: usize = len;
    while j > i && is_whitespace(s.get_char(j - 1))
        invariant
            i <= j <= len,
            len == s@.len(),
            trim_front_spec(s@) == s@.subrange(i as int, len as int),
            trim_back_spec(s@.subrange(i as int, len as int)) == trim_back_spec(
                s@.subrange(i as int, j as int),
            ),
        decreases j,
    {
        proof {
            assert(s@.subrange(i as int, j as int).drop_last() =~= s@.subrange(
                i as int,
                j - 1,
            ));
        }
        j = j - 1;
    }
    proof {
        assert(trim_back_spec(s@.subrange(i as int, j as int)) =~= s@.subrange(
            i as int,
            j as int,
        ));
    }
    s.substring_char(i, j)
}

/// Two characters are equal up to ASCII case.
pub open spec fn char_eq_ci(a: char, b: char) -> bool {
    a == b || (65 <= a as u32 <= 90 && a as u32 + 32 == b as u32) || (65 <= b as u32 <= 90 && b
        as u32 + 32 == a as u32)
}

/// Two character sequences are equal up to ASCII case.
pub open spec fn seq_eq_ci(s: Seq<char>, t: Seq<char>) -> bool {
    s.len() == t.len() && (forall|i: int| 0 <= i < s.len() ==> char_eq_ci(s[i], t[i]))
}

/// Compare two strings for equality up to ASCII case.
pub fn str_eq_ci(s: &str, t: &str) -> (r: bool)
    ensures
        r == seq_eq_ci(s@, t@),
{
    let n = s.unicode_len();
    if n != t.unicode_len() {
        return false;
    }
    let mut i: usize = 0;
    while i < n
        invariant
            0 <= i <= n,
            n == s@.len() == t@.len(),
            forall|k: int| 0 <= k < i ==> char_eq_ci(s@[k], t@[k]),
        decreases n - i,
    {
        let a = s.get_char(i) as u32;
        let b = t.get_char(i) as u32;
        let eq = a == b || (65 <= a && a <= 90 && a + 32 == b) || (65 <= b && b <= 90 && b + 32
            == a);
        if !eq {
            return false;
        }
        i = i + 1;
    }
    true
}

/// Compare two strings for exact equality.
pub fn str_eq(s: &str, t: &str) -> (r: bool)
    ensures
        r == (s@ == t@),
{
    let n = s.unicode_len();
    if n != t.unicode_len() {
        proof {
            assert(s@ != t@);
        }
        return false;
    }
    let mut i: usize = 0;
    while i < n
        invariant
            0 <= i <= n,
            n == s@.len() == t@.len(),
            forall|k: int| 0 <= k < i ==> s@[k] == t@[k],
        decreases n - i,
    {
        if s.get_char(i) != t.get_char(i) {
            return false;
        }
        i = i + 1;
    }
    proof {
        assert(s@ =~= t@);
    }
    true
}

/// The character for a single decimal digit.
pub open spec fn dec_digit(d: int) -> char {
    if d == 0 {
        '0'
    } else if d == 1 {
        '1'
    } else if d == 2 {
        '2'
    } else if d == 3 {
        '3'
    } else if d == 4 {
        '4'
    } else if d == 5 {
        '5'
    } else if d == 6 {
        '6'
    } else if d == 7 {
        '7'
    } else if d == 8 {
        '8'
    } else {
        '9'
    }
}

/// The decimal rendering of a nonnegative integer, without leading zeros.
pub open spec fn u64_dec(n: int) -> Seq<char>
    decreases n,
{
    if n < 10 {
        seq![dec_digit(n)]
    } else {
        u64_dec(n / 10).push(dec_digit(n % 10))
    }
}

fn digit_str(d: u64) -> (r: &'static str)
    requires
        d < 10,
    ensures
        r@ == seq![dec_digit(d as int)],
{
    proof {
        reveal_strlit("0");
        reveal_strlit("1");
        reveal_strlit("2");
        reveal_strlit("3");
        reveal_strlit("4");
        reveal_strlit("5");
        reveal_strlit("6");
        reveal_strlit("7");
        reveal_strlit("8");
        reveal_strlit("9");
    }
    let r: &'static str = if d == 0 {
        "0"
    } else if d == 1 {
        "1"
    } else if d == 2 {
        "2"
    } else if d == 3 {
        "3"
    } else if d == 4 {
        "4"
    } else if d == 5 {
        "5"
    } else if d == 6 {
        "6"
    } else if d == 7 {
        "7"
    } else if d == 8 {
        "8"
    } else {
        "9"
    };
    proof {
        assert(r@ =~= seq![dec_digit(d as int)]);
    }
    r
}

/// Render a number in decimal.
pub fn u64_to_string(n: u64) -> (r: String)
    ensures
        r@ == u64_dec(n as int),
    decreases n,
{
    if n < 10 {
        String::from_str(digit_str(n))
    } else {
        u64_to_string(n / 10).concat(digit_str(n % 10))
    }
}

/// Whether a character is a decimal digit.
pub open spec fn is_digit(c: char) -> bool {
    48 <= c as u32 <= 57
}

/// The value of a decimal digit character.
pub open spec fn digit_val(c: char) -> int {
    c as u32 - 48
}

/// Every digit character renders its own value.
pub proof fn lemma_dec_digit(d: int)
    requires
        0 <= d <= 9,
    ensures
        is_digit(dec_digit(d)),
        digit_val(dec_digit(d)) == d,
{
}

/// A decimal rendering is never empty and consists of digits alone.
pub proof fn lemma_u64_dec_digits(n: int)
    requires
        0 <= n,
    ensures
        u64_dec(n).len() >= 1,
        forall|k: int| 0 <= k < u64_dec(n).len() ==> is_digit(#[trigger] u64_dec(n)[k]),
    decreases n,
{
    let ds = u64_dec(n);
    if n < 10 {
        lemma_dec_digit(n);
    } else {
        lemma_u64_dec_digits(n / 10);
        lemma_dec_digit(n % 10);
        assert forall|k: int| 0 <= k < ds.len() implies is_digit(ds[k]) by {
            if k < u64_dec(n / 10).len() {
                assert(ds[k] == u64_dec(n / 10)[k]);
            } else {
                assert(ds[k] == dec_digit(n % 10));
            }
        }
    }
}

/// The value of a digit sequence folded onto an accumulator, most significant
/// digit first.
pub open spec fn digits_val(s: Seq<char>, acc: int) -> int
    decreases s.len(),
{
    if s.len() == 0 {
        acc
    } else {
        digits_val(s.drop_first(), acc * 10 + digit_val(s[0]))
    }
}

/// Folding one more digit multiplies the value by ten and adds the digit.
pub proof fn lemma_digits_val_push(s: Seq<char>, c: char, acc: int)
    ensures
        digits_val(s.push(c), acc) == digits_val(s, acc) * 10 + digit_val(c),
    decreases s.len(),
{
    let out = s.push(c);
    if s.len() == 0 {
        assert(out =~= seq![c]);
        assert(out.drop_first() =~= Seq::<char>::empty());
        assert(digits_val(out.drop_first(), acc * 10 + digit_val(c)) == acc * 10 + digit_val(c));
    } else {
        assert(out[0] == s[0]);
        assert(out.drop_first() =~= s.drop_first().push(c));
        lemma_digits_val_push(s.drop_first(), c, acc * 10 + digit_val(s[0]));
    }
}

/// Folding digits onto a nonnegative accumulator never shrinks it.
pub proof fn lemma_digits_val_lower(s: Seq<char>, acc: int)
    requires
        0 <= acc,
        forall|k: int| 0 <= k < s.len() ==> is_digit(#[trigger] s[k]),
    ensures
        digits_val(s, acc) >= acc,
    decreases s.len(),
{
    if s.len() > 0 {
        assert(is_digit(s[0]));
        assert forall|k: int| 0 <= k < s.drop_first().len() implies is_digit(
            #[trigger] s.drop_first()[k],
        ) by {
            assert(s.drop_first()[k] == s[k + 1]);
        }
        lemma_digits_val_lower(s.drop_first(), acc * 10 + digit_val(s[0]));
    }
}

/// A decimal rendering folds back to the number it renders.
pub proof fn lemma_u64_dec_val(n: int)
    requires
        0 <= n,
    ensures
        digits_val(u64_dec(n), 0) == n,
    decreases n,
{
    if n < 10 {
        lemma_dec_digit(n);
        assert(u64_dec(n) =~= seq![dec_digit(n)]);
        assert(u64_dec(n).drop_first() =~= Seq::<char>::empty());
        assert(digits_val(u64_dec(n), 0) == digits_val(
            u64_dec(n).drop_first(),
            0 * 10 + digit_val(u64_dec(n)[0]),
        ));
        assert(digits_val(u64_dec(n).drop_first(), n) == n);
    } else {
        lemma_u64_dec_val(n / 10);
        lemma_dec_digit(n % 10);
        lemma_digits_val_push(u64_dec(n / 10), dec_digit(n % 10), 0);
        assert(u64_dec(n) == u64_dec(n / 10).push(dec_digit(n % 10)));
        assert(n == (n / 10) * 10 + n % 10);
        assert(digits_val(u64_dec(n), 0) == digits_val(u64_dec(n / 10), 0) * 10 + digit_val(
            dec_digit(n % 10),
        ));
    }
}

/// The value of a decimal digit character, or `None` if it is not one.
pub fn char_digit(c: char) -> (r: Option<u64>)
    ensures
        r matches Some(d) ==> is_digit(c) && d == digit_val(c),
        r is None ==> !is_digit(c),
{
    let u = c as u32;
    if 48 <= u && u <= 57 {
        Some((u - 48) as u64)
    } else {
        None
    }
}

} // verus!
