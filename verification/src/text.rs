//! Character-level string utilities the collectors build on: trimming,
//! first-occurrence search, equality and prefix tests, and decimal
//! rendering/parsing of small counts.

use vstd::prelude::*;

verus! {

/// The characters `str::trim` removes: Unicode whitespace.
pub open spec fn is_wsp(c: char) -> bool {
    c == '\u{09}' || c == '\u{0A}' || c == '\u{0B}' || c == '\u{0C}' || c == '\u{0D}'
        || c == ' ' || c == '\u{85}' || c == '\u{A0}' || c == '\u{1680}' || c == '\u{2000}'
        || c == '\u{2001}' || c == '\u{2002}' || c == '\u{2003}' || c == '\u{2004}'
        || c == '\u{2005}' || c == '\u{2006}' || c == '\u{2007}' || c == '\u{2008}'
        || c == '\u{2009}' || c == '\u{200A}' || c == '\u{2028}' || c == '\u{2029}'
        || c == '\u{202F}' || c == '\u{205F}' || c == '\u{3000}'
}

pub fn is_whitespace_char(c: char) -> (r: bool)
    ensures
        r == is_wsp(c),
{
    c == '\u{09}' || c == '\u{0A}' || c == '\u{0B}' || c == '\u{0C}' || c == '\u{0D}'
        || c == ' ' || c == '\u{85}' || c == '\u{A0}' || c == '\u{1680}' || c == '\u{2000}'
        || c == '\u{2001}' || c == '\u{2002}' || c == '\u{2003}' || c == '\u{2004}'
        || c == '\u{2005}' || c == '\u{2006}' || c == '\u{2007}' || c == '\u{2008}'
        || c == '\u{2009}' || c == '\u{200A}' || c == '\u{2028}' || c == '\u{2029}'
        || c == '\u{202F}' || c == '\u{205F}' || c == '\u{3000}'
}

pub open spec fn drop_leading_wsp(s: Seq<char>) -> Seq<char>
    decreases s.len(),
{
    if s.len() > 0 && is_wsp(s[0]) {
        drop_leading_wsp(s.drop_first())
    } else {
        s
    }
}

pub open spec fn drop_trailing_wsp(s: Seq<char>) -> Seq<char>
    decreases s.len(),
{
    if s.len() > 0 && is_wsp(s.last()) {
        drop_trailing_wsp(s.drop_last())
    } else {
        s
    }
}

/// What `str::trim` leaves: the input without leading and trailing whitespace.
pub open spec fn trim_spec(s: Seq<char>) -> Seq<char> {
    drop_trailing_wsp(drop_leading_wsp(s))
}

proof fn lemma_drop_leading_skip(s: Seq<char>, a: int)
    requires
        0 <= a <= s.len(),
        forall|j: int| 0 <= j < a ==> is_wsp(s[j]),
        a == s.len() || !is_wsp(s[a]),
    ensures
        drop_leading_wsp(s) == s.skip(a),
    decreases a,
{
    if a == 0 {
        assert(s.skip(0) =~= s);
    } else {
        lemma_drop_leading_skip(s.drop_first(), a - 1);
        assert(s.drop_first().skip(a - 1) =~= s.skip(a));
    }
}

proof fn lemma_drop_trailing_take(s: Seq<char>, b: int)
    requires
        0 <= b <= s.len(),
        forall|j: int| b <= j < s.len() ==> is_wsp(s[j]),
        b == 0 || !is_wsp(s[b - 1]),
    ensures
        drop_trailing_wsp(s) == s.take(b),
    decreases s.len(),
{
    if b == s.len() {
        assert(s.take(b) =~= s);
    } else {
        assert(is_wsp(s.last()));
        lemma_drop_trailing_take(s.drop_last(), b);
        assert(s.drop_last().take(b) =~= s.take(b));
    }
}

/// `str::trim` of `s`, as an owned string.
pub fn trim_string(s: &str) -> (r: String)
    ensures
        r@ == trim_spec(s@),
{
    let len = s.unicode_len();
    let mut a: usize = 0;
    while a < len && is_whitespace_char(s.get_char(a))
        invariant
            a <= len,
            len == s@.len(),
            forall|j: int| 0 <= j < a ==> is_wsp(s@[j]),
        decreases len - a,
    {
        a += 1;
    }
    if a == len {
        proof {
            lemma_drop_leading_skip(s@, a as int);
            assert(s@.skip(a as int) =~= Seq::<char>::empty());
        }
        return String::new();
    }
    let mut b: usize = len;
    while b > a && is_whitespace_char(s.get_char(b - 1))
        invariant
            a <= b <= len,
            len == s@.len(),
            a < len,
            !is_wsp(s@[a as int]),
            forall|j: int| b <= j < len ==> is_wsp(s@[j]),
        decreases b,
    {
        b -= 1;
    }
    proof {
        if b == a {
            assert(is_wsp(s@[a as int]));
        }
        lemma_drop_leading_skip(s@, a as int);
        lemma_drop_trailing_take(s@.skip(a as int), b - a);
        assert(s@.skip(a as int).take(b - a) =~= s@.subrange(a as int, b as int));
    }
    let sub = s.substring_char(a, b);
    sub.to_owned()
}

/// Index of the first character of `s` satisfying `p`, or -1 if none does.
pub open spec fn first_at(s: Seq<char>, p: spec_fn(char) -> bool) -> int
    decreases s.len(),
{
    if s.len() == 0 {
        -1
    } else if p(s[0]) {
        0
    } else if first_at(s.drop_first(), p) < 0 {
        -1
    } else {
        first_at(s.drop_first(), p) + 1
    }
}

pub proof fn lemma_first_at_found(s: Seq<char>, p: spec_fn(char) -> bool, i: int)
    requires
        0 <= i < s.len(),
        p(s[i]),
        forall|j: int| 0 <= j < i ==> !p(s[j]),
    ensures
        first_at(s, p) == i,
    decreases i,
{
    if i > 0 {
        lemma_first_at_found(s.drop_first(), p, i - 1);
    }
}

pub proof fn lemma_first_at_none(s: Seq<char>, p: spec_fn(char) -> bool)
    requires
        forall|j: int| 0 <= j < s.len() ==> !p(s[j]),
    ensures
        first_at(s, p) == -1,
    decreases s.len(),
{
    if s.len() > 0 {
        lemma_first_at_none(s.drop_first(), p);
    }
}

pub proof fn lemma_first_at_bounds(s: Seq<char>, p: spec_fn(char) -> bool)
    ensures
        first_at(s, p) == -1 ==> forall|j: int| 0 <= j < s.len() ==> !p(s[j]),
        first_at(s, p) != -1 ==> 0 <= first_at(s, p) < s.len() && p(s[first_at(s, p)])
            && (forall|j: int| 0 <= j < first_at(s, p) ==> !p(s[j])),
    decreases s.len(),
{
    if s.len() > 0 && !p(s[0]) {
        lemma_first_at_bounds(s.drop_first(), p);
        let f = first_at(s.drop_first(), p);
        if f >= 0 {
            assert forall|j: int| 0 <= j < f + 1 implies !p(s[j]) by {
                if j > 0 {
                    assert(s.drop_first()[j - 1] == s[j]);
                }
            }
        } else {
            assert forall|j: int| 0 <= j < s.len() implies !p(s[j]) by {
                if j > 0 {
                    assert(s.drop_first()[j - 1] == s[j]);
                }
            }
        }
    }
}

/// The predicate holding exactly on `needle`.
pub open spec fn char_pred(needle: char) -> spec_fn(char) -> bool {
    |c: char| c == needle
}

/// First occurrence of `needle` in `s`.
pub fn find_char(s: &str, needle: char) -> (r: Option<usize>)
    ensures
        match r {
            Some(i) => first_at(s@, char_pred(needle)) == i as int,
            None => first_at(s@, char_pred(needle)) == -1,
        },
{
    let len = s.unicode_len();
    let mut i: usize = 0;
    while i < len
        invariant
            i <= len,
            len == s@.len(),
            forall|j: int| 0 <= j < i ==> !(char_pred(needle)(s@[j])),
        decreases len - i,
    {
        if s.get_char(i) == needle {
            proof {
                lemma_first_at_found(s@, char_pred(needle), i as int);
            }
            return Some(i);
        }
        i += 1;
    }
    proof {
        lemma_first_at_none(s@, char_pred(needle));
    }
    None
}

/// Character-wise string equality.
pub fn str_eq(a: &str, b: &str) -> (r: bool)
    ensures
        r == (a@ == b@),
{
    let la = a.unicode_len();
    let lb = b.unicode_len();
    if la != lb {
        return false;
    }
    let mut i: usize = 0;
    while i < la
        invariant
            i <= la,
            la == a@.len(),
            la == b@.len(),
            forall|j: int| 0 <= j < i ==> a@[j] == b@[j],
        decreases la - i,
    {
        if a.get_char(i) != b.get_char(i) {
            return false;
        }
        i += 1;
    }
    proof {
        assert(a@ =~= b@);
    }
    true
}

/// Whether `prefix` is a prefix of `s`.
pub fn str_starts_with(s: &str, prefix: &str) -> (r: bool)
    ensures
        r == (s@.len() >= prefix@.len() && s@.take(prefix@.len() as int) == prefix@),
{
    let lp = prefix.unicode_len();
    let ls = s.unicode_len();
    if ls < lp {
        return false;
    }
    let mut i: usize = 0;
    while i < lp
        invariant
            i <= lp,
            lp == prefix@.len(),
            ls == s@.len(),
            lp <= ls,
            forall|j: int| 0 <= j < i ==> s@[j] == prefix@[j],
        decreases lp - i,
    {
        if s.get_char(i) != prefix.get_char(i) {
            proof {
                if s@.take(lp as int) == prefix@ {
                    assert(s@.take(lp as int)[i as int] == s@[i as int]);
                }
            }
            return false;
        }
        i += 1;
    }
    proof {
        assert(s@.take(lp as int) =~= prefix@);
    }
    true
}

/// `s` without a leading `0x`, if it has one.
pub open spec fn strip_hex_prefix(s: Seq<char>) -> Seq<char> {
    if s.len() >= 2 && s[0] == '0' && s[1] == 'x' {
        s.skip(2)
    } else {
        s
    }
}

pub fn strip_hex_prefix_str(s: &str) -> (r: String)
    ensures
        r@ == strip_hex_prefix(s@),
{
    let len = s.unicode_len();
    if len >= 2 && s.get_char(0) == '0' && s.get_char(1) == 'x' {
        proof {
            assert(s@.skip(2) =~= s@.subrange(2, len as int));
        }
        let sub = s.substring_char(2, len);
        sub.to_owned()
    } else {
        s.to_owned()
    }
}

pub open spec fn is_digit(c: char) -> bool {
    c == '0' || c == '1' || c == '2' || c == '3' || c == '4' || c == '5' || c == '6'
        || c == '7' || c == '8' || c == '9'
}

pub open spec fn digit_val(c: char) -> int {
    if c == '1' {
        1
    } else if c == '2' {
        2
    } else if c == '3' {
        3
    } else if c == '4' {
        4
    } else if c == '5' {
        5
    } else if c == '6' {
        6
    } else if c == '7' {
        7
    } else if c == '8' {
        8
    } else if c == '9' {
        9
    } else {
        0
    }
}

pub open spec fn digit_char_of(d: int) -> char {
    if d == 1 {
        '1'
    } else if d == 2 {
        '2'
    } else if d == 3 {
        '3'
    } else if d == 4 {
        '4'
    } else if d == 5 {
        '5'
    } else if d == 6 {
        '6'
    } else if d == 7 {
        '7'
    } else if d == 8 {
        '8'
    } else if d == 9 {
        '9'
    } else {
        '0'
    }
}

/// Decimal rendering of a non-negative integer, most significant digit first.
pub open spec fn dec_of(n: int) -> Seq<char>
    decreases n,
{
    if n < 10 {
        seq![digit_char_of(n)]
    } else {
        dec_of(n / 10).push(digit_char_of(n % 10))
    }
}

/// Value of a digit string read in base 10.
pub open spec fn dec_val(s: Seq<char>) -> int
    decreases s.len(),
{
    if s.len() == 0 {
        0
    } else {
        dec_val(s.drop_last()) * 10 + digit_val(s.last())
    }
}

pub open spec fn all_digits(s: Seq<char>) -> bool {
    forall|i: int| 0 <= i < s.len() ==> is_digit(s[i])
}

pub proof fn lemma_dec_val_nonneg(s: Seq<char>)
    ensures
        dec_val(s) >= 0,
    decreases s.len(),
{
    if s.len() > 0 {
        lemma_dec_val_nonneg(s.drop_last());
    }
}

/// A prefix of a digit string never reads as a larger value than the whole.
pub proof fn lemma_dec_val_prefix_le(s: Seq<char>, i: int)
    requires
        0 <= i <= s.len(),
    ensures
        dec_val(s.take(i)) <= dec_val(s),
    decreases s.len() - i,
{
    if i < s.len() {
        lemma_dec_val_prefix_le(s, i + 1);
        assert(s.take(i + 1).drop_last() =~= s.take(i));
        assert(s.take(i + 1).last() == s[i]);
        lemma_dec_val_nonneg(s.take(i));
    } else {
        assert(s.take(i) =~= s);
    }
}

fn digit_to_str(d: u8) -> (r: &'static str)
    requires
        d < 10,
    ensures
        r@ == seq![digit_char_of(d as int)],
{
    proof {
        reveal_strlit("0");
        reveal_strlit("1");
        reveal_strlit("2");
        reveal_strlit("3");
        reveal_strlit("4");
        reveal_strlit("5");
        reveal_strlit("6");
        reveal_strlit("7");
        reveal_strlit("8");
        reveal_strlit("9");
    }
    let r: &'static str = if d == 0 {
        "0"
    } else if d == 1 {
        "1"
    } else if d == 2 {
        "2"
    } else if d == 3 {
        "3"
    } else if d == 4 {
        "4"
    } else if d == 5 {
        "5"
    } else if d == 6 {
        "6"
    } else if d == 7 {
        "7"
    } else {
        "8"
    };
    let r: &'static str = if d == 9 {
        "9"
    } else {
        r
    };
    proof {
        assert(r@ =~= seq![digit_char_of(d as int)]);
    }
    r
}

/// Decimal rendering of a `u8`, as `format!("{}", n)` would give it.
pub fn u8_to_string(n: u8) -> (r: String)
    ensures
        r@ == dec_of(n as int),
        r@.len() >= 1,
{
    if n < 10 {
        let r = digit_to_str(n).to_owned();
        r
    } else if n < 100 {
        let mut r = digit_to_str(n / 10).to_owned();
        r.append(digit_to_str(n % 10));
        proof {
            let ni = n as int;
            assert(dec_of(ni) == dec_of(ni / 10).push(digit_char_of(ni % 10)));
            assert(dec_of(ni / 10) == seq![digit_char_of(ni / 10)]);
            assert((n / 10) as int == ni / 10);
            assert((n % 10) as int == ni % 10);
            assert(r@ =~= dec_of(ni));
        }
        r
    } else {
        let a = n / 10;
        let mut r = digit_to_str(a / 10).to_owned();
        r.append(digit_to_str(a % 10));
        r.append(digit_to_str(n % 10));
        proof {
            let ni = n as int;
            let ai = a as int;
            assert(ai == ni / 10);
            assert(10 <= ai < 100);
            assert(dec_of(ni) == dec_of(ai).push(digit_char_of(ni % 10)));
            assert(dec_of(ai) == dec_of(ai / 10).push(digit_char_of(ai % 10)));
            assert(dec_of(ai / 10) == seq![digit_char_of(ai / 10)]);
            assert((a / 10) as int == ai / 10);
            assert((a % 10) as int == ai % 10);
            assert((n % 10) as int == ni % 10);
            assert(r@.len() == 3);
            assert(r@[0] == digit_char_of(ai / 10));
            assert(r@[1] == digit_char_of(ai % 10));
            assert(r@[2] == digit_char_of(ni % 10));
            assert(dec_of(ni).len() == 3);
            assert(r@ =~= dec_of(ni));
        }
        r
    }
}

/// Whether a digit string denotes a value that fits a `u8`.
pub open spec fn u8_parse_ok(s: Seq<char>) -> bool {
    s.len() >= 1 && all_digits(s) && dec_val(s) < 256
}

/// Base-10 parse of `s` into a `u8`; `None` on empty input, a non-digit, or overflow.
pub fn parse_u8(s: &str) -> (r: Option<u8>)
    ensures
        r is Some <==> u8_parse_ok(s@),
        r matches Some(n) ==> n as int == dec_val(s@),
{
    let len = s.unicode_len();
    if len == 0 {
        return None;
    }
    let mut i: usize = 0;
    let mut acc: u16 = 0;
    while i < len
        invariant
            i <= len,
            len == s@.len(),
            all_digits(s@.take(i as int)),
            acc as int == dec_val(s@.take(i as int)),
            acc < 256,
        decreases len - i,
    {
        let c = s.get_char(i);
        if !(c == '0' || c == '1' || c == '2' || c == '3' || c == '4' || c == '5' || c == '6'
            || c == '7' || c == '8' || c == '9') {
            assert(!is_digit(s@[i as int]));
            return None;
        }
        let d: u16 = if c == '1' {
            1
        } else if c == '2' {
            2
        } else if c == '3' {
            3
        } else if c == '4' {
            4
        } else if c == '5' {
            5
        } else if c == '6' {
            6
        } else if c == '7' {
            7
        } else if c == '8' {
            8
        } else if c == '9' {
            9
        } else {
            0
        };
        assert(d as int == digit_val(s@[i as int]));
        let next: u16 = acc * 10 + d;
        proof {
            assert(s@.take(i as int + 1).drop_last() =~= s@.take(i as int));
            assert(s@.take(i as int + 1).last() == s@[i as int]);
            assert(next as int == dec_val(s@.take(i as int + 1)));
        }
        if next > 255 {
            proof {
                lemma_dec_val_prefix_le(s@, i as int + 1);
            }
            return None;
        }
        acc = next;
        i += 1;
        assert(forall|j: int| 0 <= j < i ==> is_digit(s@.take(i as int)[j]));
    }
    proof {
        assert(s@.take(len as int) =~= s@);
    }
    Some(acc as u8)
}

} // verus!
