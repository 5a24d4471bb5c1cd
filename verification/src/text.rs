//! Character-level text helpers shared by the parser and the emitter:
//! character classes, first-occurrence searches, decimal conversion in both
//! directions, ASCII upper-casing and path joining. Every executable helper
//! mirrors a spec function exactly.

use vstd::prelude::*;

verus! {

/// Whitespace as the document grammar understands it.
pub open spec fn is_ws_char(c: char) -> bool {
    c == ' ' || c == '\t' || c == '\r' || c == '\n'
}

/// Characters allowed in tag and attribute names.
pub open spec fn is_name_char(c: char) -> bool {
    ('a' <= c && c <= 'z') || ('A' <= c && c <= 'Z') || ('0' <= c && c <= '9') || c == '_' || c
        == '-' || c == '.' || c == ':'
}

pub open spec fn is_digit_char(c: char) -> bool {
    '0' <= c && c <= '9'
}

pub fn is_ws(c: char) -> (b: bool)
    ensures
        b == is_ws_char(c),
{
    c == ' ' || c == '\t' || c == '\r' || c == '\n'
}

pub fn is_name(c: char) -> (b: bool)
    ensures
        b == is_name_char(c),
{
    ('a' <= c && c <= 'z') || ('A' <= c && c <= 'Z') || ('0' <= c && c <= '9') || c == '_' || c
        == '-' || c == '.' || c == ':'
}

pub fn is_digit(c: char) -> (b: bool)
    ensures
        b == is_digit_char(c),
{
    '0' <= c && c <= '9'
}

/// Relies on `String::push`: appends exactly the given character.
#[verifier::external_body]
pub fn push_char(s: &mut String, c: char)
    ensures
        final(s)@ == old(s)@.push(c),
{
    s.push(c)
}

/// Whether `c` occurs in `s`, as a computable recursion.
pub open spec fn has_char(s: Seq<char>, c: char) -> bool
    decreases s.len(),
{
    s.len() > 0 && (s[0] == c || has_char(s.drop_first(), c))
}

pub proof fn lemma_has_char_index(s: Seq<char>, c: char)
    ensures
        has_char(s, c) <==> exists|i: int| 0 <= i < s.len() && s[i] == c,
    decreases s.len(),
{
    if s.len() > 0 {
        lemma_has_char_index(s.drop_first(), c);
        if s[0] != c && has_char(s, c) {
            let j = choose|j: int| 0 <= j < s.drop_first().len() && s.drop_first()[j] == c;
            assert(s[j + 1] == c);
        }
        if exists|i: int| 0 <= i < s.len() && s[i] == c {
            let i = choose|i: int| 0 <= i < s.len() && s[i] == c;
            if s[0] != c {
                assert(s.drop_first()[i - 1] == c);
            }
        }
    }
}

/// The digit character for `n` in `0..10`.
pub open spec fn dec_digit(n: int) -> char {
    ((48 + n) as u8) as char
}

/// The decimal digit string of `n`, most significant first.
pub open spec fn dec_seq(n: nat) -> Seq<char>
    decreases n,
{
    if n < 10 {
        seq![dec_digit(n as int)]
    } else {
        dec_seq(n / 10).push(dec_digit((n % 10) as int))
    }
}

/// The decimal text of a signed value: a `-` sign when negative.
pub open spec fn int_dec_seq(v: int) -> Seq<char> {
    if v < 0 {
        seq!['-'] + dec_seq((-v) as nat)
    } else {
        dec_seq(v as nat)
    }
}

/// Appends the decimal digits of `n` to `buf`.
pub fn append_u64_dec(buf: &mut String, n: u64)
    ensures
        final(buf)@ == old(buf)@ + dec_seq(n as nat),
    decreases n,
{
    if n < 10 {
        let d: u8 = 48 + (n as u8);
        push_char(buf, d as char);
        assert(final(buf)@ =~= old(buf)@ + dec_seq(n as nat));
    } else {
        append_u64_dec(buf, n / 10);
        let d: u8 = 48 + ((n % 10) as u8);
        push_char(buf, d as char);
        assert(final(buf)@ =~= old(buf)@ + dec_seq(n as nat));
    }
}

/// Appends the decimal text of `v`, with a leading `-` when negative.
pub fn append_i32_dec(buf: &mut String, v: i32)
    ensures
        final(buf)@ == old(buf)@ + int_dec_seq(v as int),
{
    if v < 0 {
        push_char(buf, '-');
        let m: u64 = (-(v as i64)) as u64;
        append_u64_dec(buf, m);
        assert(final(buf)@ =~= old(buf)@ + int_dec_seq(v as int));
    } else {
        append_u64_dec(buf, v as u64);
    }
}

/// The numeric value of a digit string (most significant first).
pub open spec fn digits_val(s: Seq<char>) -> int
    decreases s.len(),
{
    if s.len() == 0 {
        0
    } else {
        digits_val(s.drop_last()) * 10 + (s.last() as int - 48)
    }
}

pub open spec fn all_digits(s: Seq<char>) -> bool {
    forall|i: int| 0 <= i < s.len() ==> is_digit_char(#[trigger] s[i])
}

pub proof fn lemma_digits_val_nonneg(s: Seq<char>)
    requires
        all_digits(s),
    ensures
        digits_val(s) >= 0,
    decreases s.len(),
{
    if s.len() > 0 {
        assert(all_digits(s.drop_last())) by {
            assert(forall|i: int|
                0 <= i < s.len() - 1 ==> #[trigger] s.drop_last()[i] == s[i]);
        }
        lemma_digits_val_nonneg(s.drop_last());
        assert(is_digit_char(s.last()));
    }
}

/// Extending a digit string can only grow its value.
pub proof fn lemma_digits_val_prefix_le(s: Seq<char>, i: int)
    requires
        all_digits(s),
        0 <= i <= s.len(),
    ensures
        digits_val(s.take(i)) <= digits_val(s),
    decreases s.len() - i,
{
    if i < s.len() {
        lemma_digits_val_prefix_le(s, i + 1);
        let t = s.take(i + 1);
        assert(t.drop_last() =~= s.take(i));
        assert(all_digits(t.drop_last()));
        lemma_digits_val_nonneg(t.drop_last());
        assert(is_digit_char(t.last()));
        assert(digits_val(t) == digits_val(s.take(i)) * 10 + (t.last() as int - 48));
        assert(digits_val(s.take(i)) <= digits_val(t)) by (nonlinear_arith)
            requires
                digits_val(t) == digits_val(s.take(i)) * 10 + (t.last() as int - 48),
                digits_val(s.take(i)) >= 0,
                t.last() as int - 48 >= 0,
        ;
    } else {
        assert(s.take(i) =~= s);
    }
}

/// The unsigned decimal value of `s`, when `s` is one or more digits whose
/// value fits `bound`.
pub open spec fn parse_decimal(s: Seq<char>, bound: int) -> Option<int> {
    if s.len() > 0 && all_digits(s) && digits_val(s) <= bound {
        Some(digits_val(s))
    } else {
        None
    }
}

/// Reads `s` as an unsigned decimal not exceeding `bound`.
pub fn parse_u64_bounded(s: &str, bound: u64) -> (r: Option<u64>)
    ensures
        match r {
            Some(v) => parse_decimal(s@, bound as int) == Some(v as int),
            None => parse_decimal(s@, bound as int) is None,
        },
{
    let len = s.unicode_len();
    if len == 0 {
        return None;
    }
    let mut i: usize = 0;
    let mut acc: u64 = 0;
    while i < len
        invariant
            0 <= i <= len,
            len == s@.len(),
            all_digits(s@.take(i as int)),
            acc as int == digits_val(s@.take(i as int)),
            acc <= bound,
        decreases len - i,
    {
        let c = s.get_char(i);
        if !is_digit(c) {
            assert(!all_digits(s@));
            return None;
        }
        let d: u64 = (c as u32 as u64) - 48;
        assert(d <= 9);
        if acc > (u64::MAX - d) / 10 {
            // the running value already exceeds any representable bound
            proof {
                assert(s@.take(i as int + 1).drop_last() =~= s@.take(i as int));
                assert(s@.take(i as int + 1).last() == s@[i as int]);
                assert(digits_val(s@.take(i as int + 1)) == acc as int * 10 + d);
                assert(acc as int * 10 + d > bound) by (nonlinear_arith)
                    requires
                        acc > (u64::MAX - d) / 10,
                        d <= 9,
                        bound <= u64::MAX,
                        acc as int >= 0,
                ;
                if all_digits(s@) {
                    lemma_digits_val_prefix_le(s@, i as int + 1);
                }
            }
            return None;
        }
        let next: u64 = acc * 10 + d;
        proof {
            assert(acc as int * 10 + d <= u64::MAX) by (nonlinear_arith)
                requires
                    acc <= (u64::MAX - d) / 10,
                    d <= 9,
                    acc as int >= 0,
            ;
            assert(s@.take(i as int + 1).drop_last() =~= s@.take(i as int));
            assert(s@.take(i as int + 1).last() == s@[i as int]);
        }
        if next > bound {
            proof {
                if all_digits(s@) {
                    lemma_digits_val_prefix_le(s@, i as int + 1);
                }
            }
            return None;
        }
        acc = next;
        i += 1;
    }
    proof {
        assert(s@.take(len as int) =~= s@);
    }
    Some(acc)
}

/// Whether `a` and `b` hold the same characters.
pub fn str_eq(a: &str, b: &str) -> (r: bool)
    ensures
        r == (a@ == b@),
{
    let a_len = a.unicode_len();
    let b_len = b.unicode_len();
    if a_len != b_len {
        return false;
    }
    let mut k: usize = 0;
    while k < a_len
        invariant
            0 <= k <= a_len,
            a_len == a@.len(),
            a_len == b@.len(),
            forall|m: int| 0 <= m < k ==> a@[m] == b@[m],
        decreases a_len - k,
    {
        if a.get_char(k) != b.get_char(k) {
            return false;
        }
        k += 1;
    }
    proof {
        assert(a@ =~= b@);
    }
    true
}

/// The boolean an attribute text denotes: exactly `true` or `false`.
pub open spec fn parse_bool_text(s: Seq<char>) -> Option<bool> {
    if s == "true"@ {
        Some(true)
    } else if s == "false"@ {
        Some(false)
    } else {
        None
    }
}

pub fn parse_bool(s: &str) -> (r: Option<bool>)
    ensures
        r == parse_bool_text(s@),
{
    if str_eq(s, "true") {
        Some(true)
    } else if str_eq(s, "false") {
        Some(false)
    } else {
        None
    }
}

/// The unsigned value an attribute text denotes: an optional `+` sign and
/// decimal digits, fitting 32 bits.
pub open spec fn parse_u32_text(s: Seq<char>) -> Option<u32> {
    let body = if s.len() > 0 && s[0] == '+' {
        s.skip(1)
    } else {
        s
    };
    match parse_decimal(body, u32::MAX as int) {
        Some(v) => Some(v as u32),
        None => None,
    }
}

pub fn parse_u32(s: &str) -> (r: Option<u32>)
    ensures
        r == parse_u32_text(s@),
{
    let len = s.unicode_len();
    let body: &str = if len > 0 && s.get_char(0) == '+' {
        s.substring_char(1, len)
    } else {
        s
    };
    proof {
        if len > 0 && s@[0] == '+' {
            assert(body@ =~= s@.skip(1));
        }
    }
    match parse_u64_bounded(body, u32::MAX as u64) {
        Some(v) => Some(v as u32),
        None => None,
    }
}

/// The signed value an attribute text denotes: an optional sign and decimal
/// digits, fitting a 32-bit signed range.
pub open spec fn parse_i32_text(s: Seq<char>) -> Option<i32> {
    if s.len() > 0 && s[0] == '-' {
        match parse_decimal(s.skip(1), 0x8000_0000) {
            Some(v) => Some((-v) as i32),
            None => None,
        }
    } else {
        let body = if s.len() > 0 && s[0] == '+' {
            s.skip(1)
        } else {
            s
        };
        match parse_decimal(body, 0x7fff_ffff) {
            Some(v) => Some(v as i32),
            None => None,
        }
    }
}

pub fn parse_i32(s: &str) -> (r: Option<i32>)
    ensures
        r == parse_i32_text(s@),
{
    let len = s.unicode_len();
    if len > 0 && s.get_char(0) == '-' {
        let body = s.substring_char(1, len);
        proof {
            assert(body@ =~= s@.skip(1));
        }
        match parse_u64_bounded(body, 0x8000_0000) {
            Some(v) => Some((-(v as i64)) as i32),
            None => None,
        }
    } else {
        let body: &str = if len > 0 && s.get_char(0) == '+' {
            s.substring_char(1, len)
        } else {
            s
        };
        proof {
            if len > 0 && s@[0] == '+' {
                assert(body@ =~= s@.skip(1));
            }
        }
        match parse_u64_bounded(body, 0x7fff_ffff) {
            Some(v) => Some(v as i32),
            None => None,
        }
    }
}

/// First position at or after `i` holding a non-digit character.
pub open spec fn sp_digits_end(s: Seq<char>, i: int) -> int
    decreases s.len() - i,
{
    if 0 <= i < s.len() && is_digit_char(s[i]) {
        sp_digits_end(s, i + 1)
    } else {
        i
    }
}

fn digits_end(s: &str, len: usize, i: usize) -> (r: usize)
    requires
        len == s@.len(),
        i <= len,
    ensures
        r as int == sp_digits_end(s@, i as int),
        i <= r <= len,
{
    let mut r = i;
    while r < len && is_digit(s.get_char(r))
        invariant
            i <= r <= len,
            len == s@.len(),
            sp_digits_end(s@, i as int) == sp_digits_end(s@, r as int),
        decreases len - r,
    {
        r += 1;
    }
    r
}

/// Whether an attribute text is a decimal or exponential floating-point
/// literal: an optional sign, then digits with an optional point (at least
/// one digit on one side), then an optional exponent with its own optional
/// sign and at least one digit.
pub open spec fn is_double_text(s: Seq<char>) -> bool {
    let i0: int = if s.len() > 0 && (s[0] == '+' || s[0] == '-') {
        1
    } else {
        0
    };
    let d1 = sp_digits_end(s, i0);
    let m_end: int = if d1 < s.len() && s[d1] == '.' {
        let d2 = sp_digits_end(s, d1 + 1);
        if d1 > i0 || d2 > d1 + 1 {
            d2
        } else {
            -1
        }
    } else if d1 > i0 {
        d1
    } else {
        -1
    };
    if m_end < 0 {
        false
    } else if m_end == s.len() {
        true
    } else if s[m_end] == 'e' || s[m_end] == 'E' {
        let j0: int = if m_end + 1 < s.len() && (s[m_end + 1] == '+' || s[m_end + 1] == '-') {
            m_end + 2
        } else {
            m_end + 1
        };
        let d3 = sp_digits_end(s, j0);
        d3 > j0 && d3 == s.len()
    } else {
        false
    }
}

pub fn check_double(s: &str) -> (r: bool)
    ensures
        r == is_double_text(s@),
{
    let len = s.unicode_len();
    let i0: usize = if len > 0 && (s.get_char(0) == '+' || s.get_char(0) == '-') {
        1
    } else {
        0
    };
    let d1 = digits_end(s, len, i0);
    let mut m_end: usize = 0;
    let mut bad_mantissa = false;
    if d1 < len && s.get_char(d1) == '.' {
        let d2 = digits_end(s, len, d1 + 1);
        if d1 > i0 || d2 > d1 + 1 {
            m_end = d2;
        } else {
            bad_mantissa = true;
        }
    } else if d1 > i0 {
        m_end = d1;
    } else {
        bad_mantissa = true;
    }
    if bad_mantissa {
        return false;
    }
    if m_end == len {
        return true;
    }
    let e = s.get_char(m_end);
    if e == 'e' || e == 'E' {
        let j0: usize = if m_end + 1 < len && (s.get_char(m_end + 1) == '+' || s.get_char(
            m_end + 1,
        ) == '-') {
            m_end + 2
        } else {
            m_end + 1
        };
        let d3 = digits_end(s, len, j0);
        d3 > j0 && d3 == len
    } else {
        false
    }
}

/// The ASCII upper-case image of one character; others are unchanged.
pub open spec fn upper_char(c: char) -> char {
    if 'a' <= c && c <= 'z' {
        (((c as u8) - 32) as u8) as char
    } else {
        c
    }
}

pub open spec fn upper_seq(s: Seq<char>) -> Seq<char> {
    Seq::new(s.len(), |i: int| upper_char(s[i]))
}

/// Appends the ASCII upper-case image of `s` to `buf`.
pub fn append_upper(buf: &mut String, s: &str)
    ensures
        final(buf)@ == old(buf)@ + upper_seq(s@),
{
    let len = s.unicode_len();
    let mut i: usize = 0;
    while i < len
        invariant
            0 <= i <= len,
            len == s@.len(),
            buf@ == old(buf)@ + upper_seq(s@).take(i as int),
        decreases len - i,
    {
        let c = s.get_char(i);
        if 'a' <= c && c <= 'z' {
            let b: u8 = (c as u8) - 32;
            push_char(buf, b as char);
        } else {
            push_char(buf, c);
        }
        proof {
            assert(buf@ =~= old(buf)@ + upper_seq(s@).take(i as int + 1));
        }
        i += 1;
    }
    proof {
        assert(upper_seq(s@).take(len as int) =~= upper_seq(s@));
    }
}

/// The image of `s` with every underscore replaced by a space.
pub open spec fn spaced(s: Seq<char>) -> Seq<char> {
    Seq::new(
        s.len(),
        |i: int|
            if s[i] == '_' {
                ' '
            } else {
                s[i]
            },
    )
}

/// Replaces every underscore in `s` by a space.
pub fn space_underscores(s: &str) -> (r: String)
    ensures
        r@ == spaced(s@),
{
    let len = s.unicode_len();
    let mut r = String::new();
    let mut i: usize = 0;
    while i < len
        invariant
            0 <= i <= len,
            len == s@.len(),
            r@ == spaced(s@).take(i as int),
        decreases len - i,
    {
        let c = s.get_char(i);
        if c == '_' {
            push_char(&mut r, ' ');
        } else {
            push_char(&mut r, c);
        }
        proof {
            assert(r@ =~= spaced(s@).take(i as int + 1));
        }
        i += 1;
    }
    proof {
        assert(spaced(s@).take(len as int) =~= spaced(s@));
    }
    r
}

/// The parts joined by `sep`: empty for no parts, no leading or trailing
/// separator otherwise.
pub open spec fn joined(parts: Seq<Seq<char>>, sep: Seq<char>) -> Seq<char>
    decreases parts.len(),
{
    if parts.len() == 0 {
        Seq::empty()
    } else if parts.len() == 1 {
        parts[0]
    } else {
        joined(parts.drop_last(), sep) + sep + parts.last()
    }
}

/// Appends the parts joined by `sep` to `buf`.
pub fn append_joined(buf: &mut String, parts: &Vec<String>, sep: &str)
    ensures
        final(buf)@ == old(buf)@ + joined(parts.deep_view(), sep@),
{
    let mut i: usize = 0;
    while i < parts.len()
        invariant
            0 <= i <= parts@.len(),
            buf@ == old(buf)@ + joined(parts.deep_view().take(i as int), sep@),
        decreases parts@.len() - i,
    {
        if i > 0 {
            buf.append(sep);
        }
        buf.append(parts[i].as_str());
        proof {
            let dv = parts.deep_view();
            assert(dv.take(i as int + 1).drop_last() =~= dv.take(i as int));
            assert(dv.take(i as int + 1).last() == dv[i as int]);
            if i == 0 {
                assert(buf@ =~= old(buf)@ + joined(dv.take(1), sep@));
            } else {
                assert(buf@ =~= old(buf)@ + joined(dv.take(i as int + 1), sep@));
            }
        }
        i += 1;
    }
    proof {
        assert(parts.deep_view().take(parts@.len() as int) =~= parts.deep_view());
    }
}

} // verus!
