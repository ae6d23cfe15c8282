//! Decimal rendering and parsing of native window ids.
//!
//! Window records carry their native protocol id as an opaque string;
//! toggling parses that string back into the native id. Both directions
//! are verified against one specification of decimal notation.

use vstd::prelude::*;

verus! {

/// The decimal digit character for a value below ten.
pub open spec fn char_of_digit(d: int) -> char {
    if d == 0 { '0' }
    else if d == 1 { '1' }
    else if d == 2 { '2' }
    else if d == 3 { '3' }
    else if d == 4 { '4' }
    else if d == 5 { '5' }
    else if d == 6 { '6' }
    else if d == 7 { '7' }
    else if d == 8 { '8' }
    else { '9' }
}

/// The decimal notation of `n`, most significant digit first, no sign,
/// no leading zero except for zero itself.
pub open spec fn dec_chars_of(n: nat) -> Seq<char>
    decreases n,
{
    if n < 10 {
        seq![char_of_digit(n as int)]
    } else {
        dec_chars_of(n / 10) + seq![char_of_digit((n % 10) as int)]
    }
}

/// `c` is a decimal digit character.
pub open spec fn is_dec_digit(c: char) -> bool {
    48 <= c as u32 <= 57
}

/// The numeric value of a digit character.
pub open spec fn digit_val(c: char) -> int {
    c as u32 - 48
}

/// Every character of `s` is a digit and there is at least one.
pub open spec fn is_dec_string(s: Seq<char>) -> bool {
    s.len() > 0 && (forall|k: int| 0 <= k < s.len() ==> is_dec_digit(s[k]))
}

/// The value of a digit string, most significant digit first.
pub open spec fn dec_val(s: Seq<char>) -> int
    decreases s.len(),
{
    if s.len() == 0 {
        0
    } else {
        dec_val(s.drop_last()) * 10 + digit_val(s.last())
    }
}

/// The single-character string for a digit value.
fn digit_str(d: u32) -> (r: &'static str)
    requires
        d < 10,
    ensures
        r@ =~= seq![char_of_digit(d as int)],
{
    proof {
        reveal_strlit("0");
        reveal_strlit("1");
        reveal_strlit("2");
        reveal_strlit("3");
        reveal_strlit("4");
        reveal_strlit("5");
        reveal_strlit("6");
        reveal_strlit("7");
        reveal_strlit("8");
        reveal_strlit("9");
    }
    match d {
        0 => "0",
        1 => "1",
        2 => "2",
        3 => "3",
        4 => "4",
        5 => "5",
        6 => "6",
        7 => "7",
        8 => "8",
        _ => "9",
    }
}

/// Render `n` in decimal.
pub fn u32_to_dec(n: u32) -> (s: String)
    ensures
        s@ == dec_chars_of(n as nat),
    decreases n,
{
    if n < 10 {
        String::from_str(digit_str(n))
    } else {
        let mut s = u32_to_dec(n / 10);
        s.append(digit_str(n % 10));
        s
    }
}

/// Parse a string of decimal digits as a `u32`.
///
/// Returns `Some` exactly on nonempty all-digit strings whose value
/// fits in a `u32`.
pub fn parse_u32_dec(s: &str) -> (r: Option<u32>)
    ensures
        r is Some <==> is_dec_string(s@) && dec_val(s@) <= u32::MAX,
        r matches Some(v) ==> v == dec_val(s@),
{
    let len = s.unicode_len();
    if len == 0 {
        return None;
    }
    let mut acc: u32 = 0;
    let mut i: usize = 0;
    while i < len
        invariant
            len == s@.len(),
            0 < len,
            i <= len,
            forall|k: int| 0 <= k < i ==> is_dec_digit(s@[k]),
            acc == dec_val(s@.subrange(0, i as int)),
            dec_val(s@.subrange(0, i as int)) <= u32::MAX,
        decreases len - i,
    {
        let c = s.get_char(i);
        let cu = c as u32;
        if cu < 48 || cu > 57 {
            assert(!is_dec_digit(s@[i as int]));
            return None;
        }
        let d = cu - 48;
        if acc > (u32::MAX - d) / 10 {
            proof {
                lemma_prefix_monotone(s@, i as int);
            }
            return None;
        }
        acc = acc * 10 + d;
        assert(s@.subrange(0, i + 1 as int).drop_last() =~= s@.subrange(0, i as int));
        i += 1;
    }
    assert(s@.subrange(0, len as int) =~= s@);
    Some(acc)
}

/// If a digit string's value up to position `i` already exceeds what one
/// more digit can keep within `u32::MAX`, the whole string's value
/// exceeds `u32::MAX` as well.
proof fn lemma_prefix_monotone(s: Seq<char>, i: int)
    requires
        0 <= i < s.len(),
        is_dec_digit(s[i]),
        dec_val(s.subrange(0, i)) * 10 + digit_val(s[i]) > u32::MAX,
    ensures
        !(is_dec_string(s) && dec_val(s) <= u32::MAX),
{
    if is_dec_string(s) {
        assert(s.subrange(0, i + 1).drop_last() =~= s.subrange(0, i));
        assert(dec_val(s.subrange(0, i + 1)) > u32::MAX);
        lemma_dec_val_extend_ge(s, i + 1);
    }
}

/// The value of a digit string is at least the value of any of its prefixes.
proof fn lemma_dec_val_extend_ge(s: Seq<char>, i: int)
    requires
        0 <= i <= s.len(),
        forall|k: int| 0 <= k < s.len() ==> is_dec_digit(s[k]),
        dec_val(s.subrange(0, i)) >= 0,
    ensures
        dec_val(s) >= dec_val(s.subrange(0, i)),
        dec_val(s) >= 0,
    decreases s.len() - i,
{
    if i == s.len() {
        assert(s.subrange(0, i) =~= s);
    } else {
        assert(s.subrange(0, i + 1).drop_last() =~= s.subrange(0, i));
        assert(dec_val(s.subrange(0, i + 1))
            == dec_val(s.subrange(0, i)) * 10 + digit_val(s.subrange(0, i + 1).last()));
        assert(dec_val(s.subrange(0, i + 1)) >= dec_val(s.subrange(0, i))) by (nonlinear_arith)
            requires
                dec_val(s.subrange(0, i + 1))
                    == dec_val(s.subrange(0, i)) * 10 + digit_val(s.subrange(0, i + 1).last()),
                dec_val(s.subrange(0, i)) >= 0,
                digit_val(s.subrange(0, i + 1).last()) >= 0,
        ;
        lemma_dec_val_extend_ge(s, i + 1);
    }
}

/// Rendering and parsing agree: the decimal notation of `n` is a valid
/// digit string whose value is `n`.
pub proof fn lemma_dec_round_trip(n: nat)
    ensures
        is_dec_string(dec_chars_of(n)),
        dec_val(dec_chars_of(n)) == n,
    decreases n,
{
    if n < 10 {
        assert(dec_chars_of(n) =~= seq![char_of_digit(n as int)]);
        assert(dec_val(dec_chars_of(n).drop_last()) == 0);
    } else {
        lemma_dec_round_trip(n / 10);
        assert(dec_chars_of(n).drop_last() =~= dec_chars_of(n / 10));
        assert(dec_chars_of(n).last() == char_of_digit((n % 10) as int));
        assert(dec_val(dec_chars_of(n)) == (n / 10) * 10 + (n % 10));
    }
}

} // verus!
