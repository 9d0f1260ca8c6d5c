//! Decimal and hexadecimal numerals: the value of a digit string, the
//! laws those values obey (leading zeros never change a value), and
//! checked conversions between `u64` and decimal text.

use vstd::prelude::*;
use vstd::string::StrSliceExecFns;

verus! {

/// Holds when `c` is a decimal digit.
pub open spec fn is_dec_digit(c: char) -> bool {
    '0' <= c && c <= '9'
}

/// Holds when `c` is a hexadecimal digit of either case.
pub open spec fn is_hex_digit(c: char) -> bool {
    ('0' <= c && c <= '9') || ('a' <= c && c <= 'f') || ('A' <= c && c <= 'F')
}

/// The numeric value of a decimal digit.
pub open spec fn dec_digit_val(c: char) -> int {
    c as int - '0' as int
}

/// The numeric value of a hexadecimal digit.
pub open spec fn hex_digit_val(c: char) -> int {
    if '0' <= c && c <= '9' {
        c as int - '0' as int
    } else if 'a' <= c && c <= 'f' {
        c as int - 'a' as int + 10
    } else {
        c as int - 'A' as int + 10
    }
}

/// Holds when every character of `s` is a decimal digit.
pub open spec fn all_dec_digits(s: Seq<char>) -> bool {
    forall|i: int| 0 <= i < s.len() ==> is_dec_digit(#[trigger] s[i])
}

/// Holds when every character of `s` is a hexadecimal digit.
pub open spec fn all_hex_digits(s: Seq<char>) -> bool {
    forall|i: int| 0 <= i < s.len() ==> is_hex_digit(#[trigger] s[i])
}

/// The unsigned integer a big-endian decimal digit string denotes.
pub open spec fn dec_val(s: Seq<char>) -> int
    decreases s.len(),
{
    if s.len() == 0 {
        0
    } else {
        dec_val(s.drop_last()) * 10 + dec_digit_val(s.last())
    }
}

/// The unsigned integer a big-endian hexadecimal digit string denotes.
pub open spec fn hex_val(s: Seq<char>) -> int
    decreases s.len(),
{
    if s.len() == 0 {
        0
    } else {
        hex_val(s.drop_last()) * 16 + hex_digit_val(s.last())
    }
}

/// A digit string never denotes a negative value.
pub proof fn lemma_dec_val_nonneg(s: Seq<char>)
    requires
        all_dec_digits(s),
    ensures
        dec_val(s) >= 0,
    decreases s.len(),
{
    if s.len() > 0 {
        assert(all_dec_digits(s.drop_last()));
        lemma_dec_val_nonneg(s.drop_last());
    }
}

/// A hexadecimal digit string never denotes a negative value.
pub proof fn lemma_hex_val_nonneg(s: Seq<char>)
    requires
        all_hex_digits(s),
    ensures
        hex_val(s) >= 0,
    decreases s.len(),
{
    if s.len() > 0 {
        assert(all_hex_digits(s.drop_last()));
        lemma_hex_val_nonneg(s.drop_last());
    }
}

/// A string of zeros denotes zero.
pub proof fn lemma_dec_val_all_zero(z: Seq<char>)
    requires
        forall|i: int| 0 <= i < z.len() ==> #[trigger] z[i] == '0',
    ensures
        dec_val(z) == 0,
    decreases z.len(),
{
    if z.len() > 0 {
        lemma_dec_val_all_zero(z.drop_last());
    }
}

/// Leading zeros never change the value of a decimal numeral.
pub proof fn lemma_dec_leading_zeros(z: Seq<char>, s: Seq<char>)
    requires
        forall|i: int| 0 <= i < z.len() ==> #[trigger] z[i] == '0',
    ensures
        dec_val(z + s) == dec_val(s),
    decreases s.len(),
{
    if s.len() == 0 {
        assert(z + s =~= z);
        lemma_dec_val_all_zero(z);
    } else {
        assert((z + s).drop_last() =~= z + s.drop_last());
        assert((z + s).last() == s.last());
        lemma_dec_leading_zeros(z, s.drop_last());
    }
}

/// A string of zeros denotes zero in hexadecimal as well.
pub proof fn lemma_hex_val_all_zero(z: Seq<char>)
    requires
        forall|i: int| 0 <= i < z.len() ==> #[trigger] z[i] == '0',
    ensures
        hex_val(z) == 0,
    decreases z.len(),
{
    if z.len() > 0 {
        lemma_hex_val_all_zero(z.drop_last());
    }
}

/// Leading zeros never change the value of a hexadecimal numeral.
pub proof fn lemma_hex_leading_zeros(z: Seq<char>, s: Seq<char>)
    requires
        forall|i: int| 0 <= i < z.len() ==> #[trigger] z[i] == '0',
    ensures
        hex_val(z + s) == hex_val(s),
    decreases s.len(),
{
    if s.len() == 0 {
        assert(z + s =~= z);
        lemma_hex_val_all_zero(z);
    } else {
        assert((z + s).drop_last() =~= z + s.drop_last());
        assert((z + s).last() == s.last());
        lemma_hex_leading_zeros(z, s.drop_last());
    }
}

/// Extending a digit string to the right never shrinks its value.
pub proof fn lemma_dec_val_prefix_le(s: Seq<char>, i: int, j: int)
    requires
        all_dec_digits(s),
        0 <= i <= j <= s.len(),
    ensures
        dec_val(s.subrange(0, i)) <= dec_val(s.subrange(0, j)),
    decreases j - i,
{
    if i < j {
        let t = s.subrange(0, j);
        assert(t.drop_last() =~= s.subrange(0, j - 1));
        assert(all_dec_digits(s.subrange(0, j - 1)));
        lemma_dec_val_nonneg(s.subrange(0, j - 1));
        assert(is_dec_digit(s[j - 1]));
        assert(dec_val(s.subrange(0, j)) >= dec_val(s.subrange(0, j - 1)));
        lemma_dec_val_prefix_le(s, i, j - 1);
    }
}

/// Parses a decimal character string as a `u64`, detecting overflow.
///
/// Returns the denoted value exactly when the string is a non-empty run
/// of decimal digits whose value fits in 64 bits.
pub fn parse_u64_chars(v: &Vec<char>) -> (r: Option<u64>)
    ensures
        r is Some <==> v@.len() > 0 && all_dec_digits(v@) && dec_val(v@) <= u64::MAX,
        r matches Some(x) ==> x == dec_val(v@),
{
    if v.len() == 0 {
        return None;
    }
    let mut acc: u64 = 0;
    let mut i: usize = 0;
    while i < v.len()
        invariant
            i <= v@.len(),
            forall|k: int| 0 <= k < i ==> is_dec_digit(#[trigger] v@[k]),
            acc == dec_val(v@.subrange(0, i as int)),
        decreases v@.len() - i,
    {
        let c = v[i];
        if !('0' <= c && c <= '9') {
            return None;
        }
        let d: u64 = (c as u32 as u64) - ('0' as u32 as u64);
        proof {
            assert(v@.subrange(0, i + 1).drop_last() =~= v@.subrange(0, i as int));
            assert(all_dec_digits(v@.subrange(0, i + 1)));
        }
        let next = match acc.checked_mul(10) {
            Some(x) => x.checked_add(d),
            None => None,
        };
        let next = match next {
            Some(x) => x,
            None => {
                proof {
                    assert(dec_val(v@.subrange(0, i + 1)) == acc * 10 + dec_digit_val(v@[i as int]));
                    assert(dec_val(v@.subrange(0, i + 1)) > u64::MAX);
                    if all_dec_digits(v@) {
                        lemma_dec_val_prefix_le(v@, i + 1, v@.len() as int);
                        assert(v@.subrange(0, v@.len() as int) =~= v@);
                    }
                }
                return None;
            },
        };
        acc = next;
        i = i + 1;
    }
    proof {
        assert(v@.subrange(0, v@.len() as int) =~= v@);
    }
    Some(acc)
}

/// The decimal digit characters of a non-negative integer, most
/// significant first, with no leading zeros.
pub open spec fn dec_str_of(n: int) -> Seq<char>
    decreases n,
{
    if n <= 9 {
        seq![dec_digit_char(n)]
    } else {
        dec_str_of(n / 10) + seq![dec_digit_char(n % 10)]
    }
}

/// The character for a single decimal digit.
pub open spec fn dec_digit_char(d: int) -> char {
    if d == 0 {
        '0'
    } else if d == 1 {
        '1'
    } else if d == 2 {
        '2'
    } else if d == 3 {
        '3'
    } else if d == 4 {
        '4'
    } else if d == 5 {
        '5'
    } else if d == 6 {
        '6'
    } else if d == 7 {
        '7'
    } else if d == 8 {
        '8'
    } else {
        '9'
    }
}

/// Renders a single decimal digit as a borrowed one-character string.
fn digit_str(d: u64) -> (r: &'static str)
    requires
        d <= 9,
    ensures
        r@ == seq![dec_digit_char(d as int)],
{
    let digits = "0123456789";
    proof {
        reveal_strlit("0123456789");
    }
    let r = digits.substring_ascii(d as usize, d as usize + 1);
    proof {
        assert(r@ =~= seq![dec_digit_char(d as int)]);
    }
    r
}

/// The characters standing for a sequence of single-digit values.
pub open spec fn chars_of_digits(s: Seq<u64>) -> Seq<char> {
    s.map_values(|d: u64| dec_digit_char(d as int))
}

/// Renders a `u64` as its decimal string.
pub fn u64_to_string(n: u64) -> (r: String)
    ensures
        r@ == dec_str_of(n as int),
{
    let mut digits: Vec<u64> = Vec::new();
    let mut m: u64 = n;
    loop
        invariant_except_break
            dec_str_of(n as int) =~= dec_str_of(m as int) + chars_of_digits(digits@).reverse(),
        invariant
            forall|k: int| 0 <= k < digits@.len() ==> #[trigger] digits@[k] <= 9,
        ensures
            forall|k: int| 0 <= k < digits@.len() ==> #[trigger] digits@[k] <= 9,
            chars_of_digits(digits@).reverse() =~= dec_str_of(n as int),
        decreases m,
    {
        let d: u64 = m % 10;
        proof {
            assert(chars_of_digits(digits@.push(d)).reverse() =~= seq![
                dec_digit_char(d as int),
            ] + chars_of_digits(digits@).reverse());
        }
        digits.push(d);
        if m <= 9 {
            proof {
                assert(dec_str_of(m as int) =~= seq![dec_digit_char(d as int)]);
                assert(chars_of_digits(digits@).reverse() =~= dec_str_of(n as int));
            }
            break;
        }
        let next: u64 = m / 10;
        proof {
            assert(dec_str_of(m as int) =~= dec_str_of(next as int) + seq![
                dec_digit_char(d as int),
            ]);
            assert(dec_str_of(n as int) =~= dec_str_of(next as int) + chars_of_digits(
                digits@,
            ).reverse());
        }
        m = next;
    }
    let mut s = String::new();
    let mut i: usize = digits.len();
    while i > 0
        invariant
            i <= digits@.len(),
            forall|k: int| 0 <= k < digits@.len() ==> #[trigger] digits@[k] <= 9,
            s@ =~= chars_of_digits(digits@).subrange(i as int, digits@.len() as int).reverse(),
        decreases i,
    {
        i = i - 1;
        let piece = digit_str(digits[i]);
        s.append(piece);
        proof {
            assert(s@ =~= chars_of_digits(digits@).subrange(
                i as int,
                digits@.len() as int,
            ).reverse());
        }
    }
    proof {
        assert(chars_of_digits(digits@).subrange(0, digits@.len() as int) =~= chars_of_digits(
            digits@,
        ));
    }
    s
}

} // verus!
