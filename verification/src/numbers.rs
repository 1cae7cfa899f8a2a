//! Decimal text for 32-bit integers: rendering a value to its decimal text
//! and reading a value back from text, with the round trip proved.

use vstd::prelude::*;

verus! {

/// Whether `c` is a decimal digit.
pub open spec fn is_digit_char(c: char) -> bool {
    48 <= c as u32 <= 57
}

/// The numeric value of a digit character.
pub open spec fn digit_val(c: char) -> nat {
    ((c as u32) - 48) as nat
}

/// The digit character of a value below ten.
pub open spec fn digit_char(d: nat) -> char {
    (((d + 48) as nat) as u8) as char
}

/// The decimal digits of a natural number, most significant first.
pub open spec fn dec_digits(n: nat) -> Seq<char>
    decreases n,
{
    if n < 10 {
        seq![digit_char(n)]
    } else {
        dec_digits(n / 10) + seq![digit_char(n % 10)]
    }
}

/// The decimal text of an integer: a minus sign for negative values, then
/// the digits with no leading zero.
pub open spec fn dec_str(v: int) -> Seq<char> {
    if v < 0 {
        seq!['-'] + dec_digits((-v) as nat)
    } else {
        dec_digits(v as nat)
    }
}

/// Whether every character of `s` is a decimal digit.
pub open spec fn all_digits(s: Seq<char>) -> bool {
    forall|i: int| 0 <= i < s.len() ==> is_digit_char(#[trigger] s[i])
}

/// The value of a sequence of digit characters, most significant first.
pub open spec fn digits_val(s: Seq<char>) -> nat
    decreases s.len(),
{
    if s.len() == 0 {
        0
    } else {
        digits_val(s.drop_last()) * 10 + digit_val(s.last())
    }
}

/// The integer that a piece of text denotes: an optional sign, then at
/// least one digit, and a value that fits in 32 bits; any other text
/// denotes nothing.
pub open spec fn parse_int_model(s: Seq<char>) -> Option<i32> {
    if s.len() == 0 {
        Option::None
    } else {
        let neg = s[0] == '-';
        let digits = if s[0] == '-' || s[0] == '+' {
            s.drop_first()
        } else {
            s
        };
        if digits.len() == 0 || !all_digits(digits) {
            Option::None
        } else {
            let m = digits_val(digits) as int;
            let v = if neg {
                -m
            } else {
                m
            };
            if i32::MIN <= v <= i32::MAX {
                Option::Some(v as i32)
            } else {
                Option::None
            }
        }
    }
}

/// The value of a digit prefix never exceeds the value of the whole.
proof fn lemma_digits_val_prefix_le(s: Seq<char>, i: int)
    requires
        0 <= i <= s.len(),
    ensures
        digits_val(s.subrange(0, i)) <= digits_val(s),
    decreases s.len(),
{
    if i < s.len() {
        lemma_digits_val_prefix_le(s.drop_last(), i);
        assert(s.drop_last().subrange(0, i) =~= s.subrange(0, i));
    } else {
        assert(s.subrange(0, i) =~= s);
    }
}

/// Extending a digit string by one digit multiplies its value by ten and
/// adds the digit.
proof fn lemma_digits_val_extend(s: Seq<char>, i: int)
    requires
        0 <= i < s.len(),
    ensures
        digits_val(s.subrange(0, i + 1)) == digits_val(s.subrange(0, i)) * 10 + digit_val(s[i]),
{
    let ext = s.subrange(0, i + 1);
    assert(ext.drop_last() =~= s.subrange(0, i));
    assert(ext.last() == s[i]);
}

/// The decimal digits of a natural number are digits, start with no sign,
/// and denote the number itself.
pub proof fn lemma_dec_digits_val(n: nat)
    ensures
        dec_digits(n).len() >= 1,
        all_digits(dec_digits(n)),
        digits_val(dec_digits(n)) == n,
    decreases n,
{
    reveal_with_fuel(digits_val, 3);
    if n < 10 {
        assert(dec_digits(n) =~= seq![digit_char(n)]);
        assert(dec_digits(n).drop_last() =~= Seq::<char>::empty());
        assert(digits_val(Seq::<char>::empty()) == 0);
        assert(digit_val(digit_char(n)) == n);
    } else {
        lemma_dec_digits_val(n / 10);
        let d = dec_digits(n);
        assert(d =~= dec_digits(n / 10) + seq![digit_char(n % 10)]);
        assert(d.drop_last() =~= dec_digits(n / 10));
        assert(d.last() == digit_char(n % 10));
        assert(digit_val(digit_char(n % 10)) == n % 10);
        assert(digits_val(d) == (n / 10) * 10 + n % 10);
        assert((n / 10) * 10 + n % 10 == n) by (nonlinear_arith);
    }
}

/// Reading back the decimal text of a 32-bit integer gives that integer.
pub proof fn lemma_parse_dec_str(v: i32)
    ensures
        parse_int_model(dec_str(v as int)) == Option::Some(v),
{
    if v < 0 {
        let m = (-(v as int)) as nat;
        lemma_dec_digits_val(m);
        let s = dec_str(v as int);
        assert(s == seq!['-'] + dec_digits(m));
        assert(s[0] == '-');
        assert(s.drop_first() =~= dec_digits(m));
    } else {
        let m = (v as int) as nat;
        lemma_dec_digits_val(m);
        let s = dec_str(v as int);
        assert(s == dec_digits(m));
        assert(is_digit_char(s[0]));
        assert(s[0] != '-' && s[0] != '+');
    }
}

/// Renders a 32-bit integer as its decimal text.
pub fn render_i32(v: i32) -> (r: String)
    ensures
        r@ == dec_str(v as int),
{
    let neg = v < 0;
    let mut m: u64 = if v >= 0 {
        v as u64
    } else {
        (-(v as i64)) as u64
    };
    let ghost m0 = m as nat;
    let mut rev: Vec<u8> = Vec::new();
    while m >= 10
        invariant
            forall|j: int| 0 <= j < rev@.len() ==> 48 <= #[trigger] rev@[j] <= 57,
            dec_digits(m0) =~= dec_digits(m as nat) + rev@.map_values(|b: u8| b as char).reverse(),
        decreases m,
    {
        let d: u8 = (m % 10) as u8 + 48;
        let ghost m_old = m as nat;
        let ghost prev = rev@;
        rev.push(d);
        m = m / 10;
        proof {
            assert(d as char == digit_char(m_old % 10));
            assert(dec_digits(m_old) == dec_digits(m_old / 10) + seq![digit_char(m_old % 10)]);
            assert(rev@.map_values(|b: u8| b as char).reverse() =~= seq![d as char]
                + prev.map_values(|b: u8| b as char).reverse());
            assert(dec_digits(m0) =~= dec_digits(m as nat) + rev@.map_values(
                |b: u8| b as char,
            ).reverse());
        }
    }
    let d: u8 = m as u8 + 48;
    let mut bytes: Vec<u8> = Vec::new();
    if neg {
        bytes.push(45);
    }
    bytes.push(d);
    let mut i: usize = rev.len();
    proof {
        assert(dec_digits(m as nat) =~= seq![d as char]);
        assert(dec_digits(m0).subrange(0, 1) =~= seq![d as char]);
    }
    while i > 0
        invariant
            i <= rev@.len(),
            forall|j: int| 0 <= j < rev@.len() ==> 48 <= #[trigger] rev@[j] <= 57,
            forall|j: int| 0 <= j < bytes@.len() ==> #[trigger] bytes@[j] < 128,
            dec_digits(m0) =~= seq![d as char] + rev@.map_values(|b: u8| b as char).reverse(),
            bytes@.map_values(|b: u8| b as char) =~= (if neg {
                seq!['-']
            } else {
                Seq::<char>::empty()
            }) + dec_digits(m0).subrange(0, dec_digits(m0).len() - i),
        decreases i,
    {
        i = i - 1;
        let ghost prev = bytes@;
        bytes.push(rev[i]);
        proof {
            let full = dec_digits(m0);
            let k = full.len() - i - 1;
            assert(rev@.map_values(|b: u8| b as char).reverse()[k - 1] == rev@[i as int] as char);
            assert(full[k] == rev@[i as int] as char);
            assert(bytes@.map_values(|b: u8| b as char) =~= prev.map_values(|b: u8| b as char)
                + seq![rev@[i as int] as char]);
            assert(full.subrange(0, k + 1) =~= full.subrange(0, k) + seq![full[k]]);
        }
    }
    proof {
        assert(dec_digits(m0).subrange(0, dec_digits(m0).len() as int) =~= dec_digits(m0));
        assert(bytes@.map_values(|b: u8| b as char) =~= dec_str(v as int));
    }
    string_from_ascii(bytes)
}

/// Relies on `String::from_utf8`: bytes below 0x80 are valid UTF-8 and
/// decode one byte to one character with the same code.
#[verifier::external_body]
fn string_from_ascii(bytes: Vec<u8>) -> (r: String)
    requires
        forall|i: int| 0 <= i < bytes@.len() ==> #[trigger] bytes@[i] < 128,
    ensures
        r@ == bytes@.map_values(|b: u8| b as char),
{
    match String::from_utf8(bytes) {
        Ok(s) => s,
        Err(_) => String::new(),
    }
}

/// Reads a 32-bit integer from text: an optional sign, then digits.
pub fn parse_i32_text(s: &str) -> (r: Option<i32>)
    ensures
        r == parse_int_model(s@),
{
    let n = s.unicode_len();
    if n == 0 {
        return Option::None;
    }
    let first = s.get_char(0);
    let neg = first == '-';
    let has_sign = neg || first == '+';
    let start: usize = if has_sign {
        1
    } else {
        0
    };
    let ghost digits = if has_sign {
        s@.drop_first()
    } else {
        s@
    };
    if start >= n {
        return Option::None;
    }
    let mut i: usize = start;
    let mut acc: u64 = 0;
    while i < n
        invariant
            start <= i <= n,
            n == s@.len(),
            neg == (s@[0] == '-'),
            has_sign == (s@[0] == '-' || s@[0] == '+'),
            start == if has_sign { 1int } else { 0int },
            digits == if has_sign { s@.drop_first() } else { s@ },
            digits.len() == n - start,
            forall|j: int| 0 <= j < i - start ==> is_digit_char(#[trigger] digits[j]),
            acc == digits_val(digits.subrange(0, i - start)),
            acc <= 2147483648,
        decreases n - i,
    {
        let c = s.get_char(i);
        proof {
            assert(digits[i - start] == s@[i as int]);
        }
        if !('0' <= c && c <= '9') {
            proof {
                assert(!is_digit_char(digits[i - start]));
            }
            return Option::None;
        }
        let d: u32 = (c as u32) - 48;
        acc = acc * 10 + d as u64;
        proof {
            lemma_digits_val_extend(digits, i - start);
            assert(digits.subrange(0, i - start + 1).drop_last() =~= digits.subrange(
                0,
                i - start,
            ));
        }
        i = i + 1;
        if acc > 2147483648 {
            proof {
                if all_digits(digits) {
                    lemma_digits_val_prefix_le(digits, i - start);
                }
            }
            return Option::None;
        }
    }
    proof {
        assert(digits.subrange(0, n - start) =~= digits);
    }
    if neg {
        let v: i64 = -(acc as i64);
        Option::Some(v as i32)
    } else {
        if acc > 2147483647 {
            Option::None
        } else {
            Option::Some(acc as i32)
        }
    }
}

} // verus!
