use vstd::prelude::*;
use vstd::utf8::encode_utf8;

verus! {

/// The C `isspace` set: space, tab, newline, vertical tab, form feed,
/// carriage return.
pub open spec fn is_c_space(b: u8) -> bool {
    b == 32 || (9 <= b && b <= 13)
}

pub open spec fn is_digit(b: u8) -> bool {
    48 <= b && b <= 57
}

/// The index of the first byte at or after `i` that is not white space.
pub open spec fn skip_space(s: Seq<u8>, i: int) -> int
    decreases s.len() - i,
{
    if 0 <= i < s.len() && is_c_space(s[i]) {
        skip_space(s, i + 1)
    } else {
        i
    }
}

/// `acc` followed by the decimal digits that start at `i`, as a number.
pub open spec fn digit_run_value(s: Seq<u8>, i: int, acc: nat) -> nat
    decreases s.len() - i,
{
    if 0 <= i < s.len() && is_digit(s[i]) {
        digit_run_value(s, i + 1, acc * 10 + (s[i] - 48) as nat)
    } else {
        acc
    }
}

/// The integer that C's `strtol` reads from the start of `s` in base ten,
/// before clamping: optional white space, an optional sign, then digits.
pub open spec fn leading_integer(s: Seq<u8>) -> int {
    let i0 = skip_space(s, 0);
    let neg = i0 < s.len() && s[i0] == 45;
    let signed = i0 < s.len() && (s[i0] == 45 || s[i0] == 43);
    let mag = digit_run_value(s, if signed { i0 + 1 } else { i0 }, 0);
    if neg {
        -mag
    } else {
        mag as int
    }
}

/// C `atol`: the leading integer of the text, clamped to the `i64` range.
pub open spec fn spec_atol(s: Seq<char>) -> i64 {
    let v = leading_integer(encode_utf8(s));
    if v > i64::MAX {
        i64::MAX
    } else if v < i64::MIN {
        i64::MIN
    } else {
        v as i64
    }
}

/// C `atoi`: `atol` truncated to the low 32 bits.
pub open spec fn spec_atoi(s: Seq<char>) -> i32 {
    spec_atol(s) as i32
}

proof fn lemma_digit_run_grows(s: Seq<u8>, i: int, acc: nat)
    ensures
        digit_run_value(s, i, acc) >= acc,
    decreases s.len() - i,
{
    if 0 <= i < s.len() && is_digit(s[i]) {
        assert(acc * 10 + (s[i] - 48) as nat >= acc) by (nonlinear_arith);
        lemma_digit_run_grows(s, i + 1, acc * 10 + (s[i] - 48) as nat);
    }
}

/// The limit past which an accumulated magnitude saturates.
spec fn sat_limit() -> nat {
    0x8000_0000_0000_0000
}

/// C `atol` on the text of `s`: skip white space, read an optional sign and
/// the decimal digits that follow, clamp to the `i64` range; no digits
/// read gives zero.
pub fn atol(s: &str) -> (v: i64)
    ensures
        v == spec_atol(s@),
{
    let b = s.as_bytes();
    let n = b.len();
    let mut i: usize = 0;
    while i < n && (b[i] == 32 || (9 <= b[i] && b[i] <= 13))
        invariant
            0 <= i <= n,
            n == b@.len(),
            skip_space(b@, i as int) == skip_space(b@, 0),
        decreases n - i,
    {
        i = i + 1;
    }
    assert(skip_space(b@, i as int) == i);
    let neg = i < n && b[i] == 45;
    if i < n && (b[i] == 45 || b[i] == 43) {
        i = i + 1;
    }
    let ghost start = i as int;
    let mut acc: u64 = 0;
    let ghost mut exact: nat = 0;
    while i < n && 48 <= b[i] && b[i] <= 57
        invariant
            start <= i <= n,
            n == b@.len(),
            digit_run_value(b@, start, 0) == digit_run_value(b@, i as int, exact),
            acc == if exact >= sat_limit() {
                sat_limit()
            } else {
                exact
            },
        decreases n - i,
    {
        let d = (b[i] - 48) as u64;
        proof {
            if exact >= sat_limit() {
                assert(exact * 10 + d >= sat_limit()) by (nonlinear_arith)
                    requires
                        exact >= sat_limit(),
                        d >= 0,
                ;
            }
            exact = exact * 10 + d as nat;
        }
        if acc < 0x8000_0000_0000_0000 {
            let next: u128 = (acc as u128) * 10 + (d as u128);
            if next >= 0x8000_0000_0000_0000 {
                acc = 0x8000_0000_0000_0000;
            } else {
                acc = next as u64;
            }
        }
        i = i + 1;
    }
    proof {
        lemma_digit_run_grows(b@, i as int, exact);
    }
    if neg {
        if acc >= 0x8000_0000_0000_0000 {
            i64::MIN
        } else {
            -(acc as i64)
        }
    } else {
        if acc >= 0x8000_0000_0000_0000 {
            i64::MAX
        } else {
            acc as i64
        }
    }
}

/// C `atoi` on the text of `s`: `atol` truncated to `i32`.
pub fn atoi(s: &str) -> (v: i32)
    ensures
        v == spec_atoi(s@),
{
    let l = atol(s);
    l as i32
}

/// The text is absent or empty.
pub fn sunIsNullOrEmpty(s: Option<&str>) -> (r: bool)
    ensures
        r == (s is None || s.unwrap()@.len() == 0),
{
    match s {
        None => true,
        Some(t) => t.is_empty(),
    }
}

/// Byte-wise equality of two strings, which is equality of their text.
pub fn str_eq(a: &str, b: &str) -> (r: bool)
    ensures
        r == (a@ == b@),
{
    let x = a.as_bytes();
    let y = b.as_bytes();
    proof {
        vstd::utf8::encode_utf8_decode_utf8(a@);
        vstd::utf8::encode_utf8_decode_utf8(b@);
    }
    if x.len() != y.len() {
        return false;
    }
    let mut i: usize = 0;
    while i < x.len()
        invariant
            x@.len() == y@.len(),
            0 <= i <= x@.len(),
            forall|j: int| 0 <= j < i ==> x@[j] == y@[j],
            x@ == encode_utf8(a@),
            y@ == encode_utf8(b@),
            vstd::utf8::decode_utf8(encode_utf8(a@)) == a@,
            vstd::utf8::decode_utf8(encode_utf8(b@)) == b@,
        decreases x@.len() - i,
    {
        if x[i] != y[i] {
            assert(x@[i as int] != y@[i as int]);
            assert(x@ != y@);
            return false;
        }
        i = i + 1;
    }
    assert(x@ =~= y@);
    true
}

/// A decimal digit as a character.
pub open spec fn digit_char(d: int) -> char {
    (48 + d) as char
}

/// The decimal digits of `n`.
pub open spec fn nat_decimal(n: nat) -> Seq<char>
    decreases n,
{
    if n < 10 {
        seq![digit_char(n as int)]
    } else {
        nat_decimal(n / 10) + seq![digit_char((n % 10) as int)]
    }
}

/// `n` in decimal, with a minus sign when negative.
pub open spec fn int_decimal(n: int) -> Seq<char> {
    if n < 0 {
        seq!['-'] + nat_decimal((-n) as nat)
    } else {
        nat_decimal(n as nat)
    }
}

pub fn digit_str(d: u64) -> (s: &'static str)
    requires
        d < 10,
    ensures
        s@ == seq![digit_char(d as int)],
{
    proof {
        reveal_strlit("0");
        reveal_strlit("1");
        reveal_strlit("2");
        reveal_strlit("3");
        reveal_strlit("4");
        reveal_strlit("5");
        reveal_strlit("6");
        reveal_strlit("7");
        reveal_strlit("8");
        reveal_strlit("9");
    }
    if d == 0 {
        "0"
    } else if d == 1 {
        "1"
    } else if d == 2 {
        "2"
    } else if d == 3 {
        "3"
    } else if d == 4 {
        "4"
    } else if d == 5 {
        "5"
    } else if d == 6 {
        "6"
    } else if d == 7 {
        "7"
    } else if d == 8 {
        "8"
    } else {
        "9"
    }
}

pub fn append_decimal(s: &mut String, n: u64)
    ensures
        final(s)@ == old(s)@ + nat_decimal(n as nat),
    decreases n,
{
    if n >= 10 {
        append_decimal(s, n / 10);
    }
    s.append(digit_str(n % 10));
    assert(old(s)@ + nat_decimal(n as nat) =~= old(s)@ + (if n >= 10 {
        nat_decimal((n / 10) as nat)
    } else {
        Seq::<char>::empty()
    }) + seq![digit_char((n % 10) as int)]);
}


/// `n` in decimal, with a minus sign when negative.
pub fn sunSignedToString(n: i64) -> (s: String)
    ensures
        s@ == int_decimal(n as int),
{
    let mut s = String::new();
    if n < 0 {
        proof {
            reveal_strlit("-");
        }
        s.append("-");
        let m: u64 = ((-(n + 1)) as u64) + 1;
        assert(m as int == -(n as int));
        append_decimal(&mut s, m);
        assert(s@ =~= int_decimal(n as int));
    } else {
        append_decimal(&mut s, n as u64);
        assert(s@ =~= int_decimal(n as int));
    }
    s
}

/// `file:line`, the location text of an error.
pub open spec fn file_and_line(file: Seq<char>, line: i32) -> Seq<char> {
    file + ":"@ + int_decimal(line as int)
}

/// The location text `file:line`.
pub fn sunCombineFileAndLine(line: i32, file: &str) -> (s: String)
    ensures
        s@ == file_and_line(file@, line),
{
    let mut s = String::new();
    s.append(file);
    s.append(":");
    let n = sunSignedToString(line as i64);
    s.append(n.as_str());
    proof {
        reveal_strlit(":");
    }
    assert(s@ =~= file_and_line(file@, line));
    s
}

} // verus!
