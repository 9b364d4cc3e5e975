//! Decimal and hexadecimal text of integers, as Rust's formatting machinery writes it.
use vstd::prelude::*;

verus! {

/// The character of the digit `d < 16`: `0`-`9`, then lowercase `a`-`f`.
pub open spec fn digit_char(d: nat) -> char {
    if d < 10 {
        (d + 48) as char
    } else {
        (d - 10 + 97) as char
    }
}

/// The digits of `x` in base `b` (2 to 16), most significant first, without leading zeros.
pub open spec fn digit_chars(x: nat, b: nat) -> Seq<char>
    decreases x,
{
    if x < b || b < 2 {
        seq![digit_char(x)]
    } else {
        proof {
            assert(x / b < x) by (nonlinear_arith)
                requires
                    x >= b,
                    b >= 2,
            ;
        }
        digit_chars(x / b, b) + seq![digit_char(x % b)]
    }
}

/// `x` in decimal.
pub open spec fn dec_chars(x: nat) -> Seq<char> {
    digit_chars(x, 10)
}

/// `x` in lowercase hexadecimal.
pub open spec fn hex_chars(x: nat) -> Seq<char> {
    digit_chars(x, 16)
}

/// `x` in decimal, preceded by `-` if it is negative.
pub open spec fn signed_dec_chars(x: int) -> Seq<char> {
    if x < 0 {
        seq!['-'] + dec_chars((-x) as nat)
    } else {
        dec_chars(x as nat)
    }
}

/// `s` preceded by as many `0`s as it takes to make it `width` characters long.
pub open spec fn zero_padded(s: Seq<char>, width: nat) -> Seq<char> {
    Seq::new((if s.len() < width { width - s.len() } else { 0 }) as nat, |_i: int| '0') + s
}

/// The value of the digit character `c`: `0`-`9` stand for 0 to 9, `a`-`f` for 10 to 15.
pub open spec fn digit_value(c: char) -> int {
    if '0' <= c <= '9' {
        c as int - '0' as int
    } else {
        c as int - 'a' as int + 10
    }
}

/// The number that the digits `s` stand for in base `b`, most significant digit first.
pub open spec fn digits_value(s: Seq<char>, b: nat) -> int
    decreases s.len(),
{
    if s.len() == 0 {
        0
    } else {
        digits_value(s.drop_last(), b) * b + digit_value(s.last())
    }
}

/// The value of the character of a digit is the digit.
proof fn lemma_digit_char_value(d: nat)
    requires
        d < 16,
    ensures
        digit_value(digit_char(d)) == d,
        '0' <= digit_char(d) <= '9' || 'a' <= digit_char(d) <= 'f',
        digit_char(d) == '0' <==> d == 0,
{
    if d < 10 {
        assert((d + 48) as char as int == d + 48);
    } else {
        assert((d - 10 + 97) as char as int == d - 10 + 97);
    }
}

/// Reading the digits of `x` in base `b` back gives `x`: every character is a digit of base `b`
/// (`0`-`9` or `a`-`f`), and there is no leading zero unless `x` is 0, which is the single digit
/// `0`.
pub proof fn lemma_digit_chars_read_back(x: nat, b: nat)
    requires
        2 <= b <= 16,
    ensures
        digits_value(digit_chars(x, b), b) == x,
        digit_chars(x, b).len() >= 1,
        forall|i: int|
            0 <= i < digit_chars(x, b).len() ==> ('0' <= #[trigger] digit_chars(x, b)[i] <= '9'
                || 'a' <= digit_chars(x, b)[i] <= 'f') && 0 <= digit_value(digit_chars(x, b)[i])
                < b,
        digit_chars(x, b)[0] == '0' <==> x == 0,
    decreases x,
{
    if x < b {
        let s = digit_chars(x, b);
        lemma_digit_char_value(x);
        assert(s.drop_last() =~= Seq::<char>::empty());
        assert(digits_value(s, b) == digits_value(s.drop_last(), b) * b + digit_value(s.last()));
        assert(digits_value(s.drop_last(), b) == 0);
    } else {
        let y = x / b;
        let d = x % b;
        assert(y < x && y >= 1 && x == y * b + d && 0 <= d < b) by (nonlinear_arith)
            requires
                x >= b,
                b >= 2,
                y == x / b,
                d == x % b,
        {
            assert(y * b <= x);
            assert(y * 2 <= y * b);
        }
        lemma_digit_chars_read_back(y, b);
        lemma_digit_char_value(d);
        let s = digit_chars(x, b);
        let t = digit_chars(y, b);
        assert(s =~= t + seq![digit_char(d)]);
        assert(s.drop_last() =~= t);
        assert(s.last() == digit_char(d));
        assert(digits_value(s, b) == digits_value(t, b) * b + digit_value(s.last()));
        assert(s[0] == t[0]);
        assert forall|i: int| 0 <= i < s.len() implies ('0' <= #[trigger] s[i] <= '9' || 'a'
            <= s[i] <= 'f') && 0 <= digit_value(s[i]) < b by {
            if i < t.len() {
                assert(s[i] == t[i]);
            }
        }
    }
}

/// Returns the text of the digit `d`, which must be smaller than 16.
fn digit_str(d: u64) -> (r: &'static str)
    requires
        d < 16,
    ensures
        r@ == seq![digit_char(d as nat)],
{
    match d {
        0 => { proof { reveal_strlit("0"); } "0" },
        1 => { proof { reveal_strlit("1"); } "1" },
        2 => { proof { reveal_strlit("2"); } "2" },
        3 => { proof { reveal_strlit("3"); } "3" },
        4 => { proof { reveal_strlit("4"); } "4" },
        5 => { proof { reveal_strlit("5"); } "5" },
        6 => { proof { reveal_strlit("6"); } "6" },
        7 => { proof { reveal_strlit("7"); } "7" },
        8 => { proof { reveal_strlit("8"); } "8" },
        9 => { proof { reveal_strlit("9"); } "9" },
        10 => { proof { reveal_strlit("a"); } "a" },
        11 => { proof { reveal_strlit("b"); } "b" },
        12 => { proof { reveal_strlit("c"); } "c" },
        13 => { proof { reveal_strlit("d"); } "d" },
        14 => { proof { reveal_strlit("e"); } "e" },
        _ => { proof { reveal_strlit("f"); } "f" },
    }
}

/// Formats `x` in base `b` (2 to 16), without leading zeros.
fn digits_string(x: u64, b: u64) -> (r: String)
    requires
        2 <= b <= 16,
    ensures
        r@ == digit_chars(x as nat, b as nat),
    decreases x,
{
    if x < b {
        digit_str(x).to_owned()
    } else {
        proof {
            assert(x / b < x) by (nonlinear_arith)
                requires
                    x >= b,
                    b >= 2,
            ;
        }
        let mut s = digits_string(x / b, b);
        s.append(digit_str(x % b));
        s
    }
}

/// `char::to_string`: its documentation states that the `String` holds exactly that character.
#[verifier::external_body]
pub fn char_to_string(c: char) -> (r: String)
    ensures
        r@ == seq![c],
{
    c.to_string()
}

/// Formats `x` in decimal, as `format!("{}", x)` does.
pub fn dec_string(x: u64) -> (r: String)
    ensures
        r@ == dec_chars(x as nat),
{
    digits_string(x, 10)
}

/// Formats `x` in lowercase hexadecimal, as `format!("{:x}", x)` does.
pub fn hex_string(x: u64) -> (r: String)
    ensures
        r@ == hex_chars(x as nat),
{
    digits_string(x, 16)
}

/// Formats `x` in decimal, as `format!("{}", x)` does.
pub fn signed_dec_string(x: i64) -> (r: String)
    ensures
        r@ == signed_dec_chars(x as int),
{
    if x < 0 {
        let m: u64 = if x == i64::MIN {
            9223372036854775808u64
        } else {
            (-x) as u64
        };
        let mut s = "-".to_owned();
        let d = dec_string(m);
        proof {
            reveal_strlit("-");
        }
        s.append(d.as_str());
        s
    } else {
        dec_string(x as u64)
    }
}

/// A number has at most as many digits as its value, or one digit if it is 0.
proof fn lemma_digit_count_bound(x: nat, b: nat)
    requires
        2 <= b <= 16,
    ensures
        digit_chars(x, b).len() <= if x == 0 {
            1
        } else {
            x
        },
    decreases x,
{
    if x >= b {
        let y = x / b;
        assert(1 <= y && y + 1 <= x) by (nonlinear_arith)
            requires
                x >= b,
                b >= 2,
                y == x / b,
        {
            assert(y * b <= x);
            assert(y * 2 <= y * b);
        }
        lemma_digit_count_bound(y, b);
    }
}

/// Returns the number of digits of `x` in base `b` (2 to 16).
fn digit_count(x: u64, b: u64) -> (r: u64)
    requires
        2 <= b <= 16,
    ensures
        r == digit_chars(x as nat, b as nat).len(),
    decreases x,
{
    proof {
        lemma_digit_count_bound(x as nat, b as nat);
    }
    if x < b {
        1
    } else {
        proof {
            lemma_digit_count_bound((x / b) as nat, b as nat);
            assert(x / b >= 1) by (nonlinear_arith)
                requires
                    x >= b,
                    b >= 2,
            ;
        }
        digit_count(x / b, b) + 1
    }
}

/// Formats `x` in lowercase hexadecimal with at least `width` digits, adding leading zeros,
/// as `format!("{:01$x}", x, width)` does.
pub fn hex_string_padded(x: u64, width: usize) -> (r: String)
    ensures
        r@ == zero_padded(hex_chars(x as nat), width as nat),
{
    let n = digit_count(x, 16);
    let zeros: usize = if n < width as u64 {
        width - n as usize
    } else {
        0
    };
    let mut r = "".to_owned();
    proof {
        reveal_strlit("");
        reveal_strlit("0");
    }
    let mut i: usize = 0;
    while i < zeros
        invariant
            0 <= i <= zeros,
            r@ =~= Seq::new(i as nat, |_j: int| '0'),
        decreases zeros - i,
    {
        proof {
            reveal_strlit("0");
        }
        r.append("0");
        i = i + 1;
        assert(r@ =~= Seq::new(i as nat, |_j: int| '0'));
    }
    let h = hex_string(x);
    r.append(h.as_str());
    r
}

} // verus!
