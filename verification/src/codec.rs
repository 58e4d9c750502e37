//! The string codec: every value travels to and from the backing store
//! as a UTF-8 string.  This module defines the decimal rendering and
//! parsing of integers, the [`Encodable`] / [`Decodable`] capability
//! traits, and their implementations for the scalar types the library
//! supports.

use vstd::prelude::*;

verus! {

/// Is `c` a decimal digit?
pub open spec fn is_digit(c: char) -> bool {
    48 <= c as u32 <= 57
}

/// The numeric value of a digit character; zero for anything else.
pub open spec fn digit_val(c: char) -> nat {
    if is_digit(c) {
        (c as u32 - 48) as nat
    } else {
        0
    }
}

/// Does `s` consist of decimal digits only?
pub open spec fn all_digits(s: Seq<char>) -> bool {
    forall|i: int| 0 <= i < s.len() ==> is_digit(#[trigger] s[i])
}

/// The number denoted by a digit string, most significant digit first.
pub open spec fn digits_val(s: Seq<char>) -> nat
    decreases s.len(),
{
    if s.len() == 0 {
        0
    } else {
        digits_val(s.drop_last()) * 10 + digit_val(s.last())
    }
}

/// The digit character for a value below ten.
pub open spec fn digit_char(d: nat) -> char {
    if d == 0 {
        '0'
    } else if d == 1 {
        '1'
    } else if d == 2 {
        '2'
    } else if d == 3 {
        '3'
    } else if d == 4 {
        '4'
    } else if d == 5 {
        '5'
    } else if d == 6 {
        '6'
    } else if d == 7 {
        '7'
    } else if d == 8 {
        '8'
    } else {
        '9'
    }
}

/// The canonical decimal rendering of a natural number: no sign, no
/// leading zeros (except for zero itself).
pub open spec fn dec_nat(n: nat) -> Seq<char>
    decreases n,
{
    if n < 10 {
        seq![digit_char(n)]
    } else {
        dec_nat(n / 10).push(digit_char(n % 10))
    }
}

/// The canonical decimal rendering of an integer: a leading minus sign
/// for negative values, then the rendering of the magnitude.
pub open spec fn dec_int(i: int) -> Seq<char> {
    if i < 0 {
        seq!['-'] + dec_nat((-i) as nat)
    } else {
        dec_nat(i as nat)
    }
}

/// The number denoted by a pure digit string, or nothing if the string
/// is empty or holds a non-digit.
pub open spec fn parse_digits(s: Seq<char>) -> Option<nat> {
    if s.len() > 0 && all_digits(s) {
        Some(digits_val(s))
    } else {
        None
    }
}

/// Parsing of an unsigned decimal: one optional leading plus sign, then
/// at least one digit.
pub open spec fn parse_unsigned(s: Seq<char>) -> Option<nat> {
    if s.len() > 0 && s[0] == '+' {
        parse_digits(s.subrange(1, s.len() as int))
    } else {
        parse_digits(s)
    }
}

/// Parsing of a signed decimal: one optional leading plus or minus
/// sign, then at least one digit.
pub open spec fn parse_signed(s: Seq<char>) -> Option<int> {
    if s.len() > 0 && s[0] == '-' {
        match parse_digits(s.subrange(1, s.len() as int)) {
            Some(n) => Some(-(n as int)),
            None => None,
        }
    } else {
        match parse_unsigned(s) {
            Some(n) => Some(n as int),
            None => None,
        }
    }
}

/// The canonical rendering of `n` consists of digits, denotes `n`
/// itself, and is never empty.
pub proof fn lemma_dec_nat(n: nat)
    ensures
        all_digits(dec_nat(n)),
        digits_val(dec_nat(n)) == n,
        dec_nat(n).len() >= 1,
    decreases n,
{
    if n < 10 {
        let s = dec_nat(n);
        assert(s =~= seq![digit_char(n)]);
        assert(s.drop_last() =~= Seq::<char>::empty());
        assert(digits_val(s.drop_last()) == 0);
        assert(s.last() == digit_char(n));
        assert(digit_val(digit_char(n)) == n);
        assert(digits_val(s) == 0 * 10 + digit_val(digit_char(n)));
    } else {
        lemma_dec_nat(n / 10);
        let s = dec_nat(n / 10);
        let c = digit_char(n % 10);
        assert(s.push(c).drop_last() =~= s);
        assert(s.push(c).last() == c);
        assert(digit_val(c) == n % 10);
        assert(digits_val(s.push(c)) == (n / 10) * 10 + n % 10);
        assert((n / 10) * 10 + n % 10 == n);
    }
}

/// Appending digits to a digit string never shrinks the value it
/// denotes.
pub proof fn lemma_digits_val_prefix(s: Seq<char>, i: int)
    requires
        0 <= i <= s.len(),
    ensures
        digits_val(s.subrange(0, i)) <= digits_val(s),
    decreases s.len() - i,
{
    if i == s.len() {
        assert(s.subrange(0, i) =~= s);
    } else {
        let t = s.subrange(0, i + 1);
        assert(t.drop_last() =~= s.subrange(0, i));
        assert(digits_val(t) == digits_val(s.subrange(0, i)) * 10 + digit_val(t.last()));
        lemma_digits_val_prefix(s, i + 1);
    }
}

/// The digit characters of a value below ten, as a static string.
fn digit_str(d: u64) -> (r: &'static str)
    requires
        d < 10,
    ensures
        r@ =~= seq![digit_char(d as nat)],
{
    let r: &'static str = if d == 0 {
        "0"
    } else if d == 1 {
        "1"
    } else if d == 2 {
        "2"
    } else if d == 3 {
        "3"
    } else if d == 4 {
        "4"
    } else if d == 5 {
        "5"
    } else if d == 6 {
        "6"
    } else if d == 7 {
        "7"
    } else if d == 8 {
        "8"
    } else {
        "9"
    };
    proof {
        reveal_strlit("0");
        reveal_strlit("1");
        reveal_strlit("2");
        reveal_strlit("3");
        reveal_strlit("4");
        reveal_strlit("5");
        reveal_strlit("6");
        reveal_strlit("7");
        reveal_strlit("8");
        reveal_strlit("9");
    }
    r
}

/// Render a natural number in decimal.
pub fn u64_to_string(n: u64) -> (r: String)
    ensures
        r@ == dec_nat(n as nat),
    decreases n,
{
    if n < 10 {
        digit_str(n).to_owned()
    } else {
        let mut s = u64_to_string(n / 10);
        s.append(digit_str(n % 10));
        proof {
            assert(dec_nat((n / 10) as nat).push(digit_char((n % 10) as nat)) =~= dec_nat(
                (n / 10) as nat,
            ) + seq![digit_char((n % 10) as nat)]);
        }
        s
    }
}

/// Render a signed integer in decimal.
pub fn i64_to_string(i: i64) -> (r: String)
    ensures
        r@ == dec_int(i as int),
{
    if i >= 0 {
        u64_to_string(i as u64)
    } else {
        let magnitude: u64 = if i == i64::MIN {
            9223372036854775808
        } else {
            (-i) as u64
        };
        let mut s = String::from_str("-");
        s.append(u64_to_string(magnitude).as_str());
        proof {
            reveal_strlit("-");
            assert(s@ =~= seq!['-'] + dec_nat((-(i as int)) as nat));
        }
        s
    }
}

/// Parse the digits of `s` from position `from` on, refusing values
/// above `max`.  The result is exactly what [`parse_digits`] gives on
/// that suffix, cut off at the bound.
fn parse_digits_bounded(s: &str, from: usize, max: u64) -> (r: Option<u64>)
    requires
        9 <= max,
        from <= s@.len(),
    ensures
        match r {
            Some(n) => parse_digits(s@.subrange(from as int, s@.len() as int)) == Some(
                n as nat,
            ) && n <= max,
            None => match parse_digits(s@.subrange(from as int, s@.len() as int)) {
                Some(n) => n > max,
                None => true,
            },
        },
{
    let ghost t = s@.subrange(from as int, s@.len() as int);
    let n_chars = s.unicode_len();
    if from == n_chars {
        assert(t.len() == 0);
        return None;
    }
    let mut acc: u64 = 0;
    let mut i: usize = from;
    while i < n_chars
        invariant
            9 <= max,
            from <= i <= n_chars,
            n_chars == s@.len(),
            t == s@.subrange(from as int, s@.len() as int),
            all_digits(t.subrange(0, i - from)),
            digits_val(t.subrange(0, i - from)) == acc,
            acc <= max,
        decreases n_chars - i,
    {
        let c = s.get_char(i);
        let u = c as u32;
        if u < 48 || u > 57 {
            proof {
                assert(t[i - from] == s@[i as int]);
                assert(!is_digit(t[i - from]));
            }
            return None;
        }
        let d = (u - 48) as u64;
        proof {
            assert(t.subrange(0, i + 1 - from).drop_last() =~= t.subrange(0, i - from));
            assert(t.subrange(0, i + 1 - from).last() == t[i - from]);
            assert(t[i - from] == s@[i as int]);
            assert(is_digit(t[i - from]) && digit_val(t[i - from]) == d);
        }
        if acc > (max - d) / 10 {
            proof {
                let p = t.subrange(0, i + 1 - from);
                assert(digits_val(p) == acc * 10 + d);
                assert(acc * 10 + d > max) by (nonlinear_arith)
                    requires
                        acc > (max - d) / 10,
                        d <= 9,
                        d <= max,
                ;
                lemma_digits_val_prefix(t, i + 1 - from);
            }
            return None;
        }
        proof {
            assert(acc * 10 + d <= max) by (nonlinear_arith)
                requires
                    acc <= (max - d) / 10,
                    d <= 9,
                    d <= max,
            ;
        }
        acc = acc * 10 + d;
        i = i + 1;
    }
    proof {
        assert(t.subrange(0, i - from) =~= t);
    }
    Some(acc)
}

/// The capability of a type to be rendered as a wire string.
pub trait Encodable {
    /// The wire string of the value.
    spec fn enc(&self) -> Seq<char>;

    /// Render the value as its wire string.
    fn encode(&self) -> (r: String)
        ensures
            r@ == self.enc(),
    ;
}

/// The capability of a type to be parsed back from a wire string.
pub trait Decodable: Sized {
    /// Does the wire string parse as a value of this type?
    spec fn dec_ok(s: Seq<char>) -> bool;

    /// Is `v` the value that the wire string `s` parses to?
    spec fn dec_rel(s: Seq<char>, v: Self) -> bool;

    /// Parse a wire string; `None` exactly when it does not parse.
    fn decode(s: &str) -> (r: Option<Self>)
        ensures
            match r {
                Some(v) => Self::dec_ok(s@) && Self::dec_rel(s@, v),
                None => !Self::dec_ok(s@),
            },
    ;
}

/// A type that can make the round trip through the wire string.
pub trait Codec: Encodable + Decodable {
    /// The law of the codec: a value's wire string always parses, and
    /// whatever it parses to renders as the same wire string again.
    proof fn lemma_round_trip(&self)
        ensures
            Self::dec_ok(self.enc()),
            forall|w: Self| Self::dec_rel(self.enc(), w) ==> #[trigger] w.enc() == self.enc(),
    ;
}

impl Encodable for u8 {
    open spec fn enc(&self) -> Seq<char> {
        dec_nat(*self as nat)
    }

    fn encode(&self) -> (r: String) {
        u64_to_string(*self as u64)
    }
}

impl Decodable for u8 {
    open spec fn dec_ok(s: Seq<char>) -> bool {
        match parse_unsigned(s) {
            Some(n) => n <= u8::MAX,
            None => false,
        }
    }

    open spec fn dec_rel(s: Seq<char>, v: Self) -> bool {
        parse_unsigned(s) == Some(v as nat)
    }

    fn decode(s: &str) -> (r: Option<Self>) {
        let n_chars = s.unicode_len();
        let from: usize = if n_chars > 0 && s.get_char(0) == '+' {
            1
        } else {
            0
        };
        proof {
            assert(s@.subrange(0, s@.len() as int) =~= s@);
        }
        match parse_digits_bounded(s, from, 255) {
            Some(n) => Some(n as u8),
            None => None,
        }
    }
}

impl Codec for u8 {
    proof fn lemma_round_trip(&self) {
        lemma_dec_nat(*self as nat);
        assert(is_digit(self.enc()[0]));
    }
}

impl Encodable for u16 {
    open spec fn enc(&self) -> Seq<char> {
        dec_nat(*self as nat)
    }

    fn encode(&self) -> (r: String) {
        u64_to_string(*self as u64)
    }
}

impl Decodable for u16 {
    open spec fn dec_ok(s: Seq<char>) -> bool {
        match parse_unsigned(s) {
            Some(n) => n <= u16::MAX,
            None => false,
        }
    }

    open spec fn dec_rel(s: Seq<char>, v: Self) -> bool {
        parse_unsigned(s) == Some(v as nat)
    }

    fn decode(s: &str) -> (r: Option<Self>) {
        let n_chars = s.unicode_len();
        let from: usize = if n_chars > 0 && s.get_char(0) == '+' {
            1
        } else {
            0
        };
        proof {
            assert(s@.subrange(0, s@.len() as int) =~= s@);
        }
        match parse_digits_bounded(s, from, 65535) {
            Some(n) => Some(n as u16),
            None => None,
        }
    }
}

impl Codec for u16 {
    proof fn lemma_round_trip(&self) {
        lemma_dec_nat(*self as nat);
        assert(is_digit(self.enc()[0]));
    }
}

impl Encodable for u32 {
    open spec fn enc(&self) -> Seq<char> {
        dec_nat(*self as nat)
    }

    fn encode(&self) -> (r: String) {
        u64_to_string(*self as u64)
    }
}

impl Decodable for u32 {
    open spec fn dec_ok(s: Seq<char>) -> bool {
        match parse_unsigned(s) {
            Some(n) => n <= u32::MAX,
            None => false,
        }
    }

    open spec fn dec_rel(s: Seq<char>, v: Self) -> bool {
        parse_unsigned(s) == Some(v as nat)
    }

    fn decode(s: &str) -> (r: Option<Self>) {
        let n_chars = s.unicode_len();
        let from: usize = if n_chars > 0 && s.get_char(0) == '+' {
            1
        } else {
            0
        };
        proof {
            assert(s@.subrange(0, s@.len() as int) =~= s@);
        }
        match parse_digits_bounded(s, from, 4294967295) {
            Some(n) => Some(n as u32),
            None => None,
        }
    }
}

impl Codec for u32 {
    proof fn lemma_round_trip(&self) {
        lemma_dec_nat(*self as nat);
        assert(is_digit(self.enc()[0]));
    }
}

impl Encodable for u64 {
    open spec fn enc(&self) -> Seq<char> {
        dec_nat(*self as nat)
    }

    fn encode(&self) -> (r: String) {
        u64_to_string(*self)
    }
}

impl Decodable for u64 {
    open spec fn dec_ok(s: Seq<char>) -> bool {
        match parse_unsigned(s) {
            Some(n) => n <= u64::MAX,
            None => false,
        }
    }

    open spec fn dec_rel(s: Seq<char>, v: Self) -> bool {
        parse_unsigned(s) == Some(v as nat)
    }

    fn decode(s: &str) -> (r: Option<Self>) {
        let n_chars = s.unicode_len();
        let from: usize = if n_chars > 0 && s.get_char(0) == '+' {
            1
        } else {
            0
        };
        proof {
            assert(s@.subrange(0, s@.len() as int) =~= s@);
        }
        match parse_digits_bounded(s, from, 18446744073709551615) {
            Some(n) => Some(n),
            None => None,
        }
    }
}

impl Codec for u64 {
    proof fn lemma_round_trip(&self) {
        lemma_dec_nat(*self as nat);
        assert(is_digit(self.enc()[0]));
    }
}

impl Encodable for i32 {
    open spec fn enc(&self) -> Seq<char> {
        dec_int(*self as int)
    }

    fn encode(&self) -> (r: String) {
        i64_to_string(*self as i64)
    }
}

impl Decodable for i32 {
    open spec fn dec_ok(s: Seq<char>) -> bool {
        match parse_signed(s) {
            Some(v) => i32::MIN <= v <= i32::MAX,
            None => false,
        }
    }

    open spec fn dec_rel(s: Seq<char>, v: Self) -> bool {
        parse_signed(s) == Some(v as int)
    }

    fn decode(s: &str) -> (r: Option<Self>) {
        let n_chars = s.unicode_len();
        if n_chars == 0 {
            return None;
        }
        let c0 = s.get_char(0);
        if c0 == '-' {
            match parse_digits_bounded(s, 1, 2147483648) {
                Some(n) => {
                    if n == 2147483648 {
                        Some(i32::MIN)
                    } else {
                        Some(-(n as i32))
                    }
                },
                None => None,
            }
        } else {
            let from: usize = if c0 == '+' {
                1
            } else {
                0
            };
            proof {
                assert(s@.subrange(0, s@.len() as int) =~= s@);
            }
            match parse_digits_bounded(s, from, 2147483647) {
                Some(n) => Some(n as i32),
                None => None,
            }
        }
    }
}

impl Codec for i32 {
    proof fn lemma_round_trip(&self) {
        let i = *self as int;
        if i >= 0 {
            lemma_dec_nat(i as nat);
            assert(is_digit(self.enc()[0]));
        } else {
            lemma_dec_nat((-i) as nat);
            assert(self.enc()[0] == '-');
            assert(self.enc().subrange(1, self.enc().len() as int) =~= dec_nat((-i) as nat));
        }
    }
}

impl Encodable for i64 {
    open spec fn enc(&self) -> Seq<char> {
        dec_int(*self as int)
    }

    fn encode(&self) -> (r: String) {
        i64_to_string(*self)
    }
}

impl Decodable for i64 {
    open spec fn dec_ok(s: Seq<char>) -> bool {
        match parse_signed(s) {
            Some(v) => i64::MIN <= v <= i64::MAX,
            None => false,
        }
    }

    open spec fn dec_rel(s: Seq<char>, v: Self) -> bool {
        parse_signed(s) == Some(v as int)
    }

    fn decode(s: &str) -> (r: Option<Self>) {
        let n_chars = s.unicode_len();
        if n_chars == 0 {
            return None;
        }
        let c0 = s.get_char(0);
        if c0 == '-' {
            match parse_digits_bounded(s, 1, 9223372036854775808) {
                Some(n) => {
                    if n == 9223372036854775808 {
                        Some(i64::MIN)
                    } else {
                        Some(-(n as i64))
                    }
                },
                None => None,
            }
        } else {
            let from: usize = if c0 == '+' {
                1
            } else {
                0
            };
            proof {
                assert(s@.subrange(0, s@.len() as int) =~= s@);
            }
            match parse_digits_bounded(s, from, 9223372036854775807) {
                Some(n) => Some(n as i64),
                None => None,
            }
        }
    }
}

impl Codec for i64 {
    proof fn lemma_round_trip(&self) {
        let i = *self as int;
        if i >= 0 {
            lemma_dec_nat(i as nat);
            assert(is_digit(self.enc()[0]));
        } else {
            lemma_dec_nat((-i) as nat);
            assert(self.enc()[0] == '-');
            assert(self.enc().subrange(1, self.enc().len() as int) =~= dec_nat((-i) as nat));
        }
    }
}

impl Encodable for String {
    open spec fn enc(&self) -> Seq<char> {
        self@
    }

    fn encode(&self) -> (r: String) {
        self.clone()
    }
}

impl Decodable for String {
    open spec fn dec_ok(s: Seq<char>) -> bool {
        true
    }

    open spec fn dec_rel(s: Seq<char>, v: Self) -> bool {
        v@ == s
    }

    fn decode(s: &str) -> (r: Option<Self>) {
        Some(s.to_owned())
    }
}

impl Codec for String {
    proof fn lemma_round_trip(&self) {
    }
}

impl Encodable for bool {
    open spec fn enc(&self) -> Seq<char> {
        if *self {
            "true"@
        } else {
            "false"@
        }
    }

    fn encode(&self) -> (r: String) {
        if *self {
            String::from_str("true")
        } else {
            String::from_str("false")
        }
    }
}

impl Decodable for bool {
    open spec fn dec_ok(s: Seq<char>) -> bool {
        s == "true"@ || s == "false"@
    }

    open spec fn dec_rel(s: Seq<char>, v: Self) -> bool {
        if v {
            s == "true"@
        } else {
            s == "false"@
        }
    }

    fn decode(s: &str) -> (r: Option<Self>) {
        let text = s.to_owned();
        if text == String::from_str("true") {
            Some(true)
        } else if text == String::from_str("false") {
            Some(false)
        } else {
            None
        }
    }
}

impl Codec for bool {
    proof fn lemma_round_trip(&self) {
        reveal_strlit("true");
        reveal_strlit("false");
        assert("true"@.len() != "false"@.len());
    }
}

} // verus!
