//! The text forms of integers and booleans, as they travel on the wire.

use vstd::prelude::*;

verus! {

/// `String::push` appends one character.
pub assume_specification[ std::string::String::push ](s: &mut std::string::String, ch: char)
    ensures
        final(s)@ == old(s)@.push(ch),
;

/// `c` is one of `0` to `9`.
pub open spec fn is_digit(c: char) -> bool {
    '0' <= c <= '9'
}

/// The number that the digit `c` stands for.
pub open spec fn digit_value(c: char) -> int {
    c as int - 48
}

/// The digit that stands for `d`, for `d` below ten.
pub open spec fn digit_char(d: int) -> char {
    (d + 48) as u8 as char
}

/// Every character of `s` is a digit.
pub open spec fn all_digits(s: Seq<char>) -> bool {
    forall|i: int| 0 <= i < s.len() ==> is_digit(#[trigger] s[i])
}

/// The number that a run of digits stands for, read in base ten.
pub open spec fn digits_value(s: Seq<char>) -> nat
    decreases s.len(),
{
    if s.len() == 0 {
        0
    } else {
        (digits_value(s.drop_last()) * 10 + digit_value(s.last())) as nat
    }
}

/// The digits of `n` in base ten, without leading zeros.
pub open spec fn nat_text(n: nat) -> Seq<char>
    decreases n,
{
    if n < 10 {
        seq![digit_char(n as int)]
    } else {
        nat_text(n / 10).push(digit_char((n % 10) as int))
    }
}

/// The decimal text of `i`: a minus sign for a negative number, then its digits.
pub open spec fn int_text(i: int) -> Seq<char> {
    if i < 0 {
        seq!['-'] + nat_text((-i) as nat)
    } else {
        nat_text(i as nat)
    }
}

/// `s` begins with a plus or a minus sign.
pub open spec fn has_sign(s: Seq<char>) -> bool {
    s.len() > 0 && (s[0] == '-' || s[0] == '+')
}

/// The number that a decimal text stands for: an optional sign followed by one
/// or more digits and nothing else.
pub open spec fn int_of_text(s: Seq<char>) -> Option<int> {
    let body = if has_sign(s) { s.skip(1) } else { s };
    if body.len() == 0 || !all_digits(body) {
        None
    } else if has_sign(s) && s[0] == '-' {
        Some(-(digits_value(body) as int))
    } else {
        Some(digits_value(body) as int)
    }
}

/// The 32-bit number that a decimal text stands for, if it stands for one.
pub open spec fn i32_of_text(s: Seq<char>) -> Option<i32> {
    match int_of_text(s) {
        Some(v) => if i32::MIN <= v <= i32::MAX {
            Some(v as i32)
        } else {
            None
        },
        None => None,
    }
}

/// The text of a boolean: `true` or `false`.
pub open spec fn bool_text(b: bool) -> Seq<char> {
    if b {
        seq!['t', 'r', 'u', 'e']
    } else {
        seq!['f', 'a', 'l', 's', 'e']
    }
}

/// The boolean that a text stands for: only `true` and `false` stand for one.
pub open spec fn bool_of_text(s: Seq<char>) -> Option<bool> {
    if s == bool_text(true) {
        Some(true)
    } else if s == bool_text(false) {
        Some(false)
    } else {
        None
    }
}

/// A run of digits read up to `i` is worth ten times the run read up to `i - 1`,
/// plus the digit at `i - 1`.
pub proof fn lemma_digits_value_step(s: Seq<char>, i: int)
    requires
        0 < i <= s.len(),
    ensures
        is_digit(s[i - 1]) ==> digits_value(s.take(i)) == digits_value(s.take(i - 1)) * 10
            + digit_value(s[i - 1]),
{
    assert(s.take(i).drop_last() =~= s.take(i - 1));
    assert(s.take(i).last() == s[i - 1]);
}

/// Reading more digits never gives a smaller number.
pub proof fn lemma_digits_value_grows(s: Seq<char>, i: int, j: int)
    requires
        all_digits(s),
        0 <= i <= j <= s.len(),
    ensures
        digits_value(s.take(i)) <= digits_value(s.take(j)),
    decreases j - i,
{
    if i < j {
        lemma_digits_value_grows(s, i, j - 1);
        lemma_digits_value_step(s, j);
        assert(is_digit(s[j - 1]));
    }
}

/// The digits of a number are digits, at least one of them, and stand for it.
pub proof fn lemma_nat_text_value(n: nat)
    ensures
        nat_text(n).len() >= 1,
        all_digits(nat_text(n)),
        digits_value(nat_text(n)) == n,
    decreases n,
{
    if n < 10 {
        let s = nat_text(n);
        assert(s.drop_last() =~= Seq::<char>::empty());
        assert(digits_value(s.drop_last()) == 0);
        assert(s.last() == digit_char(n as int));
    } else {
        lemma_nat_text_value(n / 10);
        let s = nat_text(n);
        assert(s.drop_last() =~= nat_text(n / 10));
        assert(s.last() == digit_char((n % 10) as int));
        assert forall|i: int| 0 <= i < s.len() implies is_digit(#[trigger] s[i]) by {
            if i < s.len() - 1 {
                assert(s[i] == nat_text(n / 10)[i]);
            }
        }
    }
}

/// The text of a number is read back as that number.
pub proof fn lemma_int_text_round_trip(i: int)
    ensures
        int_of_text(int_text(i)) == Some(i),
{
    if i < 0 {
        let m = (-i) as nat;
        lemma_nat_text_value(m);
        let s = int_text(i);
        assert(s[0] == '-');
        assert(s.skip(1) =~= nat_text(m));
    } else {
        lemma_nat_text_value(i as nat);
        let s = int_text(i);
        assert(is_digit(s[0]));
    }
}

/// The text of a 32-bit number is read back as that number.
pub proof fn lemma_i32_text_round_trip(i: i32)
    ensures
        i32_of_text(int_text(i as int)) == Some(i),
{
    lemma_int_text_round_trip(i as int);
}

/// The text of a boolean is read back as that boolean.
pub proof fn lemma_bool_text_round_trip(b: bool)
    ensures
        bool_of_text(bool_text(b)) == Some(b),
{
    assert(bool_text(true).len() != bool_text(false).len());
}

/// No colon stands in the text of a number.
pub proof fn lemma_int_text_has_no_colon(i: int)
    ensures
        !int_text(i).contains(':'),
{
    let s = int_text(i);
    if i < 0 {
        lemma_nat_text_value((-i) as nat);
        let t = nat_text((-i) as nat);
        assert forall|k: int| 0 <= k < s.len() implies s[k] != ':' by {
            if k > 0 {
                assert(s[k] == t[k - 1]);
                assert(is_digit(t[k - 1]));
            }
        }
    } else {
        lemma_nat_text_value(i as nat);
        assert forall|k: int| 0 <= k < s.len() implies s[k] != ':' by {
            assert(is_digit(s[k]));
        }
    }
}

/// No colon stands in the text of a boolean.
pub proof fn lemma_bool_text_has_no_colon(b: bool)
    ensures
        !bool_text(b).contains(':'),
{
}

/// The characters of `s`, in order.
pub fn chars_of(s: &str) -> (v: Vec<char>)
    ensures
        v@ == s@,
{
    let mut v: Vec<char> = Vec::new();
    for c in it: s.chars()
        invariant
            it.seq() == s@,
            v@ == s@.take(it.index() as int),
    {
        v.push(c);
        proof {
            let k = it.index() as int;
            assert(s@.take(k + 1) =~= s@.take(k).push(s@[k]));
        }
    }
    proof {
        assert(s@.take(s@.len() as int) =~= s@);
    }
    v
}

/// The string made of the characters of `v` from `from` up to `to`.
pub(crate) fn string_of(v: &Vec<char>, from: usize, to: usize) -> (s: String)
    requires
        from <= to <= v.len(),
    ensures
        s@ == v@.subrange(from as int, to as int),
{
    let mut s = String::new();
    let mut i: usize = from;
    while i < to
        invariant
            from <= i <= to <= v.len(),
            s@ == v@.subrange(from as int, i as int),
        decreases to - i,
    {
        s.push(v[i]);
        proof {
            assert(v@.subrange(from as int, i + 1) =~= v@.subrange(from as int, i as int).push(
                v@[i as int],
            ));
        }
        i = i + 1;
    }
    s
}

/// The digit that stands for `d`.
fn char_of_digit(d: u8) -> (c: char)
    requires
        d < 10,
    ensures
        c == digit_char(d as int),
{
    (d + 48) as char
}

/// Appends the digits of `n` to `out`.
fn push_nat(out: &mut String, n: u32)
    ensures
        final(out)@ == old(out)@ + nat_text(n as nat),
    decreases n,
{
    if n >= 10 {
        push_nat(out, n / 10);
    }
    out.push(char_of_digit((n % 10) as u8));
    proof {
        if n < 10 {
            assert(old(out)@.push(digit_char(n as int)) =~= old(out)@ + nat_text(n as nat));
        } else {
            assert((old(out)@ + nat_text((n / 10) as nat)).push(digit_char((n % 10) as int))
                =~= old(out)@ + nat_text(n as nat));
        }
    }
}

/// The decimal text of `i`.
pub fn render_i32(i: i32) -> (s: String)
    ensures
        s@ == int_text(i as int),
{
    let mut s = String::new();
    if i < 0 {
        s.push('-');
        let m: i64 = -(i as i64);
        push_nat(&mut s, m as u32);
    } else {
        push_nat(&mut s, i as u32);
    }
    proof {
        assert(Seq::<char>::empty().push('-') =~= seq!['-']);
        assert(Seq::<char>::empty() + nat_text(i as nat) =~= nat_text(i as nat));
    }
    s
}

/// The text of `b`.
pub fn render_bool(b: bool) -> (s: String)
    ensures
        s@ == bool_text(b),
{
    let mut s = String::new();
    if b {
        s.push('t');
        s.push('r');
        s.push('u');
        s.push('e');
    } else {
        s.push('f');
        s.push('a');
        s.push('l');
        s.push('s');
        s.push('e');
    }
    proof {
        assert(s@ =~= bool_text(b));
    }
    s
}

/// Reads a decimal 32-bit number: an optional sign, then one or more digits.
/// Anything else, and a number that does not fit, gives `None`.
#[verifier::loop_isolation(false)]
pub fn parse_i32(s: &str) -> (r: Option<i32>)
    ensures
        r == i32_of_text(s@),
{
    let v = chars_of(s);
    let n = v.len();
    if n == 0 {
        return None;
    }
    let negative = v[0] == '-';
    let start: usize = if v[0] == '-' || v[0] == '+' { 1 } else { 0 };
    if start == n {
        return None;
    }
    let ghost body = v@.skip(start as int);
    proof {
        assert(v@.skip(0) =~= v@);
    }
    let mut acc: i64 = 0;
    let mut i: usize = start;
    while i < n
        invariant
            start <= i <= n,
            n == v.len(),
            body == v@.skip(start as int),
            all_digits(body.take(i - start)),
            acc == digits_value(body.take(i - start)),
            0 <= acc <= 0x8000_0000,
        decreases n - i,
    {
        let c = v[i];
        if !('0' <= c && c <= '9') {
            proof {
                assert(body[i - start] == c);
            }
            return None;
        }
        let d: i64 = (c as u32 - 48) as i64;
        proof {
            let k = i - start + 1;
            lemma_digits_value_step(body, k);
            assert(body[k - 1] == c);
            assert forall|j: int| 0 <= j < body.take(k).len() implies is_digit(
                #[trigger] body.take(k)[j],
            ) by {
                if j < k - 1 {
                    assert(body.take(k)[j] == body.take(k - 1)[j]);
                }
            }
        }
        acc = acc * 10 + d;
        if acc > 0x8000_0000 {
            proof {
                if all_digits(body) {
                    lemma_digits_value_grows(body, i - start + 1, body.len() as int);
                    assert(body.take(body.len() as int) =~= body);
                }
            }
            return None;
        }
        i = i + 1;
    }
    proof {
        assert(body.take(body.len() as int) =~= body);
    }
    if negative {
        Some((-acc) as i32)
    } else if acc <= 0x7fff_ffff {
        Some(acc as i32)
    } else {
        None
    }
}

/// Reads a boolean: `true` or `false`, and nothing else.
pub fn parse_bool(s: &str) -> (r: Option<bool>)
    ensures
        r == bool_of_text(s@),
{
    let v = chars_of(s);
    if v.len() == 4 && v[0] == 't' && v[1] == 'r' && v[2] == 'u' && v[3] == 'e' {
        proof {
            assert(v@ =~= bool_text(true));
        }
        Some(true)
    } else if v.len() == 5 && v[0] == 'f' && v[1] == 'a' && v[2] == 'l' && v[3] == 's' && v[4]
        == 'e' {
        proof {
            assert(v@ =~= bool_text(false));
        }
        Some(false)
    } else {
        proof {
            if v@ == bool_text(true) {
                assert(v@.len() == 4);
            }
            if v@ == bool_text(false) {
                assert(v@.len() == 5);
            }
        }
        None
    }
}

} // verus!
