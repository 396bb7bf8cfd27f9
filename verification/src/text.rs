//! Small text helpers shared by the modules that build names and paths.

use vstd::prelude::*;
use vstd::string::{StrSliceExecFns, StringExecFns};

verus! {

/// Whether a directory path needs a separator before a name is put behind
/// it: not where it is empty, and not where it ends in one.
pub open spec fn spec_needs_separator(dir: Seq<char>) -> bool {
    dir.len() > 0 && dir.last() != '/'
}

/// The path of a name inside a directory: the name behind the directory
/// path, with a separator between the two where the directory path needs
/// one. Inside the empty path the name stands alone, as a relative path. A
/// name never takes the place of the directory path, whatever it begins
/// with: what is put inside a directory stays inside it.
pub open spec fn spec_join_path(dir: Seq<char>, name: Seq<char>) -> Seq<char> {
    if spec_needs_separator(dir) {
        dir + seq!['/'] + name
    } else {
        dir + name
    }
}

/// The path of `name` inside the directory `dir`.
pub fn join_path(dir: &str, name: &str) -> (res: String)
    ensures
        res@ == spec_join_path(dir@, name@),
{
    let mut path = String::from_str(dir);
    let n = dir.unicode_len();
    if n > 0 && dir.get_char(n - 1) != '/' {
        proof {
            reveal_strlit("/");
        }
        path.append("/");
    }
    path.append(name);
    path
}

/// Whether `text` begins with `prefix`.
pub open spec fn spec_starts_with(text: Seq<char>, prefix: Seq<char>) -> bool {
    prefix.len() <= text.len() && text.take(prefix.len() as int) == prefix
}

/// `text` without any leading repetitions of `prefix`.
pub open spec fn spec_trim_start(text: Seq<char>, prefix: Seq<char>) -> Seq<char>
    decreases text.len(),
{
    if prefix.len() > 0 && spec_starts_with(text, prefix) {
        spec_trim_start(text.skip(prefix.len() as int), prefix)
    } else {
        text
    }
}

pub open spec fn spec_is_digit(c: char) -> bool {
    '0' <= c && c <= '9'
}

/// The value of a decimal digit.
pub open spec fn spec_digit_value(c: char) -> nat {
    (c as nat - '0' as nat) as nat
}

pub open spec fn spec_all_digits(text: Seq<char>) -> bool {
    forall|i: int| 0 <= i < text.len() ==> spec_is_digit(#[trigger] text[i])
}

/// The number that a run of decimal digits writes.
pub open spec fn spec_decimal(digits: Seq<char>) -> nat
    decreases digits.len(),
{
    if digits.len() == 0 {
        0
    } else {
        spec_decimal(digits.drop_last()) * 10 + spec_digit_value(digits.last())
    }
}

/// The digits of a text that may begin with a plus sign.
pub open spec fn spec_unsigned(text: Seq<char>) -> Seq<char> {
    if text.len() > 0 && text[0] == '+' {
        text.skip(1)
    } else {
        text
    }
}

/// The number that a text writes: an optional plus sign, then one decimal
/// digit or more, whose value a `usize` can hold. No other text writes one.
pub open spec fn spec_parse_number(text: Seq<char>) -> Option<nat> {
    let digits = spec_unsigned(text);
    if digits.len() > 0 && spec_all_digits(digits) && spec_decimal(digits) <= usize::MAX {
        Some(spec_decimal(digits))
    } else {
        None
    }
}

/// The character of a decimal digit.
pub open spec fn spec_digit_char(d: nat) -> char {
    if d == 0 {
        '0'
    } else if d == 1 {
        '1'
    } else if d == 2 {
        '2'
    } else if d == 3 {
        '3'
    } else if d == 4 {
        '4'
    } else if d == 5 {
        '5'
    } else if d == 6 {
        '6'
    } else if d == 7 {
        '7'
    } else if d == 8 {
        '8'
    } else {
        '9'
    }
}

/// A number in decimal, without leading zeros.
pub open spec fn spec_digits(n: nat) -> Seq<char>
    decreases n,
{
    if n < 10 {
        seq![spec_digit_char(n)]
    } else {
        spec_digits(n / 10).push(spec_digit_char(n % 10))
    }
}

/// A number in decimal, with zeros in front up to a width of four.
pub open spec fn spec_zero_padded(n: nat) -> Seq<char> {
    let digits = spec_digits(n);
    if digits.len() >= 4 {
        digits
    } else {
        Seq::new((4 - digits.len()) as nat, |i: int| '0') + digits
    }
}

/// A run of digits writes at least what any of its beginnings writes.
pub proof fn lemma_decimal_grows(digits: Seq<char>, k: int)
    requires
        0 <= k <= digits.len(),
    ensures
        spec_decimal(digits.take(k)) <= spec_decimal(digits),
    decreases digits.len(),
{
    if k == digits.len() {
        assert(digits.take(k) =~= digits);
    } else {
        lemma_decimal_grows(digits.drop_last(), k);
        assert(digits.drop_last().take(k) =~= digits.take(k));
        assert(spec_decimal(digits.drop_last()) <= spec_decimal(digits.drop_last()) * 10) by (nonlinear_arith);
    }
}

/// `text` without any leading repetitions of `"No. "`.
pub fn trim_number_prefix(text: &str) -> (res: &str)
    ensures
        res@ == spec_trim_start(text@, "No. "@),
{
    let n = text.unicode_len();
    let mut i: usize = 0;
    proof {
        reveal_strlit("No. ");
        assert(text@.skip(0) =~= text@);
    }
    while n - i >= 4 && text.get_char(i) == 'N' && text.get_char(i + 1) == 'o' && text.get_char(
        i + 2,
    ) == '.' && text.get_char(i + 3) == ' '
        invariant
            n == text@.len(),
            i <= n,
            "No. "@ == seq!['N', 'o', '.', ' '],
            spec_trim_start(text@, "No. "@) == spec_trim_start(text@.skip(i as int), "No. "@),
        decreases n - i,
    {
        proof {
            let rest = text@.skip(i as int);
            assert(rest.take(4) =~= seq!['N', 'o', '.', ' ']);
            assert(rest.skip(4) =~= text@.skip(i + 4));
        }
        i += 4;
    }
    text.substring_char(i, n)
}

/// The number that a text writes, if it writes one.
pub fn parse_number(text: &str) -> (res: Option<usize>)
    ensures
        match res {
            Some(n) => spec_parse_number(text@) == Some(n as nat),
            None => spec_parse_number(text@) is None,
        },
{
    let n = text.unicode_len();
    let start: usize = if n > 0 && text.get_char(0) == '+' {
        1
    } else {
        0
    };
    if start == n {
        return None;
    }
    let ghost digits = spec_unsigned(text@);
    let mut value: usize = 0;
    let mut i: usize = start;
    while i < n
        invariant
            n == text@.len(),
            start <= i <= n,
            start <= 1,
            digits == spec_unsigned(text@),
            digits.len() == n - start,
            forall|k: int| 0 <= k < digits.len() ==> digits[k] == text@[k + start],
            spec_all_digits(digits.take(i - start)),
            value == spec_decimal(digits.take(i - start)),
        decreases n - i,
    {
        let c = text.get_char(i);
        if !(c >= '0' && c <= '9') {
            proof {
                assert(!spec_is_digit(digits[i - start]));
            }
            return None;
        }
        let d: usize = (c as u32 - '0' as u32) as usize;
        proof {
            let next = digits.take(i - start + 1);
            assert(next.drop_last() =~= digits.take(i - start));
            lemma_decimal_grows(digits, i - start + 1);
            assert forall|k: int| 0 <= k < next.len() implies spec_is_digit(#[trigger] next[k]) by {}
        }
        let tens = match value.checked_mul(10) {
            Some(t) => t,
            None => {
                return None;
            },
        };
        value = match tens.checked_add(d) {
            Some(v) => v,
            None => {
                return None;
            },
        };
        i += 1;
    }
    proof {
        assert(digits.take(n - start) =~= digits);
    }
    Some(value)
}

fn digit_text(d: usize) -> (res: &'static str)
    requires
        d < 10,
    ensures
        res@ == seq![spec_digit_char(d as nat)],
{
    proof {
        reveal_strlit("0");
        reveal_strlit("1");
        reveal_strlit("2");
        reveal_strlit("3");
        reveal_strlit("4");
        reveal_strlit("5");
        reveal_strlit("6");
        reveal_strlit("7");
        reveal_strlit("8");
        reveal_strlit("9");
    }
    if d == 0 {
        "0"
    } else if d == 1 {
        "1"
    } else if d == 2 {
        "2"
    } else if d == 3 {
        "3"
    } else if d == 4 {
        "4"
    } else if d == 5 {
        "5"
    } else if d == 6 {
        "6"
    } else if d == 7 {
        "7"
    } else if d == 8 {
        "8"
    } else {
        "9"
    }
}

/// A number in decimal, without leading zeros.
pub fn digits(n: usize) -> (res: String)
    ensures
        res@ == spec_digits(n as nat),
    decreases n,
{
    if n < 10 {
        String::from_str(digit_text(n))
    } else {
        let mut out = digits(n / 10);
        out.append(digit_text(n % 10));
        out
    }
}

/// A number in decimal, with zeros in front up to a width of four.
pub fn zero_padded(n: usize) -> (res: String)
    ensures
        res@ == spec_zero_padded(n as nat),
{
    let text = digits(n);
    let len = text.as_str().unicode_len();
    let mut out = String::new();
    let mut k: usize = len;
    proof {
        reveal_strlit("0");
    }
    while k < 4
        invariant
            len <= k,
            len < 4 ==> k <= 4,
            len >= 4 ==> k == len,
            "0"@.len() == 1,
            "0"@[0] == '0',
            out@ =~= Seq::new((k - len) as nat, |i: int| '0'),
        decreases 4 - k,
    {
        out.append("0");
        k += 1;
    }
    out.append(text.as_str());
    out
}

} // verus!
