//! Characters and decimal numbers.

use vstd::prelude::*;
use vstd::string::StringExecFns;

verus! {

/// Whether `c` separates tokens: the characters with the Unicode property
/// `White_Space`.
pub open spec fn is_space(c: char) -> bool {
    let n = c as u32;
    ||| 0x09 <= n <= 0x0d
    ||| n == 0x20
    ||| n == 0x85
    ||| n == 0xa0
    ||| n == 0x1680
    ||| 0x2000 <= n <= 0x200a
    ||| n == 0x2028
    ||| n == 0x2029
    ||| n == 0x202f
    ||| n == 0x205f
    ||| n == 0x3000
}

/// Whether `c` is one of the digits `0` to `9`.
pub open spec fn is_digit(c: char) -> bool {
    '0' <= c <= '9'
}

/// The value of a digit.
pub open spec fn digit_value(c: char) -> nat
    recommends
        is_digit(c),
{
    (c as u32 - '0' as u32) as nat
}

/// Whether `s` is a decimal numeral: one digit or more, and nothing else.
pub open spec fn is_numeral(s: Seq<char>) -> bool {
    s.len() > 0 && forall|i: int| 0 <= i < s.len() ==> is_digit(#[trigger] s[i])
}

/// The number that a numeral denotes.
pub open spec fn numeral_value(s: Seq<char>) -> nat
    recommends
        is_numeral(s),
    decreases s.len(),
{
    if s.len() == 0 {
        0
    } else {
        numeral_value(s.drop_last()) * 10 + digit_value(s.last())
    }
}

/// What `s` reads as an unsigned number: a numeral, with or without a `+`
/// in front.
pub open spec fn unsigned(s: Seq<char>) -> Option<nat> {
    let body = if s.len() > 0 && s[0] == '+' {
        s.skip(1)
    } else {
        s
    };
    if is_numeral(body) {
        Some(numeral_value(body))
    } else {
        None
    }
}

/// What `s` reads as a signed number: a numeral, with or without a sign in
/// front.
pub open spec fn signed(s: Seq<char>) -> Option<int> {
    if s.len() > 0 && s[0] == '-' {
        if is_numeral(s.skip(1)) {
            Some(-(numeral_value(s.skip(1)) as int))
        } else {
            None
        }
    } else {
        match unsigned(s) {
            Some(n) => Some(n as int),
            None => None,
        }
    }
}

/// The 64-bit signed integer that `s` reads as, if it reads as one.
pub open spec fn literal(s: Seq<char>) -> Option<i64> {
    match signed(s) {
        Some(v) => if i64::MIN <= v <= i64::MAX {
            Some(v as i64)
        } else {
            None
        },
        None => None,
    }
}

/// The label identifier that `s` reads as, if it reads as one.
pub open spec fn identifier(s: Seq<char>) -> Option<usize> {
    match unsigned(s) {
        Some(n) => if n <= usize::MAX {
            Some(n as usize)
        } else {
            None
        },
        None => None,
    }
}

/// The digit for a value below ten.
pub open spec fn digit(d: nat) -> char
    recommends
        d < 10,
{
    if d == 0 {
        '0'
    } else if d == 1 {
        '1'
    } else if d == 2 {
        '2'
    } else if d == 3 {
        '3'
    } else if d == 4 {
        '4'
    } else if d == 5 {
        '5'
    } else if d == 6 {
        '6'
    } else if d == 7 {
        '7'
    } else if d == 8 {
        '8'
    } else {
        '9'
    }
}

/// The numeral for `n`, without leading zeros.
pub open spec fn numeral(n: nat) -> Seq<char>
    decreases n,
{
    if n < 10 {
        seq![digit(n)]
    } else {
        numeral(n / 10).push(digit(n % 10))
    }
}

/// The decimal form of `v`: its numeral, after a `-` if it is negative.
pub open spec fn decimal(v: int) -> Seq<char> {
    if v < 0 {
        seq!['-'] + numeral((-v) as nat)
    } else {
        numeral(v as nat)
    }
}

/// The decimal forms of `items`, each but the first after a comma and a
/// space.
pub open spec fn joined(items: Seq<int>) -> Seq<char>
    decreases items.len(),
{
    if items.len() == 0 {
        Seq::empty()
    } else if items.len() == 1 {
        decimal(items[0])
    } else {
        joined(items.drop_last()) + ", "@ + decimal(items.last())
    }
}

/// The items in square brackets, as in `[1, -2, 3]`.
pub open spec fn listing(items: Seq<int>) -> Seq<char> {
    "["@ + joined(items) + "]"@
}

pub fn is_whitespace(c: char) -> (r: bool)
    ensures
        r == is_space(c),
{
    let n: u32 = c as u32;
    (0x09 <= n && n <= 0x0d) || n == 0x20 || n == 0x85 || n == 0xa0 || n == 0x1680 || (0x2000 <= n
        && n <= 0x200a) || n == 0x2028 || n == 0x2029 || n == 0x202f || n == 0x205f || n == 0x3000
}

/// In a numeral, the value of a prefix is at most the value of the whole.
pub proof fn numeral_value_grows(s: Seq<char>, k: int)
    requires
        0 <= k <= s.len(),
        forall|i: int| 0 <= i < s.len() ==> is_digit(#[trigger] s[i]),
    ensures
        numeral_value(s.take(k)) <= numeral_value(s),
    decreases s.len(),
{
    if k == s.len() {
        assert(s.take(k) =~= s);
    } else {
        numeral_value_grows(s.drop_last(), k);
        assert(s.drop_last().take(k) =~= s.take(k));
    }
}

/// The digits are numerals of their own value.
pub proof fn digit_is_read_back(d: nat)
    requires
        d < 10,
    ensures
        is_digit(digit(d)),
        digit_value(digit(d)) == d,
        !is_space(digit(d)),
{
}

/// The numeral for `n` is a numeral, and its value is `n`.
pub proof fn numeral_is_read_back(n: nat)
    ensures
        is_numeral(numeral(n)),
        numeral_value(numeral(n)) == n,
        is_digit(numeral(n)[0]),
    decreases n,
{
    let s = numeral(n);
    if n < 10 {
        digit_is_read_back(n);
        assert(s.drop_last() =~= Seq::<char>::empty());
        assert(numeral_value(s.drop_last()) == 0);
        assert(s.last() == digit(n));
    } else {
        numeral_is_read_back(n / 10);
        digit_is_read_back(n % 10);
        assert(s.drop_last() =~= numeral(n / 10));
        assert(s.last() == digit(n % 10));
        assert(s[0] == numeral(n / 10)[0]);
    }
}

/// The decimal form of a 64-bit integer reads as that integer.
pub proof fn decimal_is_read_back(v: i64)
    ensures
        literal(decimal(v as int)) == Some(v),
{
    if v < 0 {
        numeral_is_read_back((-v) as nat);
        assert(decimal(v as int).skip(1) =~= numeral((-v) as nat));
    } else {
        numeral_is_read_back(v as nat);
    }
}

/// Reads the characters of `word` from index `from` up to `to` as a
/// numeral.
pub fn read_numeral(word: &Vec<char>, from: usize, to: usize) -> (r: Option<u64>)
    requires
        from <= to <= word.len(),
    ensures
        r == if is_numeral(word@.subrange(from as int, to as int)) && numeral_value(
            word@.subrange(from as int, to as int),
        ) <= u64::MAX {
            Some(numeral_value(word@.subrange(from as int, to as int)) as u64)
        } else {
            None
        },
{
    let ghost body = word@.subrange(from as int, to as int);
    if from == to {
        return None;
    }
    let mut value: u64 = 0;
    let mut i: usize = from;
    while i < to
        invariant
            from <= i <= to <= word.len(),
            body == word@.subrange(from as int, to as int),
            forall|j: int| 0 <= j < i - from ==> is_digit(#[trigger] body[j]),
            value == numeral_value(body.take(i - from)),
        decreases to - i,
    {
        let c: char = word[i];
        assert(c == body[i - from]);
        if !('0' <= c && c <= '9') {
            return None;
        }
        let digit: u64 = (c as u32 - '0' as u32) as u64;
        proof {
            let longer = body.take(i - from + 1);
            assert(longer.drop_last() =~= body.take(i - from));
            assert(longer.last() == c);
            if is_numeral(body) {
                numeral_value_grows(body, i - from + 1);
            }
        }
        value = match value.checked_mul(10) {
            Some(tens) => match tens.checked_add(digit) {
                Some(sum) => sum,
                None => {
                    return None;
                },
            },
            None => {
                return None;
            },
        };
        i += 1;
    }
    assert(body.take(to - from) =~= body);
    Some(value)
}

/// Reads the first `to` characters of `word` as a label identifier.
pub fn read_identifier(word: &Vec<char>, to: usize) -> (r: Option<usize>)
    requires
        to <= word.len(),
    ensures
        r == identifier(word@.take(to as int)),
{
    let from: usize = if to > 0 && word[0] == '+' {
        1
    } else {
        0
    };
    proof {
        let s = word@.take(to as int);
        if from == 1 {
            assert(s.skip(1) =~= word@.subrange(1, to as int));
        } else {
            assert(s =~= word@.subrange(0, to as int));
        }
    }
    match read_numeral(word, from, to) {
        Some(n) => if n <= usize::MAX as u64 {
            Some(n as usize)
        } else {
            None
        },
        None => None,
    }
}

/// Reads `word` as a 64-bit signed integer.
pub fn read_literal(word: &Vec<char>) -> (r: Option<i64>)
    ensures
        r == literal(word@),
{
    let to: usize = word.len();
    let negative: bool = to > 0 && word[0] == '-';
    let from: usize = if to > 0 && (word[0] == '-' || word[0] == '+') {
        1
    } else {
        0
    };
    proof {
        if from == 1 {
            assert(word@.skip(1) =~= word@.subrange(1, to as int));
        } else {
            assert(word@ =~= word@.subrange(0, to as int));
        }
    }
    match read_numeral(word, from, to) {
        Some(n) => if negative {
            if n < 0x8000_0000_0000_0000 {
                Some(-(n as i64))
            } else if n == 0x8000_0000_0000_0000 {
                Some(i64::MIN)
            } else {
                None
            }
        } else if n <= i64::MAX as u64 {
            Some(n as i64)
        } else {
            None
        },
        None => None,
    }
}

/// The text of one digit.
fn digit_text(d: u64) -> (text: &'static str)
    requires
        d < 10,
    ensures
        text@ == seq![digit(d as nat)],
{
    proof {
        reveal_strlit("0");
        reveal_strlit("1");
        reveal_strlit("2");
        reveal_strlit("3");
        reveal_strlit("4");
        reveal_strlit("5");
        reveal_strlit("6");
        reveal_strlit("7");
        reveal_strlit("8");
        reveal_strlit("9");
    }
    let text = if d == 0 {
        "0"
    } else if d == 1 {
        "1"
    } else if d == 2 {
        "2"
    } else if d == 3 {
        "3"
    } else if d == 4 {
        "4"
    } else if d == 5 {
        "5"
    } else if d == 6 {
        "6"
    } else if d == 7 {
        "7"
    } else if d == 8 {
        "8"
    } else {
        "9"
    };
    assert(text@ =~= seq![digit(d as nat)]);
    text
}

/// Appends the numeral for `n` to `text`.
pub fn write_numeral(text: &mut String, n: u64)
    ensures
        final(text)@ == old(text)@ + numeral(n as nat),
    decreases n,
{
    if n >= 10 {
        write_numeral(text, n / 10);
    }
    text.append(digit_text(n % 10));
    proof {
        if n >= 10 {
            assert(old(text)@ + numeral(n as nat / 10) + seq![digit(n as nat % 10)] =~= old(text)@
                + numeral(n as nat));
        }
    }
}

/// Appends the decimal form of `v` to `text`.
pub fn write_decimal(text: &mut String, v: i64)
    ensures
        final(text)@ == old(text)@ + decimal(v as int),
{
    if v < 0 {
        proof {
            reveal_strlit("-");
        }
        text.append("-");
        assert(text@ =~= old(text)@ + seq!['-']);
        write_numeral(text, (-(v as i128)) as u64);
        assert(text@ =~= old(text)@ + decimal(v as int));
    } else {
        write_numeral(text, v as u64);
    }
}

/// Appends the listing of `items` to `text`.
pub fn write_values(text: &mut String, items: &Vec<i64>)
    ensures
        final(text)@ == old(text)@ + listing(items@.map_values(|v: i64| v as int)),
{
    let ghost all = items@.map_values(|v: i64| v as int);
    text.append("[");
    let mut i: usize = 0;
    while i < items.len()
        invariant
            i <= items.len(),
            all == items@.map_values(|v: i64| v as int),
            text@ == old(text)@ + "["@ + joined(all.take(i as int)),
        decreases items.len() - i,
    {
        if i > 0 {
            text.append(", ");
        }
        write_decimal(text, items[i]);
        proof {
            assert(all.take(i + 1).drop_last() =~= all.take(i as int));
            assert(all.take(i + 1).last() == items[i as int] as int);
            assert(text@ =~= old(text)@ + "["@ + joined(all.take(i + 1)));
        }
        i += 1;
    }
    text.append("]");
    assert(all.take(i as int) =~= all);
    assert(text@ =~= old(text)@ + listing(all));
}

/// Appends the listing of `items` to `text`.
pub fn write_indices(text: &mut String, items: &Vec<usize>)
    ensures
        final(text)@ == old(text)@ + listing(items@.map_values(|v: usize| v as int)),
{
    let ghost all = items@.map_values(|v: usize| v as int);
    text.append("[");
    let mut i: usize = 0;
    while i < items.len()
        invariant
            i <= items.len(),
            all == items@.map_values(|v: usize| v as int),
            text@ == old(text)@ + "["@ + joined(all.take(i as int)),
        decreases items.len() - i,
    {
        if i > 0 {
            text.append(", ");
        }
        write_numeral(text, items[i] as u64);
        proof {
            assert(all.take(i + 1).drop_last() =~= all.take(i as int));
            assert(all.take(i + 1).last() == items[i as int] as int);
            assert(text@ =~= old(text)@ + "["@ + joined(all.take(i + 1)));
        }
        i += 1;
    }
    text.append("]");
    assert(all.take(i as int) =~= all);
    assert(text@ =~= old(text)@ + listing(all));
}

/// The decimal form of `v`.
pub fn render(v: i64) -> (text: String)
    ensures
        text@ == decimal(v as int),
{
    let mut text = String::new();
    write_decimal(&mut text, v);
    assert(text@ =~= decimal(v as int));
    text
}

} // verus!
