//! Cutting up a line of text: white space at its ends, and the first colon.

use vstd::prelude::*;

verus! {

/// Whether the character is white space: one of the characters with the
/// Unicode property `White_Space`.
pub open spec fn white_space(c: char) -> bool {
    let n = c as u32;
    ||| 0x09 <= n <= 0x0d
    ||| n == 0x20
    ||| n == 0x85
    ||| n == 0xa0
    ||| n == 0x1680
    ||| 0x2000 <= n <= 0x200a
    ||| n == 0x2028
    ||| n == 0x2029
    ||| n == 0x202f
    ||| n == 0x205f
    ||| n == 0x3000
}

/// The first position at or after `from` that holds no white space, or the
/// length of the text if there is none.
pub open spec fn skip_white_space(text: Seq<char>, from: int) -> int
    decreases text.len() - from,
{
    if 0 <= from < text.len() && white_space(text[from]) {
        skip_white_space(text, from + 1)
    } else {
        from
    }
}

/// The position after the last character before `to` that is no white
/// space, or `floor` if there is none from `floor` on.
pub open spec fn drop_white_space(text: Seq<char>, floor: int, to: int) -> int
    decreases to - floor,
{
    if floor < to <= text.len() && white_space(text[to - 1]) {
        drop_white_space(text, floor, to - 1)
    } else {
        to
    }
}

/// The text without the white space at its two ends.
pub open spec fn trimmed(text: Seq<char>) -> Seq<char> {
    let start = skip_white_space(text, 0);
    let end = drop_white_space(text, start, text.len() as int);
    text.subrange(start, end)
}

/// The position of the first colon at or after `from`, or the length of
/// the text if there is none.
pub open spec fn first_colon(text: Seq<char>, from: int) -> int
    decreases text.len() - from,
{
    if from < 0 || from >= text.len() {
        text.len() as int
    } else if text[from] == ':' {
        from
    } else {
        first_colon(text, from + 1)
    }
}

/// Whether the character is white space.
pub fn is_white_space(c: char) -> (yes: bool)
    ensures
        yes == white_space(c),
{
    let n: u32 = c as u32;
    (0x09 <= n && n <= 0x0d) || n == 0x20 || n == 0x85 || n == 0xa0 || n == 0x1680 || (0x2000 <= n
        && n <= 0x200a) || n == 0x2028 || n == 0x2029 || n == 0x202f || n == 0x205f || n
        == 0x3000
}

/// The text without the white space at its two ends.
pub fn trim(text: &str) -> (inner: &str)
    ensures
        inner@ == trimmed(text@),
{
    let len = text.unicode_len();
    let mut start: usize = 0;
    while start < len && is_white_space(text.get_char(start))
        invariant
            len == text@.len(),
            start <= len,
            skip_white_space(text@, start as int) == skip_white_space(text@, 0),
        decreases len - start,
    {
        start += 1;
    }
    let mut end: usize = len;
    while start < end && is_white_space(text.get_char(end - 1))
        invariant
            len == text@.len(),
            start <= end <= len,
            drop_white_space(text@, start as int, end as int) == drop_white_space(
                text@,
                start as int,
                len as int,
            ),
        decreases end - start,
    {
        end -= 1;
    }
    text.substring_char(start, end)
}

/// The text before the first colon and the text after it; `None` if the
/// text holds no colon.
pub fn split_at_colon(text: &str) -> (parts: Option<(&str, &str)>)
    ensures
        match parts {
            Some((before, after)) => {
                &&& first_colon(text@, 0) < text@.len()
                &&& before@ == text@.subrange(0, first_colon(text@, 0))
                &&& after@ == text@.subrange(first_colon(text@, 0) + 1, text@.len() as int)
            },
            None => first_colon(text@, 0) == text@.len(),
        },
{
    let len = text.unicode_len();
    let mut at: usize = 0;
    while at < len
        invariant
            len == text@.len(),
            at <= len,
            first_colon(text@, at as int) == first_colon(text@, 0),
        decreases len - at,
    {
        if text.get_char(at) == ':' {
            return Some((text.substring_char(0, at), text.substring_char(at + 1, len)));
        }
        at += 1;
    }
    None
}

/// The character that stands for a digit.
pub open spec fn digit_char(digit: nat) -> char {
    if digit == 0 {
        '0'
    } else if digit == 1 {
        '1'
    } else if digit == 2 {
        '2'
    } else if digit == 3 {
        '3'
    } else if digit == 4 {
        '4'
    } else if digit == 5 {
        '5'
    } else if digit == 6 {
        '6'
    } else if digit == 7 {
        '7'
    } else if digit == 8 {
        '8'
    } else {
        '9'
    }
}

/// The number in decimal digits, without leading zeros.
pub open spec fn decimal_text(n: nat) -> Seq<char>
    decreases n,
{
    if n < 10 {
        seq![digit_char(n)]
    } else {
        decimal_text(n / 10).push(digit_char(n % 10))
    }
}

/// The text of one digit.
fn digit_str(digit: u128) -> (text: &'static str)
    requires
        digit < 10,
    ensures
        text@ == seq![digit_char(digit as nat)],
{
    proof {
        reveal_strlit("0");
        reveal_strlit("1");
        reveal_strlit("2");
        reveal_strlit("3");
        reveal_strlit("4");
        reveal_strlit("5");
        reveal_strlit("6");
        reveal_strlit("7");
        reveal_strlit("8");
        reveal_strlit("9");
    }
    let text = if digit == 0 {
        "0"
    } else if digit == 1 {
        "1"
    } else if digit == 2 {
        "2"
    } else if digit == 3 {
        "3"
    } else if digit == 4 {
        "4"
    } else if digit == 5 {
        "5"
    } else if digit == 6 {
        "6"
    } else if digit == 7 {
        "7"
    } else if digit == 8 {
        "8"
    } else {
        "9"
    };
    assert(text@ =~= seq![digit_char(digit as nat)]);
    text
}

/// The number in decimal digits, without leading zeros.
pub fn decimal(n: u128) -> (text: String)
    ensures
        text@ == decimal_text(n as nat),
    decreases n,
{
    if n < 10 {
        String::from_str(digit_str(n))
    } else {
        let mut text = decimal(n / 10);
        text.append(digit_str(n % 10));
        assert(text@ =~= decimal_text(n as nat));
        text
    }
}

} // verus!
