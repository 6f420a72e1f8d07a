//! Numbers in text, and a few questions about text.

use vstd::prelude::*;

verus! {

/// The digit for a value below sixteen.
pub open spec fn digit(value: nat) -> char {
    if value == 0 {
        '0'
    } else if value == 1 {
        '1'
    } else if value == 2 {
        '2'
    } else if value == 3 {
        '3'
    } else if value == 4 {
        '4'
    } else if value == 5 {
        '5'
    } else if value == 6 {
        '6'
    } else if value == 7 {
        '7'
    } else if value == 8 {
        '8'
    } else if value == 9 {
        '9'
    } else if value == 10 {
        'a'
    } else if value == 11 {
        'b'
    } else if value == 12 {
        'c'
    } else if value == 13 {
        'd'
    } else if value == 14 {
        'e'
    } else {
        'f'
    }
}

/// The digits of `value` in base `base`, the most significant first, without
/// leading zeros.
pub open spec fn digits(value: nat, base: nat) -> Seq<char>
    decreases value,
{
    if base < 2 || value < base {
        seq![digit(value)]
    } else {
        proof {
            assert(value / base < value) by (nonlinear_arith)
                requires
                    value >= base,
                    base >= 2,
            ;
        }
        digits(value / base, base).push(digit(value % base))
    }
}

/// The digit for a value below sixteen.
fn digit_text(value: u64) -> (text: &'static str)
    requires
        value < 16,
    ensures
        text@ == seq![digit(value as nat)],
{
    proof {
        reveal_strlit("0");
        reveal_strlit("1");
        reveal_strlit("2");
        reveal_strlit("3");
        reveal_strlit("4");
        reveal_strlit("5");
        reveal_strlit("6");
        reveal_strlit("7");
        reveal_strlit("8");
        reveal_strlit("9");
        reveal_strlit("a");
        reveal_strlit("b");
        reveal_strlit("c");
        reveal_strlit("d");
        reveal_strlit("e");
        reveal_strlit("f");
    }
    match value {
        0 => "0",
        1 => "1",
        2 => "2",
        3 => "3",
        4 => "4",
        5 => "5",
        6 => "6",
        7 => "7",
        8 => "8",
        9 => "9",
        10 => "a",
        11 => "b",
        12 => "c",
        13 => "d",
        14 => "e",
        _ => "f",
    }
}

/// Appends the digits of `value` in base `base` to `text`.
pub fn push_number(text: &mut String, value: u64, base: u64)
    requires
        2 <= base <= 16,
    ensures
        final(text)@ == old(text)@ + digits(value as nat, base as nat),
    decreases value,
{
    if value < base {
        text.append(digit_text(value));
    } else {
        proof {
            assert(value / base < value) by (nonlinear_arith)
                requires
                    value >= base,
                    base >= 2,
            ;
        }
        push_number(text, value / base, base);
        let ghost before = text@;
        text.append(digit_text(value % base));
        proof {
            assert(text@ =~= old(text)@ + digits((value / base) as nat, base as nat).push(
                digit((value % base) as nat),
            ));
        }
    }
}

/// Whether `c` occurs in `text`.
pub fn contains_char(text: &str, c: char) -> (found: bool)
    ensures
        found == text@.contains(c),
{
    for current in iter: text.chars()
        invariant
            iter.seq() == text@,
            forall|i: int| 0 <= i < iter.index() ==> text@[i] != c,
    {
        if current == c {
            proof {
                assert(text@[iter.index() as int] == c);
            }
            return true;
        }
    }
    false
}

/// Whether `text` begins with `c`.
pub fn starts_with_char(text: &str, c: char) -> (starts: bool)
    ensures
        starts == (text@.len() > 0 && text@[0] == c),
{
    if text.is_empty() {
        false
    } else {
        text.get_char(0) == c
    }
}

/// Whether `c` has the Unicode property `White_Space`.
pub open spec fn white_space(c: char) -> bool {
    let code = c as u32;
    ||| 0x9 <= code <= 0xd
    ||| code == 0x20
    ||| code == 0x85
    ||| code == 0xa0
    ||| code == 0x1680
    ||| 0x2000 <= code <= 0x200a
    ||| code == 0x2028
    ||| code == 0x2029
    ||| code == 0x202f
    ||| code == 0x205f
    ||| code == 0x3000
}

/// Whether nothing is left of `text` when white space is trimmed from its ends:
/// all of it is white space.
pub open spec fn blank(text: Seq<char>) -> bool {
    forall|i: int| 0 <= i < text.len() ==> white_space(#[trigger] text[i])
}

/// Whether `c` has the Unicode property `White_Space`.
pub fn is_white_space(c: char) -> (yes: bool)
    ensures
        yes == white_space(c),
{
    let code: u32 = c as u32;
    (0x9 <= code && code <= 0xd) || code == 0x20 || code == 0x85 || code == 0xa0 || code == 0x1680
        || (0x2000 <= code && code <= 0x200a) || code == 0x2028 || code == 0x2029 || code == 0x202f
        || code == 0x205f || code == 0x3000
}

/// Whether nothing is left of `text` when white space is trimmed from its ends.
pub fn is_blank(text: &str) -> (yes: bool)
    ensures
        yes == blank(text@),
{
    for current in iter: text.chars()
        invariant
            iter.seq() == text@,
            forall|i: int| 0 <= i < iter.index() ==> white_space(#[trigger] text@[i]),
    {
        if !is_white_space(current) {
            proof {
                assert(!white_space(text@[iter.index() as int]));
            }
            return false;
        }
    }
    true
}

/// What a digit stands for.
pub open spec fn digit_value(c: char) -> int {
    if c as int <= 57 {
        c as int - 48
    } else {
        c as int - 87
    }
}

/// The number that a reader takes `text` for in base `base`.
pub open spec fn number_in(text: Seq<char>, base: int) -> int
    decreases text.len(),
{
    if text.len() == 0 {
        0
    } else {
        base * number_in(text.drop_last(), base) + digit_value(text.last())
    }
}

/// A number is read back from its digits. They are those of the base, `0` to `9` and then
/// `a` to `f`, and the first one is `0` only for zero.
pub proof fn law_digits_read_back(value: nat, base: nat)
    requires
        2 <= base <= 16,
    ensures
        number_in(digits(value, base), base as int) == value,
        digits(value, base).len() > 0,
        value > 0 ==> digits(value, base)[0] as int != 48,
        value == 0 ==> digits(value, base).len() == 1,
        forall|i: int|
            0 <= i < digits(value, base).len() ==> {
                let c = #[trigger] digits(value, base)[i] as int;
                (48 <= c <= 57 || 97 <= c <= 102) && 0 <= digit_value(digits(value, base)[i]) < base
            },
    decreases value,
{
    let text = digits(value, base);
    reveal_with_fuel(number_in, 2);
    if value < base {
        assert(text.drop_last() =~= Seq::<char>::empty());
    } else {
        assert(value / base < value && value / base > 0) by (nonlinear_arith)
            requires
                value >= base,
                base >= 2,
        ;
        assert(0 <= value % base < base) by (nonlinear_arith)
            requires
                base >= 2,
        ;
        law_digits_read_back(value / base, base);
        let front = digits(value / base, base);
        assert(text.drop_last() =~= front);
        assert(base * (value / base) + value % base == value) by (nonlinear_arith)
            requires
                base >= 2,
        ;
        assert forall|i: int| 0 <= i < text.len() implies {
            let c = #[trigger] text[i] as int;
            (48 <= c <= 57 || 97 <= c <= 102) && 0 <= digit_value(text[i]) < base
        } by {
            if i < front.len() {
                assert(text[i] == front[i]);
            }
        }
        assert(text[0] == front[0]);
    }
}

/// Text is blank when it is empty or all of it is space, tab, line ends and the like; one
/// visible character is enough for it not to be.
pub proof fn law_visible_text_is_not_blank(text: Seq<char>, at: int)
    ensures
        text.len() == 0 ==> blank(text),
        (0 <= at < text.len() && 0x21 <= text[at] as u32 <= 0x7e) ==> !blank(text),
        (forall|i: int|
            0 <= i < text.len() ==> (#[trigger] text[i] == ' ' || text[i] == '\t' || text[i]
                == '\n' || text[i] == '\r')) ==> blank(text),
        0 <= at < text.len() && blank(text) ==> ({
            let code = text[at] as u32;
            0x9 <= code <= 0xd || code == 0x20 || code == 0x85 || code == 0xa0 || code == 0x1680
                || 0x2000 <= code <= 0x200a || code == 0x2028 || code == 0x2029 || code == 0x202f
                || code == 0x205f || code == 0x3000
        }),
        (forall|i: int|
            0 <= i < text.len() ==> ({
                let code = #[trigger] text[i] as u32;
                0x9 <= code <= 0xd || code == 0x20 || code == 0x85 || code == 0xa0 || code == 0x1680
                    || 0x2000 <= code <= 0x200a || code == 0x2028 || code == 0x2029 || code
                    == 0x202f || code == 0x205f || code == 0x3000
            })) ==> blank(text),
{
    if 0 <= at < text.len() {
        assert(blank(text) ==> white_space(text[at]));
    }
}

} // verus!
