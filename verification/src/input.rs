//! Reading a move from a line of text: blanks around it are ignored, and
//! what is left has to be a decimal number, with or without a plus sign.

use vstd::prelude::*;
use vstd::string::StrSliceExecFns;

verus! {

/// The characters that count as blank: the white space of Unicode.
pub open spec fn is_blank(c: char) -> bool {
    let code = c as u32;
    ||| 0x09 <= code <= 0x0D
    ||| code == 0x20
    ||| code == 0x85
    ||| code == 0xA0
    ||| code == 0x1680
    ||| 0x2000 <= code <= 0x200A
    ||| code == 0x2028
    ||| code == 0x2029
    ||| code == 0x202F
    ||| code == 0x205F
    ||| code == 0x3000
}

/// The text without the blanks at its start.
pub open spec fn trim_start(text: Seq<char>) -> Seq<char>
    decreases text.len(),
{
    if text.len() > 0 && is_blank(text.first()) {
        trim_start(text.drop_first())
    } else {
        text
    }
}

/// The text without the blanks at its end.
pub open spec fn trim_end(text: Seq<char>) -> Seq<char>
    decreases text.len(),
{
    if text.len() > 0 && is_blank(text.last()) {
        trim_end(text.drop_last())
    } else {
        text
    }
}

/// The text without the blanks at either end.
pub open spec fn trim(text: Seq<char>) -> Seq<char> {
    trim_end(trim_start(text))
}

/// The value of a decimal digit; `None` for any other character.
pub open spec fn digit(c: char) -> Option<nat> {
    if '0' <= c <= '9' {
        Some((c as u32 - '0' as u32) as nat)
    } else {
        None
    }
}

/// The number that a run of decimal digits writes; `None` if the text is
/// empty or holds anything but digits.
pub open spec fn number(text: Seq<char>) -> Option<nat>
    decreases text.len(),
{
    if text.len() == 0 {
        None
    } else if text.len() == 1 {
        digit(text.last())
    } else {
        match (number(text.drop_last()), digit(text.last())) {
            (Some(high), Some(low)) => Some(10 * high + low),
            _ => None,
        }
    }
}

/// The number that the text writes: digits, with at most one plus sign
/// before them.
pub open spec fn unsigned(text: Seq<char>) -> Option<nat> {
    if text.len() > 0 && text.first() == '+' {
        number(text.drop_first())
    } else {
        number(text)
    }
}

/// The move that a line of input asks for: the number it writes once the
/// blanks around it are gone, if it writes one that fits the machine word.
pub open spec fn requested_move(line: Seq<char>) -> Option<usize> {
    match unsigned(trim(line)) {
        Some(n) if n <= usize::MAX => Some(n as usize),
        _ => None,
    }
}

/// Whether `c` is a blank.
pub fn blank(c: char) -> (yes: bool)
    ensures
        yes == is_blank(c),
{
    let code: u32 = c as u32;
    (0x09 <= code && code <= 0x0D) || code == 0x20 || code == 0x85 || code == 0xA0 || code
        == 0x1680 || (0x2000 <= code && code <= 0x200A) || code == 0x2028 || code == 0x2029
        || code == 0x202F || code == 0x205F || code == 0x3000
}

/// The value of `c` as a decimal digit.
pub fn digit_value(c: char) -> (value: Option<usize>)
    ensures
        match value {
            Some(v) => digit(c) == Some(v as nat),
            None => digit(c) is None,
        },
{
    let code: u32 = c as u32;
    if 0x30 <= code && code <= 0x39 {
        Some((code - 0x30) as usize)
    } else {
        None
    }
}

/// Trimming at the start removes the blanks up to the first character that
/// is none.
pub proof fn lemma_trim_start(text: Seq<char>, k: int)
    requires
        0 <= k <= text.len(),
        forall|i: int| 0 <= i < k ==> is_blank(text[i]),
        k == text.len() || !is_blank(text[k]),
    ensures
        trim_start(text) == text.subrange(k, text.len() as int),
    decreases k,
{
    if k == 0 {
        assert(text.subrange(0, text.len() as int) =~= text);
    } else {
        let rest = text.drop_first();
        lemma_trim_start(rest, k - 1);
        assert(rest.subrange(k - 1, rest.len() as int) =~= text.subrange(k, text.len() as int));
    }
}

/// Trimming at the end removes the blanks after the last character that is
/// none.
pub proof fn lemma_trim_end(text: Seq<char>, k: int)
    requires
        0 <= k <= text.len(),
        forall|i: int| k <= i < text.len() ==> is_blank(text[i]),
        k == 0 || !is_blank(text[k - 1]),
    ensures
        trim_end(text) == text.subrange(0, k),
    decreases text.len() - k,
{
    if k == text.len() {
        assert(text.subrange(0, k) =~= text);
    } else {
        let rest = text.drop_last();
        lemma_trim_end(rest, k);
        assert(rest.subrange(0, k) =~= text.subrange(0, k));
    }
}

/// A run of digits writes a number no smaller than any of its beginnings
/// does, and no number at all if one of its beginnings writes none.
pub proof fn lemma_number_prefix(text: Seq<char>, k: int)
    requires
        1 <= k <= text.len(),
    ensures
        number(text.take(k)) is None ==> number(text) is None,
        number(text) is Some ==> number(text.take(k)) is Some && number(text.take(k))->0
            <= number(text)->0,
    decreases text.len() - k,
{
    if k == text.len() {
        assert(text.take(k) =~= text);
    } else {
        let front = text.drop_last();
        lemma_number_prefix(front, k);
        assert(front.take(k) =~= text.take(k));
    }
}

/// The move that `line` asks for, if it asks for one.
pub fn parse_move(line: &str) -> (space: Option<usize>)
    ensures
        space == requested_move(line@),
{
    let len: usize = line.unicode_len();
    let mut start: usize = 0;
    while start < len && blank(line.get_char(start))
        invariant
            start <= len == line@.len(),
            forall|i: int| 0 <= i < start ==> is_blank(line@[i]),
        decreases len - start,
    {
        start += 1;
    }
    let mut end: usize = len;
    while end > start && blank(line.get_char(end - 1))
        invariant
            start <= end <= len == line@.len(),
            forall|i: int| end <= i < len ==> is_blank(line@[i]),
        decreases end,
    {
        end -= 1;
    }
    let ghost kept = line@.subrange(start as int, end as int);
    proof {
        let tail = line@.subrange(start as int, len as int);
        lemma_trim_start(line@, start as int);
        lemma_trim_end(tail, end - start);
        assert(tail.subrange(0, end - start) =~= kept);
        assert(trim(line@) == kept);
    }
    let mut at: usize = start;
    if at < end && line.get_char(at) == '+' {
        at += 1;
    }
    let ghost digits = line@.subrange(at as int, end as int);
    proof {
        if at > start {
            assert(kept.drop_first() =~= digits);
        }
        assert(unsigned(kept) == number(digits));
    }
    if at == end {
        return None;
    }
    let first: usize = at;
    let mut value: usize = 0;
    while at < end
        invariant
            first <= at <= end <= len == line@.len(),
            first < end,
            digits == line@.subrange(first as int, end as int),
            unsigned(trim(line@)) == number(digits),
            at == first ==> value == 0,
            at > first ==> number(digits.take(at - first)) == Some(value as nat),
        decreases end - at,
    {
        let ghost seen = digits.take(at - first);
        let ghost next = digits.take(at - first + 1);
        proof {
            assert(next.drop_last() =~= seen);
            assert(next.last() == line@[at as int]);
            lemma_number_prefix(digits, at - first + 1);
        }
        let low = match digit_value(line.get_char(at)) {
            Some(low) => low,
            None => {
                return None;
            },
        };
        let high = match value.checked_mul(10) {
            Some(high) => high,
            None => {
                return None;
            },
        };
        value = match high.checked_add(low) {
            Some(sum) => sum,
            None => {
                return None;
            },
        };
        at += 1;
    }
    proof {
        assert(digits.take(end - first) =~= digits);
    }
    Some(value)
}

} // verus!
