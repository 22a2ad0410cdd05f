//! Strings as sequences of characters: comparison, search and cutting, and the two questions
//! that only the standard library's tables and number parser answer.
use vstd::prelude::*;
use vstd::string::*;
use vstd::utf8::*;

verus! {

/// Whether two strings hold the same characters.
pub fn same_text(a: &str, b: &str) -> (res: bool)
    ensures
        res == (a@ == b@),
{
    a.to_owned() == b.to_owned()
}

/// The characters of a string, in order.
fn characters(s: &str) -> (res: Vec<char>)
    ensures
        res@ == s@,
{
    let mut res: Vec<char> = Vec::new();
    for c in it: s.chars()
        invariant
            it.seq() == s@,
            res@ == it.seq().take(it.index()),
    {
        res.push(c);
    }
    res
}

/// Where `c` stands first in `s`, counted in characters.
pub fn first_position(s: &str, c: char) -> (res: Option<usize>)
    ensures
        match res {
            Some(i) => s@.index_of_first(c) == Some(i as int),
            None => s@.index_of_first(c) is None,
        },
{
    let chars = characters(s);
    proof {
        s@.index_of_first_ensures(c);
    }
    let mut i: usize = 0;
    while i < chars.len()
        invariant
            i <= chars.len(),
            chars@ == s@,
            forall|j: int| 0 <= j < i ==> s@[j] != c,
        decreases chars.len() - i,
    {
        if chars[i] == c {
            proof {
                s@.index_of_first_ensures(c);
                assert(s@.contains(s@[i as int]));
            }
            return Some(i);
        }
        i += 1;
    }
    None
}

/// Where `c` stands last in `s`, counted in characters.
pub fn last_position(s: &str, c: char) -> (res: Option<usize>)
    ensures
        match res {
            Some(i) => s@.index_of_last(c) == Some(i as int),
            None => s@.index_of_last(c) is None,
        },
{
    let chars = characters(s);
    proof {
        s@.index_of_last_ensures(c);
    }
    let mut i: usize = chars.len();
    while i > 0
        invariant
            i <= chars.len(),
            chars@ == s@,
            forall|j: int| i <= j < s@.len() ==> s@[j] != c,
        decreases i,
    {
        i -= 1;
        if chars[i] == c {
            proof {
                s@.index_of_last_ensures(c);
                assert(s@.contains(s@[i as int]));
            }
            return Some(i);
        }
    }
    None
}

/// The characters whose encoding stands at the byte offsets from `start` to `end`.
pub open spec fn slice(text: Seq<char>, start: int, end: int) -> Seq<char> {
    decode_utf8(encode_utf8(text).subrange(start, end))
}

/// Whether the byte offset `at` lies between two characters of `text`, or at one of its ends.
pub open spec fn is_offset(text: Seq<char>, at: int) -> bool {
    0 <= at <= encode_utf8(text).len() && is_char_boundary(encode_utf8(text), at)
}

/// The part of a string between two byte offsets.
pub fn slice_text(text: &str, start: usize, end: usize) -> (res: &str)
    requires
        start <= end,
        is_offset(text@, start as int),
        is_offset(text@, end as int),
    ensures
        res@ == slice(text@, start as int, end as int),
{
    let ghost bytes = text.spec_bytes();
    proof {
        encode_utf8_valid_utf8(text@);
        valid_utf8_split(bytes, end as int);
    }
    let front = text.split_at(end).0;
    proof {
        let front_bytes = bytes.subrange(0, end as int);
        encode_utf8_valid_utf8(front@);
        if start < end {
            assert(front_bytes[start as int] == bytes[start as int]);
            is_char_boundary_iff_not_is_continuation_byte(bytes, start as int);
            is_char_boundary_iff_not_is_continuation_byte(front_bytes, start as int);
        } else {
            is_char_boundary_start_end_of_seq(front_bytes);
        }
    }
    let res = front.split_at(start).1;
    proof {
        assert(bytes.subrange(0, end as int).subrange(start as int, end as int) =~= bytes.subrange(
            start as int,
            end as int,
        ));
        encode_utf8_decode_utf8(res@);
    }
    res
}

/// The part of a string from a byte offset to its end.
pub fn rest_of_text(text: &str, start: usize) -> (res: &str)
    requires
        is_offset(text@, start as int),
    ensures
        res@ == slice(text@, start as int, encode_utf8(text@).len() as int),
{
    let res = text.split_at(start).1;
    proof {
        encode_utf8_decode_utf8(res@);
    }
    res
}

/// The beginning of a text is an offset of it.
pub proof fn start_is_offset(text: Seq<char>)
    ensures
        is_offset(text, 0),
{
    encode_utf8_valid_utf8(text);
    is_char_boundary_start_end_of_seq(encode_utf8(text));
}

/// The whole of a text is the slice from its first byte to its last.
pub proof fn slice_of_everything(text: Seq<char>)
    ensures
        slice(text, 0, encode_utf8(text).len() as int) == text,
{
    assert(encode_utf8(text).subrange(0, encode_utf8(text).len() as int) =~= encode_utf8(text));
    encode_utf8_decode_utf8(text);
}

/// A slice between two offsets is encoded as just the bytes between them.
pub proof fn slice_is_the_bytes_between(text: Seq<char>, start: int, end: int)
    requires
        start <= end,
        is_offset(text, start),
        is_offset(text, end),
    ensures
        encode_utf8(slice(text, start, end)) == encode_utf8(text).subrange(start, end),
{
    let bytes = encode_utf8(text);
    encode_utf8_valid_utf8(text);
    valid_utf8_split(bytes, end);
    let front = bytes.subrange(0, end);
    if start < end {
        assert(front[start] == bytes[start]);
        is_char_boundary_iff_not_is_continuation_byte(bytes, start);
        is_char_boundary_iff_not_is_continuation_byte(front, start);
    } else {
        is_char_boundary_start_end_of_seq(front);
    }
    valid_utf8_split(front, start);
    assert(front.subrange(start, end) =~= bytes.subrange(start, end));
    decode_utf8_encode_utf8(bytes.subrange(start, end));
}

/// The value of one decimal digit.
pub open spec fn digit_value(c: char) -> nat {
    (c as int - '0' as int) as nat
}

/// Whether `c` is one of `0` to `9`.
pub open spec fn is_digit(c: char) -> bool {
    '0' <= c && c <= '9'
}

/// Whether `s` holds digits and nothing else.
pub open spec fn all_digits(s: Seq<char>) -> bool {
    forall|i: int| 0 <= i < s.len() ==> is_digit(#[trigger] s[i])
}

/// The number that a run of digits writes in base ten.
pub open spec fn decimal_value(s: Seq<char>) -> nat
    decreases s.len(),
{
    if s.len() == 0 {
        0
    } else {
        decimal_value(s.drop_last()) * 10 + digit_value(s.last())
    }
}

/// The digits of a number: an optional plus sign in front of them is left out.
pub open spec fn without_plus(s: Seq<char>) -> Seq<char> {
    if s.len() > 0 && s[0] == '+' {
        s.skip(1)
    } else {
        s
    }
}

/// The byte that a string writes in base ten: an optional plus sign, then one or more digits
/// whose value is at most 255.
pub open spec fn byte_value(s: Seq<char>) -> Option<u8> {
    let digits = without_plus(s);
    if digits.len() > 0 && all_digits(digits) && decimal_value(digits) <= 255 {
        Some(decimal_value(digits) as u8)
    } else {
        None
    }
}

/// The words in which the standard library says why `s` is no `u8`.
pub uninterp spec fn byte_error_text(s: Seq<char>) -> Seq<char>;

/// Calls `str::parse::<u8>`. Trusted: it accepts an optional `+` followed by one or more decimal
/// digits whose value fits in a `u8`, and gives that value. Any other string is refused, and the
/// error's own words, a function of the string, come back.
#[verifier::external_body]
pub(crate) fn parse_byte(s: &str) -> (res: Result<u8, String>)
    ensures
        match res {
            Ok(value) => byte_value(s@) == Some(value),
            Err(text) => byte_value(s@) is None && text@ == byte_error_text(s@),
        },
{
    s.parse::<u8>().map_err(|e| e.to_string())
}

/// Whether a character outside ASCII is in one of Unicode's number categories.
pub uninterp spec fn is_numeric_beyond_ascii(c: char) -> bool;

/// Whether a character is numeric. Among the ASCII characters these are the ten digits.
pub open spec fn is_numeric(c: char) -> bool {
    if (c as int) < 128 {
        is_digit(c)
    } else {
        is_numeric_beyond_ascii(c)
    }
}

/// Calls `char::is_numeric`. Trusted: among the ASCII characters the answer is yes for the ten
/// digits alone. For the others it is what Unicode's general categories say, a function of the
/// character.
#[verifier::external_body]
pub(crate) fn char_is_numeric(c: char) -> (res: bool)
    ensures
        (c as int) < 128 ==> res == is_digit(c),
        (c as int) >= 128 ==> res == is_numeric_beyond_ascii(c),
{
    c.is_numeric()
}

/// The digits of a byte in base ten, with no leading zero.
pub open spec fn digits_of(value: u8) -> Seq<char> {
    let ones = ('0' as int + value % 10) as char;
    let tens = ('0' as int + (value / 10) % 10) as char;
    let hundreds = ('0' as int + value / 100) as char;
    if value < 10 {
        seq![ones]
    } else if value < 100 {
        seq![tens, ones]
    } else {
        seq![hundreds, tens, ones]
    }
}

/// Writing a byte in base ten and reading it back gives the byte.
pub proof fn byte_written_then_read(value: u8)
    ensures
        byte_value(digits_of(value)) == Some(value),
        all_digits(digits_of(value)),
        digits_of(value).len() > 0,
{
    let d = digits_of(value);
    reveal_with_fuel(decimal_value, 4);
    if value < 10 {
        assert(d.drop_last() =~= Seq::<char>::empty());
    } else if value < 100 {
        assert(d.drop_last() =~= seq![d[0]]);
        assert(d.drop_last().drop_last() =~= Seq::<char>::empty());
    } else {
        assert(d.drop_last() =~= seq![d[0], d[1]]);
        assert(d.drop_last().drop_last() =~= seq![d[0]]);
        assert(d.drop_last().drop_last().drop_last() =~= Seq::<char>::empty());
    }
}

proof fn leading_zero_adds_nothing(digits: Seq<char>)
    ensures
        decimal_value(seq!['0'] + digits) == decimal_value(digits),
    decreases digits.len(),
{
    let s = seq!['0'] + digits;
    if digits.len() == 0 {
        assert(s.drop_last() =~= Seq::<char>::empty());
        reveal_with_fuel(decimal_value, 2);
    } else {
        leading_zero_adds_nothing(digits.drop_last());
        assert(s.drop_last() =~= seq!['0'] + digits.drop_last());
        assert(s.last() == digits.last());
    }
}

/// A byte can be written with a plus sign in front and with any number of leading zeros; nothing
/// but digits behind an optional plus sign writes one, and a sign alone or nothing does not.
pub proof fn byte_is_written_in_digits(digits: Seq<char>)
    ensures
        byte_value(Seq::empty()) is None,
        byte_value(seq!['+']) is None,
        all_digits(digits) && digits.len() > 0 ==> {
            &&& byte_value(seq!['+'] + digits) == byte_value(digits)
            &&& byte_value(seq!['0'] + digits) == byte_value(digits)
        },
        byte_value(digits) is Some ==> forall|i: int|
            0 <= i < digits.len() ==> (i == 0 && digits[0] == '+') || '0' <= #[trigger] digits[i]
                <= '9',
{
    assert(without_plus(seq!['+']) =~= Seq::empty());
    if all_digits(digits) && digits.len() > 0 {
        assert((seq!['+'] + digits).skip(1) =~= digits);
        assert(is_digit(digits[0]));
        leading_zero_adds_nothing(digits);
        let zeroed = seq!['0'] + digits;
        assert forall|i: int| 0 <= i < zeroed.len() implies is_digit(#[trigger] zeroed[i]) by {
            if i > 0 {
                assert(is_digit(digits[i - 1]));
            }
        }
        assert(all_digits(zeroed));
    }
    if byte_value(digits) is Some {
        let rest = without_plus(digits);
        assert forall|i: int| 0 <= i < digits.len() implies (i == 0 && digits[0] == '+') || '0'
            <= #[trigger] digits[i] <= '9' by {
            if digits[0] == '+' && i > 0 {
                assert(is_digit(rest[i - 1]));
            } else if digits[0] != '+' {
                assert(is_digit(rest[i]));
            }
        }
    }
}

} // verus!
