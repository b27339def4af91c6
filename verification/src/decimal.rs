//! Numbers written in base ten, read as multipliers in thousandths.

use vstd::prelude::*;

verus! {

/// Whether `c` is one of the ten digits.
pub open spec fn is_digit(c: char) -> bool {
    '0' <= c && c <= '9'
}

/// Whether `text` holds digits and nothing else.
pub open spec fn all_digits(text: Seq<char>) -> bool {
    forall|i: int| 0 <= i < text.len() ==> is_digit(#[trigger] text[i])
}

/// Whether `text` holds noughts and nothing else.
pub open spec fn all_noughts(text: Seq<char>) -> bool {
    forall|i: int| 0 <= i < text.len() ==> #[trigger] text[i] == '0'
}

/// The number that `digits` spell in base ten.
pub open spec fn number(digits: Seq<char>) -> int
    decreases digits.len(),
{
    if digits.len() == 0 {
        0
    } else {
        number(digits.drop_last()) * 10 + (digits.last() as int - '0' as int)
    }
}

/// How many characters of `text` stand before the first that is `a` or
/// `b`: all of them if there is none.
pub open spec fn mark_place(text: Seq<char>, a: char, b: char) -> int
    decreases text.len(),
{
    if text.len() == 0 || text[0] == a || text[0] == b {
        0
    } else {
        1 + mark_place(text.skip(1), a, b)
    }
}

/// How many characters of `text` stand before its first point.
pub open spec fn point_place(text: Seq<char>) -> int {
    mark_place(text, '.', '.')
}

/// The first `len` digits of the number written as `whole`, a point and
/// `decimals`, with noughts where the decimals have run out.
pub open spec fn padded(whole: Seq<char>, decimals: Seq<char>, len: int) -> Seq<char> {
    Seq::new(
        len as nat,
        |i: int|
            if i < whole.len() {
                whole[i]
            } else if i < whole.len() + decimals.len() {
                decimals[i - whole.len()]
            } else {
                '0'
            },
    )
}

/// The largest power of ten, as an exponent, that is told apart: a larger
/// one counts as this one, which gives the same multiplier.
pub const EXPONENT_LIMIT: u64 = 1_000_000_000_000_000_000;

/// The power of ten that `text` gives, the text being what follows the `e`
/// of a number: digits, at least one, with or without a sign before them.
pub open spec fn exponent_written(text: Seq<char>) -> Option<int> {
    let signed = text.len() > 0 && (text[0] == '+' || text[0] == '-');
    let digits = if signed {
        text.skip(1)
    } else {
        text
    };
    let power = if number(digits) > EXPONENT_LIMIT {
        EXPONENT_LIMIT as int
    } else {
        number(digits)
    };
    if digits.len() > 0 && all_digits(digits) {
        if text[0] == '-' {
            Some(-power)
        } else {
            Some(power)
        }
    } else {
        None
    }
}

/// The multiplier that `text` gives, in thousandths: `text` is a number in
/// base ten, with or without a plus sign before it, see `plain_multiplier`.
pub open spec fn multiplier_written(text: Seq<char>) -> Option<u32> {
    if text.len() > 0 && text[0] == '+' {
        plain_multiplier(text.skip(1))
    } else {
        plain_multiplier(text)
    }
}

/// The multiplier that the unsigned number `text` gives, in thousandths.
///
/// `text` holds digits with at most one point among them, and at least one
/// digit in all; an `e` or `E` and a power of ten may follow. What the
/// number holds below one thousandth is dropped, but a number above nothing
/// never counts as less than one thousandth. There is no multiplier if
/// `text` is anything else, or more than a multiplier can hold.
pub open spec fn plain_multiplier(text: Seq<char>) -> Option<u32> {
    let end = mark_place(text, 'e', 'E');
    let mantissa = text.take(end);
    let exponent = if end < text.len() {
        exponent_written(text.skip(end + 1))
    } else {
        Some(0int)
    };
    let place = point_place(mantissa);
    let whole = mantissa.take(place);
    let decimals = if place < mantissa.len() {
        mantissa.skip(place + 1)
    } else {
        Seq::empty()
    };
    match exponent {
        Some(power) => {
            let cut = whole.len() + power + 3;
            let thousandths = if cut <= 0 {
                0
            } else {
                number(padded(whole, decimals, cut))
            };
            if all_digits(whole) && all_digits(decimals) && whole.len() + decimals.len() > 0
                && thousandths <= u32::MAX {
                if thousandths == 0 && !all_noughts(whole + decimals) {
                    Some(1)
                } else {
                    Some(thousandths as u32)
                }
            } else {
                None
            }
        },
        None => None,
    }
}

proof fn lemma_mark_place(text: Seq<char>, a: char, b: char, place: int)
    requires
        0 <= place <= text.len(),
        forall|j: int| 0 <= j < place ==> text[j] != a && text[j] != b,
        place < text.len() ==> text[place] == a || text[place] == b,
    ensures
        mark_place(text, a, b) == place,
    decreases place,
{
    if place > 0 {
        let rest = text.skip(1);
        assert(forall|j: int| 0 <= j < place - 1 ==> rest[j] == text[j + 1]);
        lemma_mark_place(rest, a, b, place - 1);
    }
}

proof fn lemma_mark_place_holds(text: Seq<char>, a: char, b: char)
    ensures
        0 <= mark_place(text, a, b) <= text.len(),
        forall|j: int| 0 <= j < mark_place(text, a, b) ==> text[j] != a && text[j] != b,
        mark_place(text, a, b) < text.len() ==> text[mark_place(text, a, b)] == a || text[mark_place(
            text,
            a,
            b,
        )] == b,
    decreases text.len(),
{
    if !(text.len() == 0 || text[0] == a || text[0] == b) {
        let rest = text.skip(1);
        lemma_mark_place_holds(rest, a, b);
        let place = mark_place(text, a, b);
        assert forall|j: int| 0 <= j < place implies text[j] != a && text[j] != b by {
            if j > 0 {
                assert(rest[j - 1] == text[j]);
            }
        }
        if place < text.len() {
            assert(rest[place - 1] == text[place]);
        }
    }
}

proof fn lemma_number_grows(digits: Seq<char>, shorter: int)
    requires
        all_digits(digits),
        0 <= shorter <= digits.len(),
    ensures
        0 <= number(digits.take(shorter)) <= number(digits),
    decreases digits.len(),
{
    if digits.len() == 0 {
        assert(digits.take(shorter) =~= digits);
    } else if shorter == digits.len() {
        assert(digits.take(shorter) =~= digits);
        lemma_number_grows(digits.drop_last(), shorter - 1);
        assert(is_digit(digits[digits.len() - 1]));
    } else {
        assert(digits.drop_last().take(shorter) =~= digits.take(shorter));
        lemma_number_grows(digits.drop_last(), shorter);
        assert(is_digit(digits[digits.len() - 1]));
    }
}

/// One more digit of a padded number counts ten times what stood before it
/// and itself.
proof fn lemma_padded_next(whole: Seq<char>, decimals: Seq<char>, len: int)
    requires
        0 <= len,
    ensures
        padded(whole, decimals, len + 1).drop_last() == padded(whole, decimals, len),
        number(padded(whole, decimals, len + 1)) == number(padded(whole, decimals, len)) * 10 + (
        padded(whole, decimals, len + 1)[len] as int - '0' as int),
{
    assert(padded(whole, decimals, len + 1).drop_last() =~= padded(whole, decimals, len));
}

/// A padded number whose digits have run out and which counts nothing
/// counts nothing however far it is padded.
proof fn lemma_nothing_stays(whole: Seq<char>, decimals: Seq<char>, from: int, to: int)
    requires
        whole.len() + decimals.len() <= from <= to,
        number(padded(whole, decimals, from)) == 0,
    ensures
        number(padded(whole, decimals, to)) == 0,
    decreases to - from,
{
    if from < to {
        lemma_nothing_stays(whole, decimals, from, to - 1);
        lemma_padded_next(whole, decimals, to - 1);
    }
}

/// A number padded to any length holds digits alone if its two parts do,
/// and counts no less than it does at a lesser length.
proof fn lemma_padded_grows(whole: Seq<char>, decimals: Seq<char>, shorter: int, len: int)
    requires
        all_digits(whole),
        all_digits(decimals),
        0 <= shorter <= len,
    ensures
        all_digits(padded(whole, decimals, len)),
        0 <= number(padded(whole, decimals, shorter)) <= number(padded(whole, decimals, len)),
{
    let long = padded(whole, decimals, len);
    assert forall|i: int| 0 <= i < long.len() implies is_digit(#[trigger] long[i]) by {
        if i < whole.len() {
            assert(is_digit(whole[i]));
        } else if i < whole.len() + decimals.len() {
            assert(is_digit(decimals[i - whole.len()]));
        }
    }
    lemma_number_grows(long, shorter);
    assert(long.take(shorter) =~= padded(whole, decimals, shorter));
}

/// An unsigned text that holds a character beyond the ASCII range gives no
/// multiplier.
proof fn lemma_beyond_ascii(text: Seq<char>)
    requires
        !vstd::utf8::is_ascii_chars(text),
    ensures
        plain_multiplier(text) is None,
{
    let i = choose|i: int| 0 <= i < text.len() && !('\0' <= #[trigger] text[i] <= '\u{7f}');
    lemma_mark_place_holds(text, 'e', 'E');
    let end = mark_place(text, 'e', 'E');
    let mantissa = text.take(end);
    if i < end {
        assert(mantissa[i] == text[i]);
        lemma_mark_place_holds(mantissa, '.', '.');
        let place = point_place(mantissa);
        if i < place {
            assert(mantissa.take(place)[i] == text[i]);
        } else {
            assert(mantissa.skip(place + 1)[i - place - 1] == text[i]);
        }
    } else {
        let power = text.skip(end + 1);
        assert(power[i - end - 1] == text[i]);
        if power.len() > 0 && (power[0] == '+' || power[0] == '-') {
            assert(power.skip(1)[i - end - 2] == text[i]);
        }
    }
}

/// A text that holds a character beyond the ASCII range gives no
/// multiplier, with a plus sign before it or without.
proof fn lemma_beyond_ascii_signed(text: Seq<char>)
    requires
        !vstd::utf8::is_ascii_chars(text),
    ensures
        multiplier_written(text) is None,
{
    if text.len() > 0 && text[0] == '+' {
        let i = choose|i: int| 0 <= i < text.len() && !('\0' <= #[trigger] text[i] <= '\u{7f}');
        assert(text.skip(1)[i - 1] == text[i]);
        lemma_beyond_ascii(text.skip(1));
    } else {
        lemma_beyond_ascii(text);
    }
}

/// The byte that stands for the plus sign.
const PLUS: u8 = 43;

/// The byte that stands for the minus sign.
const MINUS: u8 = 45;

/// The byte that stands for the point.
const POINT: u8 = 46;

/// The byte that stands for the digit nought.
const DIGIT_ZERO: u8 = 48;

/// The byte that stands for the digit nine.
const DIGIT_NINE: u8 = 57;

/// The byte that stands for the capital letter E.
const UPPER_E: u8 = 69;

/// The byte that stands for the small letter e.
const LOWER_E: u8 = 101;

/// Whether `bytes` are the characters of `text`, one byte to each.
spec fn spelled(bytes: Seq<u8>, text: Seq<char>) -> bool {
    bytes.len() == text.len() && forall|i: int|
        0 <= i < text.len() ==> '\0' <= #[trigger] text[i] <= '\u{7f}' && bytes[i] == text[i] as u8
}

/// Reads a multiplier, in thousandths, from a number written in base ten.
pub fn read_multiplier(text: &str) -> (multiplier: Option<u32>)
    ensures
        multiplier == multiplier_written(text@),
{
    if !text.is_ascii() {
        proof {
            lemma_beyond_ascii_signed(text@);
        }
        return None;
    }
    let bytes = text.as_bytes();
    let n = bytes.len();
    proof {
        vstd::string::is_ascii_spec_bytes(text);
        assert(spelled(bytes@, text@));
    }
    if n > 0 && bytes[0] == PLUS {
        let rest = vstd::slice::slice_subrange(bytes, 1, n);
        assert(forall|i: int| 0 <= i < n - 1 ==> (#[trigger] text@.skip(1)[i]) == text@[i + 1]);
        read_plain(rest, Ghost(text@.skip(1)))
    } else {
        read_plain(bytes, Ghost(text@))
    }
}

/// Reads the power of ten that follows the `e` of a number: what `text`
/// holds from `from` on.
#[verifier::loop_isolation(false)]
fn read_exponent(bytes: &[u8], from: usize, Ghost(text): Ghost<Seq<char>>) -> (power: Option<
    i128,
>)
    requires
        spelled(bytes@, text),
        from <= text.len(),
    ensures
        power is Some <==> exponent_written(text.skip(from as int)) is Some,
        power matches Some(p) ==> exponent_written(text.skip(from as int)) == Some(p as int),
        power matches Some(p) ==> -EXPONENT_LIMIT <= p <= EXPONENT_LIMIT,
{
    let n = bytes.len();
    let ghost tail = text.skip(from as int);
    let signed = from < n && (bytes[from] == PLUS || bytes[from] == MINUS);
    let negative = from < n && bytes[from] == MINUS;
    let first: usize = if signed {
        from + 1
    } else {
        from
    };
    let ghost digits = if signed {
        tail.skip(1)
    } else {
        tail
    };
    proof {
        if from < n {
            assert(tail[0] == text[from as int]);
        }
        assert(forall|j: int| 0 <= j < digits.len() ==> digits[j] == text[first + j]);
    }
    if first == n {
        return None;
    }
    let mut value: u64 = 0;
    let mut k: usize = first;
    while k < n
        invariant
            first <= k <= n,
            all_digits(digits.take(k - first)),
            value <= EXPONENT_LIMIT,
            value == if number(digits.take(k - first)) > EXPONENT_LIMIT {
                EXPONENT_LIMIT as int
            } else {
                number(digits.take(k - first))
            },
            0 <= number(digits.take(k - first)),
        decreases n - k,
    {
        let b = bytes[k];
        let ghost at = k - first;
        proof {
            assert(digits[at] == text[k as int]);
            assert(digits.take(at + 1).drop_last() =~= digits.take(at));
            assert(digits.take(at + 1).last() == digits[at]);
        }
        if b < DIGIT_ZERO || b > DIGIT_NINE {
            assert(!is_digit(digits[at]));
            return None;
        }
        let digit = (b - DIGIT_ZERO) as u64;
        value = if value >= EXPONENT_LIMIT / 10 {
            EXPONENT_LIMIT
        } else {
            value * 10 + digit
        };
        k += 1;
    }
    assert(digits.take(k - first) =~= digits);
    if negative {
        Some(-(value as i128))
    } else {
        Some(value as i128)
    }
}

/// What the first `upto` digits of a number come to, of which no more
/// than `cut` count.
spec fn counted(whole: Seq<char>, decimals: Seq<char>, cut: int, upto: int) -> int {
    if cut <= 0 {
        0
    } else if upto <= cut {
        number(padded(whole, decimals, upto))
    } else {
        number(padded(whole, decimals, cut))
    }
}

/// Whether `bytes` hold the digits `whole` from their start and the digits
/// `decimals` from `place + 1` on.
spec fn holds_parts(bytes: Seq<u8>, place: int, whole: Seq<char>, decimals: Seq<char>) -> bool {
    &&& whole.len() == place
    &&& place + 1 + decimals.len() <= bytes.len() || (decimals.len() == 0 && place <= bytes.len())
    &&& forall|i: int| 0 <= i < whole.len() ==> bytes[i] as int == (#[trigger] whole[i]) as int
    &&& forall|i: int|
        0 <= i < decimals.len() ==> bytes[place + 1 + i] as int == (#[trigger] decimals[i]) as int
}

/// Reads the digits of a number, of which the first `cut` count: hands back
/// what they come to and whether they are all noughts, or nothing if one
/// of them is no digit or if they come to more than a multiplier holds.
#[verifier::loop_isolation(false)]
fn read_digits(
    bytes: &[u8],
    place: usize,
    count: usize,
    cut: i128,
    Ghost(whole): Ghost<Seq<char>>,
    Ghost(decimals): Ghost<Seq<char>>,
) -> (read: Option<(u64, bool)>)
    requires
        holds_parts(bytes@, place as int, whole, decimals),
        count == whole.len() + decimals.len(),
    ensures
        read matches Some((value, noughts)) ==> {
            &&& all_digits(whole)
            &&& all_digits(decimals)
            &&& noughts == all_noughts(whole + decimals)
            &&& value <= u32::MAX
            &&& value == counted(whole, decimals, cut as int, count as int)
        },
        read is None ==> !(all_digits(whole) && all_digits(decimals)) || (cut > 0 && number(
            padded(whole, decimals, cut as int),
        ) > u32::MAX),
{
    let mut value: u64 = 0;
    let mut noughts: bool = true;
    let mut i: usize = 0;
    proof {
        assert(padded(whole, decimals, 0) =~= Seq::empty());
    }
    while i < count
        invariant
            i <= count,
            all_digits(padded(whole, decimals, i as int)),
            noughts == all_noughts(padded(whole, decimals, i as int)),
            value <= u32::MAX,
            value == counted(whole, decimals, cut as int, i as int),
        decreases count - i,
    {
        let b = if i < place {
            bytes[i]
        } else {
            bytes[i + 1]
        };
        let ghost before = padded(whole, decimals, i as int);
        let ghost here = padded(whole, decimals, i + 1);
        proof {
            lemma_padded_next(whole, decimals, i as int);
            assert(here[i as int] as int == b as int);
            assert(forall|j: int| 0 <= j < i ==> before[j] == here[j]);
        }
        if b < DIGIT_ZERO || b > DIGIT_NINE {
            proof {
                if i < place {
                    assert(!is_digit(whole[i as int]));
                } else {
                    assert(!is_digit(decimals[i - place]));
                }
            }
            return None;
        }
        proof {
            assert forall|j: int| 0 <= j < here.len() implies is_digit(#[trigger] here[j]) by {
                if j < i {
                    assert(is_digit(before[j]));
                }
            }
            if b != DIGIT_ZERO {
                assert(here[i as int] != '0');
            } else if !noughts {
                let j = choose|j: int| 0 <= j < i && #[trigger] before[j] != '0';
                assert(here[j] != '0');
            } else {
                assert forall|j: int| 0 <= j < here.len() implies #[trigger] here[j] == '0' by {
                    if j < i {
                        assert(before[j] == '0');
                    }
                }
            }
        }
        if b != DIGIT_ZERO {
            noughts = false;
        }
        if (i as i128) < cut {
            value = value * 10 + (b - DIGIT_ZERO) as u64;
            if value > u32::MAX as u64 {
                proof {
                    if all_digits(whole) && all_digits(decimals) {
                        lemma_padded_grows(whole, decimals, i + 1, cut as int);
                    }
                }
                return None;
            }
        }
        i += 1;
    }
    proof {
        let all = padded(whole, decimals, count as int);
        assert(all =~= whole + decimals);
        assert forall|j: int| 0 <= j < whole.len() implies is_digit(#[trigger] whole[j]) by {
            assert(is_digit(all[j]));
        }
        assert forall|j: int| 0 <= j < decimals.len() implies is_digit(#[trigger] decimals[j]) by {
            assert(is_digit(all[whole.len() + j]));
        }
    }
    Some((value, noughts))
}

/// Pads what the digits of a number come to with the noughts that are
/// still missing up to `cut` digits: nothing if that is more than a
/// multiplier holds.
#[verifier::loop_isolation(false)]
fn pad_digits(
    value: u64,
    count: usize,
    cut: i128,
    Ghost(whole): Ghost<Seq<char>>,
    Ghost(decimals): Ghost<Seq<char>>,
) -> (padded_value: Option<u64>)
    requires
        all_digits(whole),
        all_digits(decimals),
        count == whole.len() + decimals.len(),
        value <= u32::MAX,
        value == counted(whole, decimals, cut as int, count as int),
    ensures
        padded_value matches Some(v) ==> v <= u32::MAX && v == counted(
            whole,
            decimals,
            cut as int,
            cut as int,
        ),
        padded_value is None ==> cut > 0 && number(padded(whole, decimals, cut as int))
            > u32::MAX,
{
    if value == 0 {
        proof {
            if cut > count {
                lemma_nothing_stays(whole, decimals, count as int, cut as int);
            }
        }
        return Some(0);
    }
    let mut value = value;
    let mut len: i128 = count as i128;
    while len < cut
        invariant
            count <= len,
            0 < value <= u32::MAX,
            value == counted(whole, decimals, cut as int, len as int),
        decreases cut - len,
    {
        proof {
            lemma_padded_next(whole, decimals, len as int);
        }
        value = value * 10;
        if value > u32::MAX as u64 {
            proof {
                lemma_padded_grows(whole, decimals, len + 1, cut as int);
            }
            return None;
        }
        len = len + 1;
    }
    Some(value)
}

/// Reads a multiplier from the bytes of the unsigned number `text`.
#[verifier::loop_isolation(false)]
fn read_plain(bytes: &[u8], Ghost(text): Ghost<Seq<char>>) -> (multiplier: Option<u32>)
    requires
        spelled(bytes@, text),
    ensures
        multiplier == plain_multiplier(text),
{
    let n = bytes.len();
    let mut end: usize = 0;
    while end < n && bytes[end] != LOWER_E && bytes[end] != UPPER_E
        invariant
            end <= n,
            forall|j: int| 0 <= j < end ==> text[j] != 'e' && text[j] != 'E',
        decreases n - end,
    {
        end += 1;
    }
    proof {
        lemma_mark_place(text, 'e', 'E', end as int);
    }
    let ghost mantissa = text.take(end as int);
    let power: i128 = if end < n {
        match read_exponent(bytes, end + 1, Ghost(text)) {
            Some(power) => power,
            None => {
                return None;
            },
        }
    } else {
        0
    };
    let mut place: usize = 0;
    while place < end && bytes[place] != POINT
        invariant
            place <= end,
            forall|j: int| 0 <= j < place ==> mantissa[j] != '.',
        decreases end - place,
    {
        place += 1;
    }
    proof {
        lemma_mark_place(mantissa, '.', '.', place as int);
    }
    let ghost whole = mantissa.take(place as int);
    let ghost decimals = if place < end {
        mantissa.skip(place + 1)
    } else {
        Seq::empty()
    };
    let count: usize = if place < end {
        end - 1
    } else {
        end
    };
    if count == 0 {
        return None;
    }
    let cut: i128 = place as i128 + power + 3;
    proof {
        assert(forall|i: int| 0 <= i < whole.len() ==> (#[trigger] whole[i]) == text[i]);
        assert(forall|i: int|
            0 <= i < decimals.len() ==> (#[trigger] decimals[i]) == text[place + 1 + i]);
    }
    match read_digits(bytes, place, count, cut, Ghost(whole), Ghost(decimals)) {
        Some((value, noughts)) => match pad_digits(
            value,
            count,
            cut,
            Ghost(whole),
            Ghost(decimals),
        ) {
            Some(thousandths) => {
                if thousandths == 0 && !noughts {
                    Some(1)
                } else {
                    Some(thousandths as u32)
                }
            },
            None => None,
        },
        None => None,
    }
}

} // verus!
