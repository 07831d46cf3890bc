//! The text of a mesh file: its lines, the words of a line, and the numbers
//! that words write.

use crate::linear_algebra::COORDINATE_LIMIT;
use vstd::prelude::*;
use vstd::slice::{slice_subrange, slice_to_vec};

verus! {

/// Why a mesh could not be loaded.
#[derive(Debug, Clone, Copy, PartialEq, Eq, Structural)]
pub enum LoadError {
    /// A word that should write a number does not.
    MalformedNumber,
    /// A record ends before the last field that it must have.
    MissingField,
    /// A number is too large for the arithmetic of the pipeline.
    OutOfRange,
}

/// Whether the byte `b` separates words: a blank, a tab or a line break.
pub open spec fn is_space(b: u8) -> bool {
    b == 32 || 9 <= b <= 13
}

/// Whether the byte `b` is a decimal digit.
pub open spec fn is_digit(b: u8) -> bool {
    48 <= b <= 57
}

/// The first place at or after `from` that holds no space, or the end.
pub open spec fn spaces_end(s: Seq<u8>, from: int) -> int
    decreases s.len() - from,
{
    if 0 <= from < s.len() && is_space(s[from]) {
        spaces_end(s, from + 1)
    } else {
        from
    }
}

/// The first place at or after `from` that holds a space, or the end.
pub open spec fn word_end(s: Seq<u8>, from: int) -> int
    decreases s.len() - from,
{
    if 0 <= from < s.len() && !is_space(s[from]) {
        word_end(s, from + 1)
    } else {
        from
    }
}

/// The first place at or after `from` that holds no digit, or the end.
pub open spec fn digits_end(s: Seq<u8>, from: int) -> int
    decreases s.len() - from,
{
    if 0 <= from < s.len() && is_digit(s[from]) {
        digits_end(s, from + 1)
    } else {
        from
    }
}

/// The first place at or after `from` that holds the byte `stop`, or the end.
pub open spec fn find_byte(s: Seq<u8>, from: int, stop: u8) -> int
    decreases s.len() - from,
{
    if 0 <= from < s.len() && s[from] != stop {
        find_byte(s, from + 1, stop)
    } else {
        from
    }
}

/// The words of `s` from the place `from` on: the longest runs of bytes that
/// are no spaces, in their order.
pub open spec fn words_from(s: Seq<u8>, from: int) -> Seq<Seq<u8>>
    decreases s.len() - from,
{
    let start = spaces_end(s, from);
    let end = word_end(s, start);
    if from < 0 || start >= s.len() {
        Seq::empty()
    } else {
        proof {
            lemma_scan_bounds(s, from);
            lemma_scan_bounds(s, start);
        }
        seq![s.subrange(start, end)] + words_from(s, end)
    }
}

/// The words of a line.
pub open spec fn words(line: Seq<u8>) -> Seq<Seq<u8>> {
    words_from(line, 0)
}

/// The number that a run of digits writes.
pub open spec fn digits_value(s: Seq<u8>) -> nat
    decreases s.len(),
{
    if s.len() == 0 {
        0
    } else {
        digits_value(s.drop_last()) * 10 + (s.last() - 48) as nat
    }
}

/// Ten to the power `n`.
pub open spec fn power_of_ten(n: nat) -> nat
    decreases n,
{
    if n == 0 {
        1
    } else {
        10 * power_of_ten((n - 1) as nat)
    }
}

/// The number that the first `cut` digits of a run write, where the run is
/// followed by as many zeros as `cut` asks for: the number that the run
/// writes, with its point moved to the place `cut`, rounded down.
pub open spec fn shifted(digits: Seq<u8>, cut: int) -> nat {
    if cut <= 0 {
        0
    } else if cut <= digits.len() {
        digits_value(digits.take(cut))
    } else {
        digits_value(digits) * power_of_ten((cut - digits.len()) as nat)
    }
}

/// The index that a word writes: digits, after a plus sign or without one,
/// that write a number the machine can hold.
pub open spec fn index_of(word: Seq<u8>) -> Option<usize> {
    let start: int = if word.len() > 0 && word[0] == 43 {
        1
    } else {
        0
    };
    let digits = word.subrange(start, word.len() as int);
    if digits.len() > 0 && digits_end(word, start) == word.len() && digits_value(digits)
        <= usize::MAX {
        Some(digits_value(digits) as usize)
    } else {
        None
    }
}

/// The parts of a word that writes a decimal number: where the digits before
/// the point, the digits behind the point and the digits of the exponent
/// start and end.
pub struct DecimalParts {
    pub negative: bool,
    pub whole_start: int,
    pub whole_end: int,
    pub fraction_start: int,
    pub fraction_end: int,
    pub exponent_negative: bool,
    pub exponent_start: int,
    pub exponent_end: int,
}

/// Whether the byte `b` opens an exponent.
pub open spec fn is_exponent_mark(b: u8) -> bool {
    b == 101 || b == 69
}

/// Whether the byte `b` is a sign.
pub open spec fn is_sign(b: u8) -> bool {
    b == 43 || b == 45
}

/// How a word is read as a decimal number: a sign or none, digits, perhaps a
/// point with digits behind it, and perhaps an exponent, which is the letter
/// `e`, a sign or none, and digits.
pub open spec fn decimal_parts(word: Seq<u8>) -> DecimalParts {
    let n = word.len() as int;
    let negative = n > 0 && word[0] == 45;
    let whole_start: int = if n > 0 && is_sign(word[0]) {
        1
    } else {
        0
    };
    let whole_end = digits_end(word, whole_start);
    let fraction_start = if whole_end < n && word[whole_end] == 46 {
        whole_end + 1
    } else {
        whole_end
    };
    let fraction_end = digits_end(word, fraction_start);
    let marked = fraction_end < n && is_exponent_mark(word[fraction_end]);
    let signed = marked && fraction_end + 1 < n && is_sign(word[fraction_end + 1]);
    let exponent_negative = signed && word[fraction_end + 1] == 45;
    let exponent_start = if signed {
        fraction_end + 2
    } else if marked {
        fraction_end + 1
    } else {
        fraction_end
    };
    let exponent_end = digits_end(word, exponent_start);
    DecimalParts {
        negative,
        whole_start,
        whole_end,
        fraction_start,
        fraction_end,
        exponent_negative,
        exponent_start,
        exponent_end,
    }
}

/// Whether a word writes a decimal number: it holds a digit before or behind
/// its point, an exponent that it opens holds a digit, and nothing follows.
pub open spec fn is_decimal(word: Seq<u8>) -> bool {
    let parts = decimal_parts(word);
    &&& (parts.whole_end - parts.whole_start) + (parts.fraction_end - parts.fraction_start) > 0
    &&& parts.exponent_end == word.len()
    &&& parts.exponent_start > parts.fraction_end ==> parts.exponent_end > parts.exponent_start
}

/// The digits of a decimal number, those before the point and those behind
/// it in one run.
pub open spec fn decimal_digits(word: Seq<u8>) -> Seq<u8> {
    let parts = decimal_parts(word);
    word.subrange(parts.whole_start, parts.whole_end) + word.subrange(
        parts.fraction_start,
        parts.fraction_end,
    )
}

/// The exponent of a decimal number; zero where the word writes none.
pub open spec fn decimal_exponent(word: Seq<u8>) -> int {
    let parts = decimal_parts(word);
    let written = digits_value(word.subrange(parts.exponent_start, parts.exponent_end));
    if parts.exponent_negative {
        -written
    } else {
        written as int
    }
}

/// The magnitude, in millionths, of the decimal number that `word` writes, if
/// it writes one; what is less than a millionth is dropped.
pub open spec fn decimal_magnitude(word: Seq<u8>) -> Option<nat> {
    let parts = decimal_parts(word);
    if is_decimal(word) {
        Some(
            shifted(
                decimal_digits(word),
                (parts.whole_end - parts.whole_start) + 6 + decimal_exponent(word),
            ),
        )
    } else {
        None
    }
}

/// The fixed-point number that a word writes, in millionths and rounded
/// towards zero.
pub open spec fn decimal_of(word: Seq<u8>) -> Result<i64, LoadError> {
    match decimal_magnitude(word) {
        None => Err(LoadError::MalformedNumber),
        Some(magnitude) => if magnitude >= COORDINATE_LIMIT {
            Err(LoadError::OutOfRange)
        } else if decimal_parts(word).negative {
            Ok((-magnitude) as i64)
        } else {
            Ok(magnitude as i64)
        },
    }
}

/// Every power of ten is at least one, and a greater power is not less.
pub proof fn lemma_power_of_ten_grows(low: nat, high: nat)
    requires
        low <= high,
    ensures
        1 <= power_of_ten(low) <= power_of_ten(high),
    decreases high,
{
    if low < high {
        lemma_power_of_ten_grows(low, (high - 1) as nat);
    } else if low > 0 {
        lemma_power_of_ten_grows((low - 1) as nat, (low - 1) as nat);
    }
}

/// A run of digits writes at least what any of its beginnings writes.
pub proof fn lemma_digits_value_grows(s: Seq<u8>, n: int)
    requires
        0 <= n <= s.len(),
    ensures
        digits_value(s.take(n)) <= digits_value(s),
    decreases s.len(),
{
    if n < s.len() {
        lemma_digits_value_grows(s.drop_last(), n);
        assert(s.drop_last().take(n) =~= s.take(n));
    } else {
        assert(s.take(n) =~= s);
    }
}

/// The scans stop within the text, at or after the place they start from.
pub proof fn lemma_scan_bounds(s: Seq<u8>, from: int)
    requires
        0 <= from <= s.len(),
    ensures
        from <= spaces_end(s, from) <= s.len(),
        from <= word_end(s, from) <= s.len(),
        from <= digits_end(s, from) <= s.len(),
        from < s.len() && !is_space(s[from]) ==> from < word_end(s, from),
        spaces_end(s, from) < s.len() ==> !is_space(s[spaces_end(s, from)]),
    decreases s.len() - from,
{
    if from < s.len() {
        lemma_scan_bounds(s, from + 1);
    }
}

fn is_space_byte(b: u8) -> (r: bool)
    ensures
        r == is_space(b),
{
    b == 32 || (9 <= b && b <= 13)
}

fn is_digit_byte(b: u8) -> (r: bool)
    ensures
        r == is_digit(b),
{
    48 <= b && b <= 57
}

/// What the words of a vector hold.
pub open spec fn word_views(found: Vec<Vec<u8>>) -> Seq<Seq<u8>> {
    Seq::new(found@.len(), |i: int| found@[i]@)
}

/// The words of `line`.
pub fn split_words(line: &[u8]) -> (found: Vec<Vec<u8>>)
    ensures
        word_views(found) == words(line@),
{
    let mut found: Vec<Vec<u8>> = Vec::new();
    let mut at: usize = 0;
    let n = line.len();
    assert(word_views(found) =~= Seq::<Seq<u8>>::empty());
    loop
        invariant
            n == line@.len(),
            at <= n,
            words(line@) == word_views(found) + words_from(line@, at as int),
        decreases n - at,
    {
        let mut start = at;
        while start < n && is_space_byte(line[start])
            invariant
                n == line@.len(),
                at <= start <= n,
                spaces_end(line@, at as int) == spaces_end(line@, start as int),
            decreases n - start,
        {
            start += 1;
        }
        if start >= n {
            assert(words_from(line@, at as int) =~= Seq::<Seq<u8>>::empty());
            assert(word_views(found) + Seq::<Seq<u8>>::empty() =~= word_views(found));
            return found;
        }
        let mut end = start;
        while end < n && !is_space_byte(line[end])
            invariant
                n == line@.len(),
                start <= end <= n,
                word_end(line@, start as int) == word_end(line@, end as int),
            decreases n - end,
        {
            end += 1;
        }
        proof {
            lemma_scan_bounds(line@, start as int);
        }
        let word = slice_to_vec(slice_subrange(line, start, end));
        let ghost before = word_views(found);
        found.push(word);
        proof {
            assert(word_views(found) =~= before.push(line@.subrange(start as int, end as int)));
            assert(before + (seq![line@.subrange(start as int, end as int)] + words_from(
                line@,
                end as int,
            )) =~= before.push(line@.subrange(start as int, end as int)) + words_from(
                line@,
                end as int,
            ));
        }
        at = end;
    }
}

/// The index that `word` writes, if it writes one.
pub fn parse_index(word: &Vec<u8>) -> (index: Option<usize>)
    ensures
        index == index_of(word@),
{
    let n = word.len();
    let start: usize = if n > 0 && word[0] == 43 {
        1
    } else {
        0
    };
    if start >= n {
        return None;
    }
    let ghost digits = word@.subrange(start as int, n as int);
    let mut value: usize = 0;
    let mut i: usize = start;
    while i < n
        invariant
            n == word@.len(),
            start <= i <= n,
            start < n,
            start == if word@.len() > 0 && word@[0] == 43 {
                1int
            } else {
                0int
            },
            digits == word@.subrange(start as int, n as int),
            digits_end(word@, start as int) == digits_end(word@, i as int),
            value == digits_value(digits.take(i - start)),
        decreases n - i,
    {
        let b = word[i];
        if !is_digit_byte(b) {
            assert(digits_end(word@, i as int) == i);
            return None;
        }
        let digit = (b - 48) as usize;
        proof {
            assert(digits.take(i + 1 - start).drop_last() =~= digits.take(i - start));
            assert(digits.take(i + 1 - start).last() == b);
            lemma_digits_value_grows(digits, i + 1 - start);
        }
        if value > (usize::MAX - digit) / 10 {
            proof {
                assert(value * 10 + digit > usize::MAX);
                assert(digits_value(digits.take(i + 1 - start)) == value * 10 + digit);
                assert(digits_value(digits) > usize::MAX);
            }
            return None;
        }
        value = value * 10 + digit;
        i += 1;
    }
    proof {
        assert(digits.take(n - start) =~= digits);
    }
    Some(value)
}

/// What stands for every magnitude that is too large anyway.
const MAGNITUDE_CAP: u64 = 0x8000_0000;

/// What stands for every exponent that moves the point past all digits
/// anyway.
const EXPONENT_CAP: u128 = 0x10_0000_0000_0000_0000_0000_0000;

/// The least of two numbers.
pub open spec fn least(a: int, b: int) -> int {
    if a <= b {
        a
    } else {
        b
    }
}

/// Where the digits of `word` from the place `from` on end.
fn scan_digits(word: &Vec<u8>, from: usize) -> (end: usize)
    requires
        from <= word@.len(),
    ensures
        end == digits_end(word@, from as int),
        from <= end <= word@.len(),
{
    let n = word.len();
    let mut end = from;
    while end < n && is_digit_byte(word[end])
        invariant
            n == word@.len(),
            from <= end <= n,
            digits_end(word@, from as int) == digits_end(word@, end as int),
        decreases n - end,
    {
        end += 1;
    }
    end
}

/// The number that the digits of `word` from `start` up to `end` write, or
/// `cap` where they write more.
fn capped_value(word: &Vec<u8>, start: usize, end: usize, cap: u128) -> (value: u128)
    requires
        start <= end <= word@.len(),
        digits_end(word@, start as int) >= end,
        cap <= 0x10_0000_0000_0000_0000_0000_0000,
    ensures
        value == least(digits_value(word@.subrange(start as int, end as int)) as int, cap as int),
{
    let ghost digits = word@.subrange(start as int, end as int);
    let mut value: u128 = 0;
    let mut i: usize = start;
    while i < end
        invariant
            start <= i <= end <= word@.len(),
            digits_end(word@, start as int) >= end,
            digits_end(word@, start as int) == digits_end(word@, i as int),
            digits == word@.subrange(start as int, end as int),
            cap <= 0x10_0000_0000_0000_0000_0000_0000,
            value == least(digits_value(digits.take(i - start)) as int, cap as int),
        decreases end - i,
    {
        proof {
            lemma_scan_bounds(word@, i as int);
            if !is_digit(word@[i as int]) {
                assert(digits_end(word@, i as int) == i);
            }
            assert(digits.take(i + 1 - start).drop_last() =~= digits.take(i - start));
            assert(digits.take(i + 1 - start).last() == word@[i as int]);
        }
        let digit = (word[i] - 48) as u128;
        value = value * 10 + digit;
        if value > cap {
            value = cap;
        }
        i += 1;
    }
    proof {
        assert(digits.take(end - start) =~= digits);
    }
    value
}

/// The digit at the place `i` of the run that the digits from `whole_start`
/// up to `whole_end` and the digits from `fraction_start` on make.
fn digit_at(word: &Vec<u8>, whole_start: usize, whole_end: usize, fraction_start: usize, i: usize) -> (digit: u8)
    requires
        whole_start <= whole_end <= fraction_start,
        i < (whole_end - whole_start) + (word@.len() - fraction_start),
        fraction_start <= word@.len(),
    ensures
        digit == if i < whole_end - whole_start {
            word@[whole_start + i]
        } else {
            word@[fraction_start + (i - (whole_end - whole_start))]
        },
{
    let n = word.len();
    if i < whole_end - whole_start {
        word[whole_start + i]
    } else {
        let behind = i - (whole_end - whole_start);
        assert(behind < n - fraction_start);
        word[fraction_start + behind]
    }
}

/// Where the parts of a word that is read as a decimal number start and end.
struct Layout {
    negative: bool,
    whole_start: usize,
    whole_end: usize,
    fraction_start: usize,
    fraction_end: usize,
    exponent_negative: bool,
    exponent_start: usize,
    exponent_end: usize,
}

impl Layout {
    /// Whether this is how `word` is read as a decimal number.
    spec fn describes(&self, word: Seq<u8>) -> bool {
        let parts = decimal_parts(word);
        &&& parts.negative == self.negative
        &&& parts.whole_start == self.whole_start
        &&& parts.whole_end == self.whole_end
        &&& parts.fraction_start == self.fraction_start
        &&& parts.fraction_end == self.fraction_end
        &&& parts.exponent_negative == self.exponent_negative
        &&& parts.exponent_start == self.exponent_start
        &&& parts.exponent_end == self.exponent_end
        &&& self.whole_start <= self.whole_end <= self.fraction_start <= self.fraction_end
        &&& self.fraction_end <= self.exponent_start <= self.exponent_end <= word.len()
    }
}

/// How `word` is read as a decimal number.
fn scan_decimal(word: &Vec<u8>) -> (layout: Layout)
    ensures
        layout.describes(word@),
{
    let n = word.len();
    let negative = n > 0 && word[0] == 45;
    let whole_start: usize = if n > 0 && (word[0] == 43 || word[0] == 45) {
        1
    } else {
        0
    };
    let whole_end = scan_digits(word, whole_start);
    let fraction_start: usize = if whole_end < n && word[whole_end] == 46 {
        whole_end + 1
    } else {
        whole_end
    };
    let fraction_end = scan_digits(word, fraction_start);
    let marked = fraction_end < n && (word[fraction_end] == 101 || word[fraction_end] == 69);
    let signed = marked && fraction_end + 1 < n && (word[fraction_end + 1] == 43
        || word[fraction_end + 1] == 45);
    let exponent_negative = signed && word[fraction_end + 1] == 45;
    let exponent_start: usize = if signed {
        fraction_end + 2
    } else if marked {
        fraction_end + 1
    } else {
        fraction_end
    };
    let exponent_end = scan_digits(word, exponent_start);
    Layout {
        negative,
        whole_start,
        whole_end,
        fraction_start,
        fraction_end,
        exponent_negative,
        exponent_start,
        exponent_end,
    }
}

/// The magnitude, in millionths, of the decimal number that `word` writes;
/// none where it reaches the coordinate limit.
fn magnitude_of(word: &Vec<u8>, layout: &Layout) -> (magnitude: Option<u64>)
    requires
        layout.describes(word@),
        is_decimal(word@),
    ensures
        match magnitude {
            Some(m) => decimal_magnitude(word@) == Some(m as nat) && m < COORDINATE_LIMIT,
            None => decimal_magnitude(word@) matches Some(m) && m >= COORDINATE_LIMIT,
        },
{
    let ghost digits = decimal_digits(word@);
    let ghost exponent = decimal_exponent(word@);
    let whole_length = layout.whole_end - layout.whole_start;
    let count = whole_length + (layout.fraction_end - layout.fraction_start);
    let ghost cut = whole_length + 6 + exponent;
    let written = capped_value(word, layout.exponent_start, layout.exponent_end, EXPONENT_CAP);
    let all = accumulate(
        word,
        layout.whole_start,
        layout.whole_end,
        layout.fraction_start,
        layout.fraction_end,
        count,
    );
    proof {
        assert(digits.len() == count);
        assert(digits.take(count as int) =~= digits);
    }
    if all == 0 {
        proof {
            lemma_shifted_of_zero(digits, cut);
        }
        return Some(0);
    }
    if written >= EXPONENT_CAP {
        if layout.exponent_negative {
            return Some(0);
        } else {
            proof {
                lemma_power_of_ten_grows(10, (cut - digits.len()) as nat);
                lemma_ten_billion();
                assert(shifted(digits, cut) >= 10000000000) by (nonlinear_arith)
                    requires
                        shifted(digits, cut) == digits_value(digits) * power_of_ten(
                            (cut - digits.len()) as nat,
                        ),
                        digits_value(digits) >= 1,
                        power_of_ten((cut - digits.len()) as nat) >= 10000000000,
                ;
            }
            return None;
        }
    }
    let place: i128 = if layout.exponent_negative {
        whole_length as i128 + 6 - written as i128
    } else {
        whole_length as i128 + 6 + written as i128
    };
    if place <= 0 {
        return Some(0);
    }
    let magnitude = magnitude_at(
        word,
        layout.whole_start,
        layout.whole_end,
        layout.fraction_start,
        layout.fraction_end,
        place,
    );
    if magnitude >= 1073741824 {
        None
    } else {
        Some(magnitude)
    }
}

/// The fixed-point number that `word` writes, or why it writes none.
pub fn parse_decimal(word: &Vec<u8>) -> (number: Result<i64, LoadError>)
    ensures
        number == decimal_of(word@),
        number matches Ok(v) ==> -COORDINATE_LIMIT < v < COORDINATE_LIMIT,
{
    let layout = scan_decimal(word);
    let count = (layout.whole_end - layout.whole_start) + (layout.fraction_end
        - layout.fraction_start);
    if count == 0 || layout.exponent_end != word.len() || (layout.exponent_start
        > layout.fraction_end && layout.exponent_end == layout.exponent_start) {
        return Err(LoadError::MalformedNumber);
    }
    match magnitude_of(word, &layout) {
        None => Err(LoadError::OutOfRange),
        Some(magnitude) => if layout.negative {
            Ok(-(magnitude as i64))
        } else {
            Ok(magnitude as i64)
        },
    }
}

/// The number `value * 10^steps`, or the cap where that is more.
fn scale_up(value: u64, steps: i128) -> (scaled: u64)
    requires
        value <= MAGNITUDE_CAP,
        steps >= 0,
    ensures
        scaled == least((value * power_of_ten(steps as nat)) as int, MAGNITUDE_CAP as int),
{
    if value == 0 {
        assert(0 * power_of_ten(steps as nat) == 0);
        return 0;
    }
    let mut scaled: u64 = value;
    let mut left: i128 = steps;
    proof {
        lemma_powers_of_ten();
        assert(value * 1 == value);
    }
    while left > 0 && scaled < MAGNITUDE_CAP
        invariant
            0 <= left <= steps,
            1 <= value <= MAGNITUDE_CAP,
            1 <= scaled <= MAGNITUDE_CAP,
            scaled == least(
                (value * power_of_ten((steps - left) as nat)) as int,
                MAGNITUDE_CAP as int,
            ),
        decreases left,
    {
        proof {
            let shift = (steps - left) as nat;
            assert(power_of_ten(shift + 1) == 10 * power_of_ten(shift));
            assert(value * power_of_ten(shift + 1) == (value * power_of_ten(shift)) * 10)
                by (nonlinear_arith)
                requires
                    power_of_ten(shift + 1) == 10 * power_of_ten(shift),
            ;
        }
        scaled = scaled * 10;
        if scaled > MAGNITUDE_CAP {
            scaled = MAGNITUDE_CAP;
        }
        left -= 1;
    }
    proof {
        if left > 0 {
            lemma_power_of_ten_grows((steps - left) as nat, steps as nat);
            assert(value * power_of_ten(steps as nat) >= value * power_of_ten(
                (steps - left) as nat,
            )) by (nonlinear_arith)
                requires
                    power_of_ten(steps as nat) >= power_of_ten((steps - left) as nat),
                    value >= 0,
            ;
        }
    }
    scaled
}

/// The number that the digits of a decimal number write with the point moved
/// to the place `place`, or the cap where that is more.
fn magnitude_at(
    word: &Vec<u8>,
    whole_start: usize,
    whole_end: usize,
    fraction_start: usize,
    fraction_end: usize,
    place: i128,
) -> (magnitude: u64)
    requires
        whole_start <= whole_end <= fraction_start <= fraction_end <= word@.len(),
        whole_end <= digits_end(word@, whole_start as int),
        fraction_end <= digits_end(word@, fraction_start as int),
        place > 0,
    ensures
        magnitude == least(
            shifted(
                word@.subrange(whole_start as int, whole_end as int) + word@.subrange(
                    fraction_start as int,
                    fraction_end as int,
                ),
                place as int,
            ) as int,
            MAGNITUDE_CAP as int,
        ),
{
    let ghost digits = word@.subrange(whole_start as int, whole_end as int) + word@.subrange(
        fraction_start as int,
        fraction_end as int,
    );
    let count = (whole_end - whole_start) + (fraction_end - fraction_start);
    if place <= count as i128 {
        accumulate(word, whole_start, whole_end, fraction_start, fraction_end, place as usize)
    } else {
        let all = accumulate(word, whole_start, whole_end, fraction_start, fraction_end, count);
        let steps = place - count as i128;
        proof {
            assert(digits.take(count as int) =~= digits);
            lemma_power_of_ten_grows(0, steps as nat);
            lemma_powers_of_ten();
            if digits_value(digits) >= MAGNITUDE_CAP {
                assert(digits_value(digits) * power_of_ten(steps as nat) >= MAGNITUDE_CAP)
                    by (nonlinear_arith)
                    requires
                        digits_value(digits) >= MAGNITUDE_CAP,
                        power_of_ten(steps as nat) >= 1,
                ;
                assert(all * power_of_ten(steps as nat) >= MAGNITUDE_CAP) by (nonlinear_arith)
                    requires
                        all >= MAGNITUDE_CAP,
                        power_of_ten(steps as nat) >= 1,
                ;
            }
        }
        scale_up(all, steps)
    }
}

/// The number that the first `count` digits of a decimal number write, or
/// the cap where they write more.
fn accumulate(
    word: &Vec<u8>,
    whole_start: usize,
    whole_end: usize,
    fraction_start: usize,
    fraction_end: usize,
    count: usize,
) -> (value: u64)
    requires
        whole_start <= whole_end <= fraction_start <= fraction_end <= word@.len(),
        whole_end <= digits_end(word@, whole_start as int),
        fraction_end <= digits_end(word@, fraction_start as int),
        count <= (whole_end - whole_start) + (fraction_end - fraction_start),
    ensures
        value == least(
            digits_value(
                (word@.subrange(whole_start as int, whole_end as int) + word@.subrange(
                    fraction_start as int,
                    fraction_end as int,
                )).take(count as int),
            ) as int,
            MAGNITUDE_CAP as int,
        ),
{
    let ghost digits = word@.subrange(whole_start as int, whole_end as int) + word@.subrange(
        fraction_start as int,
        fraction_end as int,
    );
    let mut value: u64 = 0;
    let mut i: usize = 0;
    while i < count
        invariant
            i <= count,
            whole_start <= whole_end <= fraction_start <= fraction_end <= word@.len(),
            whole_end <= digits_end(word@, whole_start as int),
            fraction_end <= digits_end(word@, fraction_start as int),
            count <= (whole_end - whole_start) + (fraction_end - fraction_start),
            digits == word@.subrange(whole_start as int, whole_end as int) + word@.subrange(
                fraction_start as int,
                fraction_end as int,
            ),
            value == least(digits_value(digits.take(i as int)) as int, MAGNITUDE_CAP as int),
        decreases count - i,
    {
        let b = digit_at(word, whole_start, whole_end, fraction_start, i);
        proof {
            assert(b == digits[i as int]);
            if i < whole_end - whole_start {
                lemma_digits_within(word@, whole_start as int, whole_start + i);
            } else {
                lemma_digits_within(
                    word@,
                    fraction_start as int,
                    fraction_start + (i - (whole_end - whole_start)),
                );
            }
            assert(digits.take(i + 1).drop_last() =~= digits.take(i as int));
            assert(digits.take(i + 1).last() == b);
        }
        let digit = (b - 48) as u64;
        value = value * 10 + digit;
        if value > MAGNITUDE_CAP {
            value = MAGNITUDE_CAP;
        }
        i += 1;
    }
    value
}

/// Every place between the start of a run of digits and its end holds a
/// digit.
pub proof fn lemma_digits_within(s: Seq<u8>, from: int, at: int)
    requires
        0 <= from <= at < digits_end(s, from),
    ensures
        at < s.len(),
        is_digit(s[at]),
    decreases at - from,
{
    lemma_scan_bounds(s, from);
    if from < at {
        lemma_digits_within(s, from + 1, at);
    }
}

/// A run of digits that writes zero writes zero wherever its point is moved.
pub proof fn lemma_shifted_of_zero(digits: Seq<u8>, cut: int)
    requires
        digits_value(digits) == 0,
    ensures
        shifted(digits, cut) == 0,
{
    if 0 < cut <= digits.len() {
        lemma_digits_value_grows(digits, cut);
    } else if cut > digits.len() {
        assert(0 * power_of_ten((cut - digits.len()) as nat) == 0);
    }
}

/// Ten to the power ten.
pub proof fn lemma_ten_billion()
    ensures
        power_of_ten(10) == 10000000000,
{
    reveal_with_fuel(power_of_ten, 12);
}

/// The first powers of ten.
pub proof fn lemma_powers_of_ten()
    ensures
        power_of_ten(0) == 1,
        power_of_ten(1) == 10,
        power_of_ten(2) == 100,
        power_of_ten(3) == 1000,
        power_of_ten(4) == 10000,
        power_of_ten(5) == 100000,
        power_of_ten(6) == 1000000,
{
    reveal_with_fuel(power_of_ten, 8);
}

} // verus!
