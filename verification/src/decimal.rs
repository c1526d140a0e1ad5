//! Decimals, which are fetched as text and held as integers scaled by a power of ten.
use crate::error::MappingError;
use vstd::prelude::*;

verus! {

/// Why a text is not a value of a decimal column.
#[derive(Debug, Clone, Copy, PartialEq, Eq, Structural)]
pub enum DecimalError {
    /// The text is not a decimal number.
    Malformed,
    /// The text is a decimal number that the type does not hold: it has more digits behind
    /// the point than the scale or more digits in all than the precision, or the type has a
    /// negative scale or a precision above 38.
    OutOfRange,
}

/// The largest precision of a decimal that is held in 128 bits.
pub const MAX_PRECISION: u8 = 38;

/// Ten to the power of 38.
pub const LIMIT: i128 = 100_000_000_000_000_000_000_000_000_000_000_000_000;

pub open spec fn is_digit(byte: u8) -> bool {
    0x30 <= byte <= 0x39
}

pub open spec fn all_digits(bytes: Seq<u8>) -> bool {
    forall|i: int| 0 <= i < bytes.len() ==> is_digit(#[trigger] bytes[i])
}

/// The number that the digits write.
pub open spec fn digits_value(digits: Seq<u8>) -> int
    decreases digits.len(),
{
    if digits.len() == 0 {
        0
    } else {
        digits_value(digits.drop_last()) * 10 + (digits.last() - 0x30)
    }
}

pub open spec fn pow10(exponent: nat) -> int
    decreases exponent,
{
    if exponent == 0 {
        1
    } else {
        10 * pow10((exponent - 1) as nat)
    }
}

/// True where the text starts with a sign.
pub open spec fn has_sign(text: Seq<u8>) -> bool {
    text.len() > 0 && (text[0] == 0x2d || text[0] == 0x2b)
}

/// True where the text starts with a minus.
pub open spec fn is_negative(text: Seq<u8>) -> bool {
    text.len() > 0 && text[0] == 0x2d
}

/// The text without its sign.
pub open spec fn unsigned_part(text: Seq<u8>) -> Seq<u8> {
    if has_sign(text) {
        text.skip(1)
    } else {
        text
    }
}

/// True where the first point of `body` is at `at`, or where it has none and `at` is its
/// length.
pub open spec fn point_at(body: Seq<u8>, at: int) -> bool {
    &&& 0 <= at <= body.len()
    &&& forall|i: int| 0 <= i < at ==> #[trigger] body[i] != 0x2e
    &&& at < body.len() ==> body[at] == 0x2e
}

/// What stands before the point.
pub open spec fn integer_part(body: Seq<u8>, at: int) -> Seq<u8> {
    body.take(at)
}

/// What stands behind the point.
pub open spec fn fraction_part(body: Seq<u8>, at: int) -> Seq<u8> {
    if at < body.len() {
        body.skip(at + 1)
    } else {
        Seq::empty()
    }
}

/// True where `text` is a decimal number: a sign or none, then digits, then a point and
/// digits or neither, with at least one digit in all. The first point of the text without
/// its sign is at `at`.
pub open spec fn is_decimal(text: Seq<u8>, at: int) -> bool {
    let body = unsigned_part(text);
    &&& point_at(body, at)
    &&& all_digits(integer_part(body, at))
    &&& all_digits(fraction_part(body, at))
    &&& integer_part(body, at).len() + fraction_part(body, at).len() >= 1
}

/// The number that `text` writes, as an integer scaled by `scale` digits.
pub open spec fn scaled_value(text: Seq<u8>, at: int, scale: int) -> int {
    let body = unsigned_part(text);
    let digits = integer_part(body, at) + fraction_part(body, at);
    let magnitude = digits_value(digits) * pow10((scale - fraction_part(body, at).len()) as nat);
    if is_negative(text) {
        -magnitude
    } else {
        magnitude
    }
}

/// True where a decimal of `precision` digits, `scale` of them behind the point, holds the
/// number that `text` writes.
pub open spec fn fits_decimal(text: Seq<u8>, at: int, precision: u8, scale: i16) -> bool {
    &&& precision <= MAX_PRECISION
    &&& 0 <= scale
    &&& fraction_part(unsigned_part(text), at).len() <= scale
    &&& -pow10(precision as nat) < scaled_value(text, at, scale as int) < pow10(precision as nat)
}

/// True where `parsed` is what the text comes to as a value of the decimal type.
pub open spec fn decimal_parsed(
    text: Seq<u8>,
    precision: u8,
    scale: i16,
    parsed: Result<i128, DecimalError>,
) -> bool {
    exists|at: int|
        {
            &&& #[trigger] point_at(unsigned_part(text), at)
            &&& parsed == if !is_decimal(text, at) {
                Err::<i128, DecimalError>(DecimalError::Malformed)
            } else if !fits_decimal(text, at, precision, scale) {
                Err(DecimalError::OutOfRange)
            } else {
                Ok(scaled_value(text, at, scale as int) as i128)
            }
        }
}

/// A text has its first point in one place.
pub proof fn lemma_one_point(body: Seq<u8>, at: int, other: int)
    requires
        point_at(body, at),
        point_at(body, other),
    ensures
        at == other,
{
    if at < other {
        assert(body[at] != 0x2e);
    }
    if other < at {
        assert(body[other] != 0x2e);
    }
}

/// One more digit makes the number ten times as large, and larger by the digit.
pub proof fn lemma_digits_push(digits: Seq<u8>, digit: u8)
    ensures
        digits_value(digits.push(digit)) == digits_value(digits) * 10 + (digit - 0x30),
{
    assert(digits.push(digit).drop_last() =~= digits);
}

/// The next power of ten is ten times as large, and no power of ten is below one.
pub proof fn lemma_pow10_grows(exponent: nat)
    ensures
        pow10(exponent + 1) == 10 * pow10(exponent),
        pow10(exponent) >= 1,
    decreases exponent,
{
    if exponent > 0 {
        lemma_pow10_grows((exponent - 1) as nat);
    }
}

/// A higher power of ten is no smaller.
pub proof fn lemma_pow10_monotone(low: nat, high: nat)
    requires
        low <= high,
    ensures
        pow10(low) <= pow10(high),
    decreases high - low,
{
    if low < high {
        lemma_pow10_monotone(low, (high - 1) as nat);
        lemma_pow10_grows((high - 1) as nat);
    }
}

/// `LIMIT` is ten to the power of 38.
pub proof fn lemma_limit()
    ensures
        pow10(38) == LIMIT,
        pow10(37) * 10 == LIMIT,
{
    reveal_with_fuel(pow10, 40);
}

/// A magnitude together with the note that it has grown beyond all bounds: `value` is the
/// magnitude as long as it is below `LIMIT`.
struct Magnitude {
    value: i128,
    too_big: bool,
}

impl Magnitude {
    /// True where the magnitude stands for `exact`.
    spec fn holds(self, exact: int) -> bool {
        &&& 0 <= exact
        &&& self.too_big ==> exact >= LIMIT
        &&& !self.too_big ==> self.value == exact && exact < LIMIT
    }

    /// Ten times the magnitude, and `digit` more.
    fn times_ten_plus(self, digit: u8, Ghost(exact): Ghost<int>) -> (r: Magnitude)
        requires
            self.holds(exact),
            digit <= 9,
        ensures
            r.holds(exact * 10 + digit),
    {
        if self.too_big || self.value >= LIMIT / 10 {
            Magnitude { value: 0, too_big: true }
        } else {
            Magnitude { value: self.value * 10 + digit as i128, too_big: false }
        }
    }
}

/// Reads a value of a decimal column of `precision` digits, `scale` of them behind the
/// point, from the text in which the driver delivers it. The value is an integer: the
/// number scaled by `scale` digits. A number that the type does not hold is an error, and
/// never cut down to what the type holds.
pub fn decimal_from_text(text: &[u8], precision: u8, scale: i16) -> (r: Result<i128, DecimalError>)
    ensures
        decimal_parsed(text@, precision, scale, r),
{
    let n: usize = text.len();
    let negative: bool = n > 0 && text[0] == 0x2d;
    let start: usize = if n > 0 && (text[0] == 0x2d || text[0] == 0x2b) {
        1
    } else {
        0
    };
    let ghost body = unsigned_part(text@);
    assert(body =~= text@.skip(start as int));
    assert(forall|i: int| 0 <= i < body.len() ==> body[i] == text@[start + i]);
    // Where the point is: at the first point, or at the end.
    let mut at: usize = start;
    while at < n && text[at] != 0x2e
        invariant
            start <= at <= n,
            n == text@.len(),
            body.len() == n - start,
            forall|i: int| 0 <= i < body.len() ==> body[i] == text@[start + i],
            forall|i: int| 0 <= i < at - start ==> #[trigger] body[i] != 0x2e,
        decreases n - at,
    {
        at = at + 1;
    }
    let ghost point: int = at - start;
    assert(point_at(body, point));
    let ghost integer = integer_part(body, point);
    let ghost fraction = fraction_part(body, point);
    // The digits before the point.
    let mut magnitude = Magnitude { value: 0, too_big: false };
    let mut i: usize = start;
    assert(integer.take(0) =~= Seq::<u8>::empty());
    while i < at
        invariant
            start <= i <= at <= n,
            n == text@.len(),
            point == at - start,
            body == unsigned_part(text@),
            point_at(body, point),
            integer == integer_part(body, point),
            integer == body.take(point),
            forall|k: int| 0 <= k < body.len() ==> body[k] == text@[start + k],
            body.len() == n - start,
            all_digits(integer.take(i - start)),
            magnitude.holds(digits_value(integer.take(i - start))),
        decreases at - i,
    {
        let byte: u8 = text[i];
        assert(integer[i - start] == byte);
        if byte < 0x30 || byte > 0x39 {
            assert(!all_digits(integer));
            return Err(DecimalError::Malformed);
        }
        proof {
            assert(integer.take(i - start + 1) =~= integer.take(i - start).push(byte));
            lemma_digits_push(integer.take(i - start), byte);
        }
        magnitude = magnitude.times_ten_plus(
            byte - 0x30,
            Ghost(digits_value(integer.take(i - start))),
        );
        i = i + 1;
    }
    assert(integer.take(point) =~= integer);
    // The digits behind the point.
    let mut fraction_len: usize = 0;
    if at < n {
        let first: usize = at + 1;
        assert(fraction =~= body.skip(point + 1));
        assert(forall|k: int| 0 <= k < fraction.len() ==> fraction[k] == text@[first + k]);
        let mut j: usize = first;
        assert(integer + fraction.take(0) =~= integer);
        while j < n
            invariant
                first <= j <= n,
                n == text@.len(),
                fraction.len() == n - first,
                body == unsigned_part(text@),
                point_at(body, point),
                fraction == fraction_part(body, point),
                integer == integer_part(body, point),
                forall|k: int| 0 <= k < fraction.len() ==> fraction[k] == text@[first + k],
                all_digits(integer),
                all_digits(fraction.take(j - first)),
                magnitude.holds(digits_value(integer + fraction.take(j - first))),
            decreases n - j,
        {
            let byte: u8 = text[j];
            assert(fraction[j - first] == byte);
            if byte < 0x30 || byte > 0x39 {
                assert(!all_digits(fraction));
                return Err(DecimalError::Malformed);
            }
            proof {
                assert(integer + fraction.take(j - first + 1) =~= (integer + fraction.take(
                    j - first,
                )).push(byte));
                lemma_digits_push(integer + fraction.take(j - first), byte);
                assert(fraction.take(j - first + 1) =~= fraction.take(j - first).push(byte));
            }
            magnitude = magnitude.times_ten_plus(
                byte - 0x30,
                Ghost(digits_value(integer + fraction.take(j - first))),
            );
            j = j + 1;
        }
        assert(fraction.take(n - first) =~= fraction);
        fraction_len = n - first;
    } else {
        assert(integer + fraction =~= integer);
    }
    assert(fraction_len == fraction.len());
    assert(all_digits(integer) && all_digits(fraction));
    assert(magnitude.holds(digits_value(integer + fraction)));
    if at - start + fraction_len < 1 {
        return Err(DecimalError::Malformed);
    }
    assert(is_decimal(text@, point));
    if precision > MAX_PRECISION || scale < 0 || fraction_len > scale as usize {
        return Err(DecimalError::OutOfRange);
    }
    // The digits that the text leaves out behind the point.
    let missing: usize = scale as usize - fraction_len;
    let ghost unscaled: int = digits_value(integer + fraction);
    let mut k: usize = 0;
    while k < missing
        invariant
            k <= missing,
            0 <= unscaled,
            magnitude.holds(unscaled * pow10(k as nat)),
        decreases missing - k,
    {
        proof {
            lemma_pow10_grows(k as nat);
            assert(unscaled * pow10(k as nat) * 10 + 0 == unscaled * pow10((k + 1) as nat))
                by (nonlinear_arith)
                requires
                    pow10((k + 1) as nat) == 10 * pow10(k as nat),
            ;
        }
        magnitude = magnitude.times_ten_plus(0, Ghost(unscaled * pow10(k as nat)));
        k = k + 1;
    }
    let ghost exact: int = unscaled * pow10(missing as nat);
    assert(scaled_value(text@, point, scale as int) == if negative {
        -exact
    } else {
        exact
    });
    // The bound that the precision sets.
    let mut bound: i128 = 1;
    let mut p: u8 = 0;
    while p < precision
        invariant
            p <= precision <= MAX_PRECISION,
            bound == pow10(p as nat),
            bound <= LIMIT,
        decreases precision - p,
    {
        proof {
            lemma_pow10_grows(p as nat);
            lemma_pow10_monotone((p + 1) as nat, 38);
            lemma_limit();
        }
        bound = bound * 10;
        p = p + 1;
    }
    proof {
        lemma_limit();
        lemma_pow10_monotone(precision as nat, 38);
    }
    if magnitude.too_big || magnitude.value >= bound {
        return Err(DecimalError::OutOfRange);
    }
    assert(fits_decimal(text@, point, precision, scale));
    Ok(
        if negative {
            -magnitude.value
        } else {
            magnitude.value
        },
    )
}

/// What a text in `row` comes to in an array of decimals, once it is parsed.
pub open spec fn parsed_row(parsed: Result<i128, DecimalError>, row: int) -> Result<
    Option<i128>,
    MappingError,
> {
    match parsed {
        Ok(value) => Ok(Some(value)),
        Err(DecimalError::Malformed) => Err(MappingError::MalformedValue { row: row as usize }),
        Err(DecimalError::OutOfRange) => Err(MappingError::ValueOutOfRange { row: row as usize }),
    }
}

/// True where `converted` is what `text` in `row` comes to in an array of decimals of
/// `precision` digits, `scale` of them behind the point.
pub open spec fn text_row(
    text: Seq<u8>,
    precision: u8,
    scale: i16,
    row: int,
    converted: Result<Option<i128>, MappingError>,
) -> bool {
    exists|parsed: Result<i128, DecimalError>|
        #[trigger] decimal_parsed(text, precision, scale, parsed) && converted == parsed_row(
            parsed,
            row,
        )
}

/// True where `converted` is what the value in `row` comes to in an array of decimals of
/// `precision` digits, `scale` of them behind the point. A NULL stays a NULL.
pub open spec fn decimal_row(
    value: Option<Seq<u8>>,
    precision: u8,
    scale: i16,
    row: int,
    converted: Result<Option<i128>, MappingError>,
) -> bool {
    match value {
        None => converted == Ok::<Option<i128>, MappingError>(None),
        Some(text) => text_row(text, precision, scale, row, converted),
    }
}

/// The view of an optional text.
pub open spec fn opt_text_bytes(value: Option<Vec<u8>>) -> Option<Seq<u8>> {
    match value {
        Some(text) => Some(text@),
        None => None,
    }
}

/// Turns a column of decimals, delivered as text, into integers scaled by `scale` digits.
/// A NULL stays a NULL, in its place. The first text that is no value of the type ends the
/// conversion.
pub fn decimals_from_texts(values: &Vec<Option<Vec<u8>>>, precision: u8, scale: i16) -> (r: Result<
    Vec<Option<i128>>,
    MappingError,
>)
    ensures
        match r {
            Ok(decimals) => {
                &&& decimals@.len() == values@.len()
                &&& forall|i: int|
                    0 <= i < values@.len() ==> decimal_row(
                        opt_text_bytes(values@[i]),
                        precision,
                        scale,
                        i,
                        Ok(#[trigger] decimals@[i]),
                    )
            },
            Err(e) => exists|k: int|
                {
                    &&& 0 <= k < values@.len()
                    &&& #[trigger] decimal_row(
                        opt_text_bytes(values@[k]),
                        precision,
                        scale,
                        k,
                        Err(e),
                    )
                },
        },
{
    let mut decimals: Vec<Option<i128>> = Vec::new();
    let mut i: usize = 0;
    while i < values.len()
        invariant
            i <= values@.len(),
            decimals@.len() == i,
            forall|k: int|
                0 <= k < i ==> decimal_row(
                    opt_text_bytes(values@[k]),
                    precision,
                    scale,
                    k,
                    Ok(#[trigger] decimals@[k]),
                ),
        decreases values@.len() - i,
    {
        let converted: Option<i128> = match &values[i] {
            None => None,
            Some(text) => {
                let parsed = decimal_from_text(text.as_slice(), precision, scale);
                assert(opt_text_bytes(values@[i as int]) == Some(text@));
                assert(decimal_parsed(text@, precision, scale, parsed));
                let ghost was_parsed = parsed;
                match parsed {
                    Ok(value) => {
                        assert(parsed_row(was_parsed, i as int) == Ok::<
                            Option<i128>,
                            MappingError,
                        >(Some(value)));
                        assert(text_row(text@, precision, scale, i as int, Ok(Some(value))));
                        assert(decimal_row(
                            opt_text_bytes(values@[i as int]),
                            precision,
                            scale,
                            i as int,
                            Ok(Some(value)),
                        ));
                        Some(value)
                    },
                    Err(DecimalError::Malformed) => {
                        let e = MappingError::MalformedValue { row: i };
                        assert(parsed_row(was_parsed, i as int) == Err::<
                            Option<i128>,
                            MappingError,
                        >(e));
                        assert(text_row(text@, precision, scale, i as int, Err(e)));
                        assert(decimal_row(
                            opt_text_bytes(values@[i as int]),
                            precision,
                            scale,
                            i as int,
                            Err(e),
                        ));
                        return Err(e);
                    },
                    Err(DecimalError::OutOfRange) => {
                        let e = MappingError::ValueOutOfRange { row: i };
                        assert(parsed_row(was_parsed, i as int) == Err::<
                            Option<i128>,
                            MappingError,
                        >(e));
                        assert(text_row(text@, precision, scale, i as int, Err(e)));
                        assert(decimal_row(
                            opt_text_bytes(values@[i as int]),
                            precision,
                            scale,
                            i as int,
                            Err(e),
                        ));
                        return Err(e);
                    },
                }
            },
        };
        decimals.push(converted);
        i = i + 1;
    }
    Ok(decimals)
}

} // verus!
