use crate::digits::{
    all_digits, char_value, digit_run, digit_run_end, digits_of, digits_value, is_digit,
    lemma_digit_run, lemma_digits_of, lemma_pow10_adds, lemma_pow10_grows, lemma_value_at_least,
    lemma_value_below, lemma_value_concat, pow10, read_digits,
};
use crate::integer::{
    has_sign, integer_text, is_negative, lemma_integer_text, signed_value, unsigned_part,
};
use crate::text::chars_of;
use vstd::prelude::*;

verus! {

/// A decimal number: `coefficient` times ten to the power `exponent`, negated
/// where `negative` is set.
pub struct DecimalValue {
    pub negative: bool,
    pub coefficient: nat,
    pub exponent: int,
}

/// The one way to write a number as coefficient and exponent in which the
/// coefficient does not end in a zero; zero is written with the exponent 0.
/// Two numbers are equal exactly where their normal forms are.
pub open spec fn normal_form(negative: bool, coefficient: nat, exponent: int) -> DecimalValue
    decreases coefficient,
{
    if coefficient == 0 {
        DecimalValue { negative, coefficient: 0, exponent: 0 }
    } else if coefficient % 10 == 0 {
        normal_form(negative, coefficient / 10, exponent + 1)
    } else {
        DecimalValue { negative, coefficient, exponent }
    }
}

/// Where the digits before the decimal point start.
pub open spec fn whole_start(text: Seq<char>) -> int {
    if has_sign(text) {
        1
    } else {
        0
    }
}

/// Where the digits before the decimal point end.
pub open spec fn whole_end(text: Seq<char>) -> int {
    digit_run_end(text, whole_start(text))
}

/// Whether a decimal point follows the digits that `text` starts with.
pub open spec fn has_point(text: Seq<char>) -> bool {
    whole_end(text) < text.len() && text[whole_end(text)] == '.'
}

/// Where the digits after the decimal point start.
pub open spec fn fraction_start(text: Seq<char>) -> int {
    if has_point(text) {
        whole_end(text) + 1
    } else {
        whole_end(text)
    }
}

/// Where the digits after the decimal point end.
pub open spec fn fraction_end(text: Seq<char>) -> int {
    digit_run_end(text, fraction_start(text))
}

/// The digits of `text` before and after its decimal point, as one run.
pub open spec fn mantissa_digits(text: Seq<char>) -> Seq<char> {
    text.subrange(whole_start(text), whole_end(text)) + text.subrange(
        fraction_start(text),
        fraction_end(text),
    )
}

/// The power of ten that `text` writes out behind its digits: 0 where nothing
/// follows them, the integer behind an `e` or `E` where one follows, and
/// nothing where anything else follows.
pub open spec fn written_exponent(text: Seq<char>) -> Option<int> {
    let at = fraction_end(text);
    if at >= text.len() {
        Some(0)
    } else if text[at] == 'e' || text[at] == 'E' {
        signed_value(text.subrange(at + 1, text.len() as int))
    } else {
        None
    }
}

/// The digits of the least magnitude that no binary floating-point number of
/// 64 bits holds: two to the power 1024, less two to the power 970. What lies
/// below it rounds to a finite number of that kind; it and what lies above do not.
pub open spec fn boundary_digits() -> Seq<char> {
    "179769313486231580793728971405303415079934132710037826936173778980444968292764750946649017977587207096330286416692887910946555547851940402630657488671505820681908902000708383676273854845817711531764475730270069855571366959622842914819860834936475292719074168444365510704342711559699508093042880177904174497792"@
}

/// The magnitude that [`boundary_digits`] spells.
pub open spec fn overflow_boundary() -> nat {
    digits_value(boundary_digits())
}

/// Whether `coefficient` times ten to the power `exponent` is below the
/// [`overflow_boundary`].
pub open spec fn below_boundary(coefficient: nat, exponent: int) -> bool {
    if exponent >= 0 {
        coefficient * pow10(exponent as nat) < overflow_boundary()
    } else {
        coefficient < overflow_boundary() * pow10((-exponent) as nat)
    }
}

/// The decimal number that `text` spells, in normal form, if it spells one
/// that a binary floating-point number of 64 bits can stand for.
///
/// A number is spelled as an optional sign, digits with at most one decimal
/// point among them and at least one digit in all, and optionally an `e` or
/// `E` with a signed integer behind it. Its coefficient is what all its digits
/// spell together, however many they are; its exponent is the written one less
/// the count of digits behind the point. Its magnitude must be below the
/// [`overflow_boundary`]; there is no bound on how small it is.
pub open spec fn decimal_of(text: Seq<char>) -> Option<DecimalValue> {
    let coefficient = digits_value(mantissa_digits(text));
    let places = fraction_end(text) - fraction_start(text);
    match written_exponent(text) {
        Some(written) if mantissa_digits(text).len() > 0 && below_boundary(
            coefficient,
            written - places,
        ) => Some(normal_form(is_negative(text), coefficient, written - places)),
        _ => None,
    }
}

/// An exact decimal number that a binary floating-point number of 64 bits can
/// stand for, held as it was spelled.
///
/// Prices are kept in this form. A figure that arrives as a string is held
/// digit for digit. One that arrives as a JSON number is held as the document
/// reader hands it over, and the reader has rounded it to the nearest binary
/// floating-point number before. None is held that is out of range.
pub struct Decimal {
    text: String,
}

impl View for Decimal {
    type V = DecimalValue;

    /// The number, in normal form.
    closed spec fn view(&self) -> DecimalValue {
        decimal_of(self.text@)->Some_0
    }
}

/// An exponent as it was read.
enum Written {
    /// No signed integer.
    Malformed,
    /// An integer of a magnitude up to two to the power 100.
    Exact(i128),
    /// An integer of a larger magnitude, below zero where the flag is set.
    Beyond(bool),
}

/// Whether `written` is what `tail` spells as a signed integer.
spec fn written_agrees(written: Written, tail: Seq<char>) -> bool {
    match written {
        Written::Malformed => signed_value(tail) is None,
        Written::Exact(v) => signed_value(tail) == Some(v as int)
            && -0x10_0000_0000_0000_0000_0000_0000 <= v <= 0x10_0000_0000_0000_0000_0000_0000,
        Written::Beyond(negative) => signed_value(tail) matches Some(v) && if negative {
            v < -0x10_0000_0000_0000_0000_0000_0000
        } else {
            v > 0x10_0000_0000_0000_0000_0000_0000
        },
    }
}

/// Reads the signed integer that `chars` holds from `from` to its end.
fn read_written(chars: &Vec<char>, from: usize) -> (written: Written)
    requires
        from <= chars.len(),
    ensures
        written_agrees(written, chars@.subrange(from as int, chars.len() as int)),
{
    let n = chars.len();
    let ghost tail = chars@.subrange(from as int, n as int);
    if from == n {
        return Written::Malformed;
    }
    assert(tail[0] == chars@[from as int]);
    let negative = chars[from] == '-';
    let start: usize = if negative || chars[from] == '+' {
        from + 1
    } else {
        from
    };
    assert(unsigned_part(tail) =~= chars@.subrange(start as int, n as int));
    if start == n {
        return Written::Malformed;
    }
    let stop = digit_run(chars, start);
    if stop != n {
        assert(chars@.subrange(start as int, n as int)[stop - start] == chars@[stop as int]);
        return Written::Malformed;
    }
    match read_digits(chars, start, n) {
        Some(magnitude) => {
            if magnitude > 0x10_0000_0000_0000_0000_0000_0000u128 {
                Written::Beyond(negative)
            } else if negative {
                Written::Exact(-(magnitude as i128))
            } else {
                Written::Exact(magnitude as i128)
            }
        },
        None => Written::Beyond(negative),
    }
}

/// The characters of [`boundary_digits`].
fn boundary_chars() -> (chars: Vec<char>)
    ensures
        chars@ == boundary_digits(),
        chars@.len() == 309,
        chars@[0] == '1',
{
    proof {
        reveal_strlit("179769313486231580793728971405303415079934132710037826936173778980444968292764750946649017977587207096330286416692887910946555547851940402630657488671505820681908902000708383676273854845817711531764475730270069855571366959622842914819860834936475292719074168444365510704342711559699508093042880177904174497792");
    }
    chars_of("179769313486231580793728971405303415079934132710037826936173778980444968292764750946649017977587207096330286416692887910946555547851940402630657488671505820681908902000708383676273854845817711531764475730270069855571366959622842914819860834936475292719074168444365510704342711559699508093042880177904174497792")
}

/// The boundary lies between ten to the powers 308 and 309.
proof fn lemma_boundary()
    ensures
        pow10(308) <= overflow_boundary() < pow10(309),
{
    reveal_strlit("179769313486231580793728971405303415079934132710037826936173778980444968292764750946649017977587207096330286416692887910946555547851940402630657488671505820681908902000708383676273854845817711531764475730270069855571366959622842914819860834936475292719074168444365510704342711559699508093042880177904174497792");
    lemma_value_at_least(boundary_digits());
    lemma_value_below(boundary_digits());
}

/// A run of zeros spells zero.
proof fn lemma_zeros(count: nat)
    ensures
        digits_value(Seq::new(count, |i: int| '0')) == 0,
    decreases count,
{
    if count > 0 {
        lemma_zeros((count - 1) as nat);
        assert(Seq::new(count, |i: int| '0').drop_last() =~= Seq::new(
            (count - 1) as nat,
            |i: int| '0',
        ));
    }
}

/// Zero is below the boundary, whatever its exponent.
proof fn lemma_zero_fits(exponent: int)
    ensures
        below_boundary(0, exponent),
{
    lemma_boundary();
    lemma_pow10_grows(0, 308);
    if exponent >= 0 {
        assert(0 * pow10(exponent as nat) == 0) by (nonlinear_arith);
    } else {
        let p = pow10((-exponent) as nat);
        let b = overflow_boundary();
        lemma_pow10_grows(0, (-exponent) as nat);
        assert(0 < b * p) by (nonlinear_arith)
            requires
                1 <= b,
                1 <= p,
        ;
    }
}

/// A number whose digits, counted from the first that is no zero, end at or
/// before the 308th place before the point is below the boundary.
proof fn lemma_low(run: Seq<char>, exponent: int)
    requires
        run.len() + exponent <= 308,
    ensures
        below_boundary(digits_value(run), exponent),
{
    let c = digits_value(run);
    let n = run.len();
    let b = overflow_boundary();
    lemma_boundary();
    lemma_value_below(run);
    if exponent >= 0 {
        let q = pow10(exponent as nat);
        lemma_pow10_adds(n, exponent as nat);
        lemma_pow10_grows((n + exponent) as nat, 308);
        lemma_pow10_grows(0, exponent as nat);
        let p = pow10(n);
        assert(c * q < p * q) by (nonlinear_arith)
            requires
                c < p,
                1 <= q,
        ;
    } else {
        let r = (-exponent) as nat;
        let q = pow10(r);
        lemma_pow10_adds(308, r);
        lemma_pow10_grows(n, 308 + r);
        let a = pow10(308);
        assert(a * q <= b * q) by (nonlinear_arith)
            requires
                a <= b,
                0 <= q,
        ;
    }
}

/// A number whose first digit that is no zero stands at or before the 310th
/// place before the point is not below the boundary.
proof fn lemma_high(run: Seq<char>, exponent: int)
    requires
        run.len() >= 1,
        is_digit(run[0]),
        run[0] != '0',
        run.len() + exponent >= 310,
    ensures
        !below_boundary(digits_value(run), exponent),
{
    let c = digits_value(run);
    let n = run.len();
    let b = overflow_boundary();
    lemma_boundary();
    lemma_value_at_least(run);
    let p = pow10((n - 1) as nat);
    if exponent >= 0 {
        let q = pow10(exponent as nat);
        lemma_pow10_adds((n - 1) as nat, exponent as nat);
        lemma_pow10_grows(309, (n - 1 + exponent) as nat);
        assert(c * q >= p * q) by (nonlinear_arith)
            requires
                c >= p,
                0 <= q,
        ;
    } else {
        let r = (-exponent) as nat;
        let q = pow10(r);
        lemma_pow10_adds(309, r);
        lemma_pow10_grows(309 + r, (n - 1) as nat);
        lemma_pow10_grows(0, r);
        let a = pow10(309);
        assert(a * q > b * q) by (nonlinear_arith)
            requires
                a > b,
                1 <= q,
        ;
    }
}

/// The first 309 places of a run, filled up with zeros where the run is shorter.
spec fn window(run: Seq<char>) -> Seq<char> {
    Seq::new(
        309,
        |i: int|
            if i < run.len() {
                run[i]
            } else {
                '0'
            },
    )
}

/// A number whose first digit stands at the 309th place before the point is
/// below the boundary exactly where its first 309 places spell less than the
/// boundary.
proof fn lemma_window(run: Seq<char>, exponent: int)
    requires
        run.len() + exponent == 309,
        run.len() >= 1,
    ensures
        below_boundary(digits_value(run), exponent) == (digits_value(window(run))
            < overflow_boundary()),
{
    let c = digits_value(run);
    let w = digits_value(window(run));
    let b = overflow_boundary();
    if exponent >= 0 {
        let zeros = Seq::new(exponent as nat, |i: int| '0');
        assert(window(run) =~= run + zeros);
        lemma_value_concat(run, zeros);
        lemma_zeros(exponent as nat);
    } else {
        let r = (-exponent) as nat;
        let rest = run.skip(309);
        let q = pow10(r);
        assert(window(run) =~= run.take(309));
        assert(run =~= run.take(309) + rest);
        lemma_value_concat(run.take(309), rest);
        lemma_value_below(rest);
        let t = digits_value(rest);
        assert(c == w * q + t);
        if w < b {
            assert(w * q + t < b * q) by (nonlinear_arith)
                requires
                    w + 1 <= b,
                    t < q,
            ;
        } else {
            assert(w * q + t >= b * q) by (nonlinear_arith)
                requires
                    w >= b,
                    t >= 0,
                    q >= 0,
            ;
        }
    }
}

/// Of two runs of one length, the one whose front spells less spells less.
proof fn lemma_order(a: Seq<char>, b: Seq<char>, front: int)
    requires
        a.len() == b.len(),
        0 <= front <= a.len(),
        digits_value(a.take(front)) < digits_value(b.take(front)),
    ensures
        digits_value(a) < digits_value(b),
{
    let m = (a.len() - front) as nat;
    let q = pow10(m);
    assert(a =~= a.take(front) + a.skip(front));
    assert(b =~= b.take(front) + b.skip(front));
    lemma_value_concat(a.take(front), a.skip(front));
    lemma_value_concat(b.take(front), b.skip(front));
    lemma_value_below(a.skip(front));
    let x = digits_value(a.take(front));
    let y = digits_value(b.take(front));
    let t = digits_value(a.skip(front));
    let u = digits_value(b.skip(front));
    assert(x * q + t < y * q + u) by (nonlinear_arith)
        requires
            x + 1 <= y,
            t < q,
            u >= 0,
    ;
}

/// Tests a run of digits with its exponent for lying below the boundary.
fn fits(mantissa: &Vec<char>, written: Written, places: usize, Ghost(exponent): Ghost<int>) -> (below:
    bool)
    requires
        all_digits(mantissa@),
        match written {
            Written::Malformed => false,
            Written::Exact(v) => exponent == v - places && -0x10_0000_0000_0000_0000_0000_0000
                <= v <= 0x10_0000_0000_0000_0000_0000_0000,
            Written::Beyond(negative) => if negative {
                exponent < -0x10_0000_0000_0000_0000_0000_0000 - places
            } else {
                exponent > 0x10_0000_0000_0000_0000_0000_0000 - places
            },
        },
    ensures
        below == below_boundary(digits_value(mantissa@), exponent),
{
    let len = mantissa.len();
    let mut zeros: usize = 0;
    proof {
        assert(mantissa@.subrange(0, len as int) =~= mantissa@);
    }
    while zeros < len && mantissa[zeros] == '0'
        invariant
            zeros <= len,
            len == mantissa.len(),
            digits_value(mantissa@) == digits_value(mantissa@.subrange(zeros as int, len as int)),
        decreases len - zeros,
    {
        proof {
            let rest = mantissa@.subrange(zeros + 1, len as int);
            assert(seq!['0'] + rest =~= mantissa@.subrange(zeros as int, len as int));
            lemma_value_concat(seq!['0'], rest);
            lemma_zeros(1);
            assert(seq!['0'] =~= Seq::new(1, |i: int| '0'));
            assert(0 * pow10(rest.len()) == 0) by (nonlinear_arith);
        }
        zeros = zeros + 1;
    }
    let ghost run = mantissa@.subrange(zeros as int, len as int);
    let n = len - zeros;
    if n == 0 {
        proof {
            lemma_zero_fits(exponent);
        }
        return true;
    }
    proof {
        assert(run[0] == mantissa@[zeros as int]);
        assert(is_digit(run[0]));
    }
    let place: i128 = match written {
        Written::Exact(v) => n as i128 + v - places as i128,
        Written::Beyond(negative) => if negative {
            0
        } else {
            1000
        },
        Written::Malformed => 0,
    };
    if place <= 308 {
        proof {
            lemma_low(run, exponent);
        }
        return true;
    }
    if place >= 310 {
        proof {
            lemma_high(run, exponent);
        }
        return false;
    }
    let boundary = boundary_chars();
    let ghost shown = window(run);
    proof {
        lemma_window(run, exponent);
        assert(shown.take(0) =~= boundary@.take(0));
    }
    let mut i: usize = 0;
    while i < 309
        invariant
            i <= 309,
            n == len - zeros,
            len == mantissa.len(),
            zeros <= len,
            boundary@ == boundary_digits(),
            boundary@.len() == 309,
            run == mantissa@.subrange(zeros as int, len as int),
            shown == window(run),
            digits_value(shown.take(i as int)) == digits_value(boundary@.take(i as int)),
            below_boundary(digits_value(mantissa@), exponent) == (digits_value(shown)
                < overflow_boundary()),
        decreases 309 - i,
    {
        let ours = if i < n {
            char_value(mantissa[zeros + i])
        } else {
            0
        };
        let theirs = char_value(boundary[i]);
        proof {
            assert(shown.take(i + 1).drop_last() =~= shown.take(i as int));
            assert(boundary@.take(i + 1).drop_last() =~= boundary@.take(i as int));
            assert(shown.take(i + 1).last() == shown[i as int]);
            assert(boundary@.take(i + 1).last() == boundary@[i as int]);
            if i < n {
                assert(shown[i as int] == mantissa@[zeros + i]);
            }
        }
        if ours < theirs {
            proof {
                lemma_order(shown, boundary@, i + 1);
            }
            return true;
        }
        if ours > theirs {
            proof {
                lemma_order(boundary@, shown, i + 1);
            }
            return false;
        }
        i = i + 1;
    }
    proof {
        assert(shown.take(309) =~= shown);
        assert(boundary@.take(309) =~= boundary@);
    }
    false
}

/// Reads `text` as an exact decimal number.
pub fn parse_decimal(text: &str) -> (value: Option<Decimal>)
    ensures
        match value {
            Some(number) => decimal_of(text@) == Some(number@),
            None => decimal_of(text@) is None,
        },
{
    let chars = chars_of(text);
    let n = chars.len();
    let start: usize = if n > 0 && (chars[0] == '-' || chars[0] == '+') {
        1
    } else {
        0
    };
    let whole_stop = digit_run(&chars, start);
    let point = whole_stop < n && chars[whole_stop] == '.';
    let fraction_from: usize = if point {
        whole_stop + 1
    } else {
        whole_stop
    };
    let fraction_stop = digit_run(&chars, fraction_from);
    let mut mantissa: Vec<char> = Vec::new();
    let mut i: usize = start;
    while i < whole_stop
        invariant
            start <= i <= whole_stop <= chars.len(),
            mantissa@ == chars@.subrange(start as int, i as int),
        decreases whole_stop - i,
    {
        mantissa.push(chars[i]);
        assert(chars@.subrange(start as int, i + 1) =~= chars@.subrange(
            start as int,
            i as int,
        ).push(chars@[i as int]));
        i = i + 1;
    }
    let mut j: usize = fraction_from;
    while j < fraction_stop
        invariant
            start <= whole_stop <= chars.len(),
            fraction_from <= j <= fraction_stop <= chars.len(),
            mantissa@ == chars@.subrange(start as int, whole_stop as int) + chars@.subrange(
                fraction_from as int,
                j as int,
            ),
        decreases fraction_stop - j,
    {
        mantissa.push(chars[j]);
        assert(chars@.subrange(fraction_from as int, j + 1) =~= chars@.subrange(
            fraction_from as int,
            j as int,
        ).push(chars@[j as int]));
        j = j + 1;
    }
    assert(mantissa@ == mantissa_digits(text@));
    if mantissa.len() == 0 {
        return None;
    }
    proof {
        let whole = chars@.subrange(start as int, whole_stop as int);
        let fraction = chars@.subrange(fraction_from as int, fraction_stop as int);
        assert forall|k: int| 0 <= k < mantissa@.len() implies is_digit(
            #[trigger] mantissa@[k],
        ) by {
            if k < whole.len() {
                assert(mantissa@[k] == whole[k]);
            } else {
                assert(mantissa@[k] == fraction[k - whole.len()]);
            }
        }
    }
    let written = if fraction_stop == n {
        Written::Exact(0)
    } else if chars[fraction_stop] == 'e' || chars[fraction_stop] == 'E' {
        read_written(&chars, fraction_stop + 1)
    } else {
        Written::Malformed
    };
    if let Written::Malformed = written {
        return None;
    }
    let places = fraction_stop - fraction_from;
    let ghost exponent = written_exponent(text@)->Some_0 - places;
    if fits(&mantissa, written, places, Ghost(exponent)) {
        Some(Decimal { text: String::from_str(text) })
    } else {
        None
    }
}

impl Decimal {
    #[verifier::type_invariant]
    spec fn spelled(self) -> bool {
        decimal_of(self.text@) is Some
    }

    /// The number as it was spelled, which [`parse_decimal`] reads back as the
    /// same number.
    pub fn to_text(&self) -> (text: &String)
        ensures
            decimal_of(text@) == Some(self@),
    {
        proof {
            use_type_invariant(self);
        }
        &self.text
    }

    /// A second copy of the number.
    pub fn duplicate(&self) -> (copy: Decimal)
        ensures
            copy == *self,
    {
        proof {
            use_type_invariant(self);
        }
        Decimal { text: self.text.clone() }
    }
}

/// How a number is written out: a minus sign where it is negative, the digits
/// of its coefficient, an `e`, and its exponent.
pub open spec fn decimal_text(number: DecimalValue) -> Seq<char> {
    (if number.negative {
        seq!['-']
    } else {
        Seq::<char>::empty()
    }) + digits_of(number.coefficient) + seq!['e'] + integer_text(number.exponent)
}

/// A number in normal form and below the boundary that is written out spells
/// itself: reading what was written gives the number back.
pub proof fn lemma_decimal_text(number: DecimalValue)
    requires
        normal_form(number.negative, number.coefficient, number.exponent) == number,
        below_boundary(number.coefficient, number.exponent),
    ensures
        decimal_of(decimal_text(number)) == Some(number),
{
    let text = decimal_text(number);
    let digits = digits_of(number.coefficient);
    let start: int = if number.negative {
        1
    } else {
        0
    };
    let stop = start + digits.len();
    lemma_digits_of(number.coefficient);
    lemma_integer_text(number.exponent);
    assert(text.subrange(start, stop) =~= digits);
    assert(text[stop] == 'e');
    if number.negative {
        assert(text[0] == '-');
    } else {
        assert(text[0] == digits[0]);
        assert(is_digit(text[0]));
    }
    assert(whole_start(text) == start);
    lemma_digit_run(text, start, stop);
    assert(!has_point(text));
    assert(text.subrange(stop, stop) =~= Seq::<char>::empty());
    lemma_digit_run(text, stop, stop);
    assert(mantissa_digits(text) =~= digits);
    assert(text.subrange(stop + 1, text.len() as int) =~= integer_text(number.exponent));
}

/// The normal form of a number is the same number: the same sign, and a
/// coefficient and an exponent that give the same product. Its coefficient
/// does not end in a zero, so there is no second way to write it.
pub proof fn lemma_normal_form(negative: bool, coefficient: nat, exponent: int)
    ensures
        normal_form(negative, coefficient, exponent).negative == negative,
        coefficient == 0 ==> normal_form(negative, coefficient, exponent).coefficient == 0
            && normal_form(negative, coefficient, exponent).exponent == 0,
        coefficient > 0 ==> normal_form(negative, coefficient, exponent).exponent >= exponent
            && normal_form(negative, coefficient, exponent).coefficient % 10 != 0 && coefficient
            == normal_form(negative, coefficient, exponent).coefficient * pow10(
            (normal_form(negative, coefficient, exponent).exponent - exponent) as nat,
        ),
    decreases coefficient,
{
    if coefficient > 0 {
        if coefficient % 10 == 0 {
            lemma_normal_form(negative, coefficient / 10, exponent + 1);
            let normal = normal_form(negative, coefficient, exponent);
            let shift = (normal.exponent - exponent - 1) as nat;
            assert(pow10(shift + 1) == 10 * pow10(shift));
            assert(normal.coefficient * (10 * pow10(shift)) == (normal.coefficient * pow10(shift))
                * 10) by (nonlinear_arith);
        } else {
            assert(coefficient * 1 == coefficient) by (nonlinear_arith);
        }
    }
}

/// A zero at the end of the digits changes nothing: a coefficient ten times as
/// large with an exponent one less is the same number, as `190.80` and `190.8` are.
pub proof fn lemma_trailing_zero(negative: bool, coefficient: nat, exponent: int)
    ensures
        normal_form(negative, coefficient * 10, exponent - 1) == normal_form(
            negative,
            coefficient,
            exponent,
        ),
{
    if coefficient > 0 {
        assert((coefficient * 10) % 10 == 0 && (coefficient * 10) / 10 == coefficient)
            by (nonlinear_arith);
    }
}

/// However a number is split into coefficient and exponent, its normal form is
/// the same: a coefficient that is larger by some power of ten, with an
/// exponent that is smaller by as much, is the same number.
pub proof fn lemma_same_number(negative: bool, coefficient: nat, exponent: int, shift: nat)
    ensures
        normal_form(negative, coefficient * pow10(shift), exponent - shift) == normal_form(
            negative,
            coefficient,
            exponent,
        ),
    decreases shift,
{
    if shift == 0 {
        assert(coefficient * 1 == coefficient) by (nonlinear_arith);
    } else {
        let less = pow10((shift - 1) as nat);
        assert(coefficient * (10 * less) == (coefficient * less) * 10) by (nonlinear_arith);
        lemma_trailing_zero(negative, coefficient * less, exponent - shift + 1);
        lemma_same_number(negative, coefficient, exponent, (shift - 1) as nat);
    }
}

} // verus!
