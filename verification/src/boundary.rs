use crate::decimal::{boundary_digits, overflow_boundary};
use crate::digits::{digit_value, digits_value, lemma_value_concat, pow10};
use vstd::arithmetic::power2::{lemma2_to64, lemma_pow2_adds, pow2};
use vstd::prelude::*;

verus! {

/// What a run of three characters spells.
proof fn lemma_three(s: Seq<char>)
    requires
        s.len() == 3,
    ensures
        digits_value(s) == 100 * digit_value(s[0]) + 10
            * digit_value(s[1]) + digit_value(s[2]),
{
    assert(s.drop_last().drop_last().drop_last() =~= Seq::<char>::empty());
    assert(s.drop_last()[0] == s[0] && s.drop_last()[1] == s[1]);
    assert(s.drop_last().drop_last()[0] == s[0]);
    reveal_with_fuel(digits_value, 4);
}

/// What a run of nine characters spells, from what its three thirds spell.
proof fn lemma_nine(s: Seq<char>)
    requires
        s.len() == 9,
    ensures
        digits_value(s) == 1000000 * digits_value(s.subrange(0, 3)) + 1000 * digits_value(
            s.subrange(3, 6),
        ) + digits_value(s.subrange(6, 9)),
{
    reveal_with_fuel(pow10, 4);
    assert(pow10(3) == 1000);
    assert(s.subrange(6, 9).len() == 3 && s.subrange(3, 6).len() == 3);
    assert(s =~= s.subrange(0, 6) + s.subrange(6, 9));
    assert(s.subrange(0, 6) =~= s.subrange(0, 3) + s.subrange(3, 6));
    lemma_value_concat(s.subrange(0, 6), s.subrange(6, 9));
    lemma_value_concat(s.subrange(0, 3), s.subrange(3, 6));
}

/// What the nine characters of `s` from `at` on spell, digit by digit.
proof fn lemma_chunk(s: Seq<char>, at: int)
    requires
        0 <= at,
        at + 9 <= s.len(),
    ensures
        digits_value(s.subrange(at, at + 9)) == 100000000 * digit_value(s[at])
            + 10000000 * digit_value(s[at + 1]) + 1000000
            * digit_value(s[at + 2]) + 100000 * digit_value(
            s[at + 3],
        ) + 10000 * digit_value(s[at + 4]) + 1000 * digit_value(
            s[at + 5],
        ) + 100 * digit_value(s[at + 6]) + 10 * digit_value(
            s[at + 7],
        ) + digit_value(s[at + 8]),
{
    let c = s.subrange(at, at + 9);
    lemma_nine(c);
    lemma_three(c.subrange(0, 3));
    lemma_three(c.subrange(3, 6));
    lemma_three(c.subrange(6, 9));
}

/// The value of the boundary, written out.
pub open spec fn boundary_value() -> nat {
    179769313486231580793728971405303415079934132710037826936173778980444968292764750946649017977587207096330286416692887910946555547851940402630657488671505820681908902000708383676273854845817711531764475730270069855571366959622842914819860834936475292719074168444365510704342711559699508093042880177904174497792nat
}

/// The digits of the boundary spell its value.
pub proof fn lemma_boundary_digits()
    ensures
        overflow_boundary() == boundary_value(),
{
    let b = boundary_digits();
    reveal_strlit("179769313486231580793728971405303415079934132710037826936173778980444968292764750946649017977587207096330286416692887910946555547851940402630657488671505820681908902000708383676273854845817711531764475730270069855571366959622842914819860834936475292719074168444365510704342711559699508093042880177904174497792");
    reveal_with_fuel(pow10, 10);
    assert(pow10(9) == 1000000000);
    assert(digits_value(b.take(3)) == 179) by {
        lemma_three(b.take(3));
    }
    assert(digits_value(b.take(12)) == 179769313486nat) by {
        assert(b.take(12) =~= b.take(3) + b.subrange(3, 12));
        lemma_value_concat(b.take(3), b.subrange(3, 12));
        lemma_chunk(b, 3);
    }
    assert(digits_value(b.take(21)) == 179769313486231580793nat) by {
        assert(b.take(21) =~= b.take(12) + b.subrange(12, 21));
        lemma_value_concat(b.take(12), b.subrange(12, 21));
        lemma_chunk(b, 12);
    }
    assert(digits_value(b.take(30)) == 179769313486231580793728971405nat) by {
        assert(b.take(30) =~= b.take(21) + b.subrange(21, 30));
        lemma_value_concat(b.take(21), b.subrange(21, 30));
        lemma_chunk(b, 21);
    }
    assert(digits_value(b.take(39)) == 179769313486231580793728971405303415079nat) by {
        assert(b.take(39) =~= b.take(30) + b.subrange(30, 39));
        lemma_value_concat(b.take(30), b.subrange(30, 39));
        lemma_chunk(b, 30);
    }
    assert(digits_value(b.take(48)) == 179769313486231580793728971405303415079934132710nat) by {
        assert(b.take(48) =~= b.take(39) + b.subrange(39, 48));
        lemma_value_concat(b.take(39), b.subrange(39, 48));
        lemma_chunk(b, 39);
    }
    assert(digits_value(b.take(57)) == 179769313486231580793728971405303415079934132710037826936nat) by {
        assert(b.take(57) =~= b.take(48) + b.subrange(48, 57));
        lemma_value_concat(b.take(48), b.subrange(48, 57));
        lemma_chunk(b, 48);
    }
    assert(digits_value(b.take(66)) == 179769313486231580793728971405303415079934132710037826936173778980nat) by {
        assert(b.take(66) =~= b.take(57) + b.subrange(57, 66));
        lemma_value_concat(b.take(57), b.subrange(57, 66));
        lemma_chunk(b, 57);
    }
    assert(digits_value(b.take(75)) == 179769313486231580793728971405303415079934132710037826936173778980444968292nat) by {
        assert(b.take(75) =~= b.take(66) + b.subrange(66, 75));
        lemma_value_concat(b.take(66), b.subrange(66, 75));
        lemma_chunk(b, 66);
    }
    assert(digits_value(b.take(84)) == 179769313486231580793728971405303415079934132710037826936173778980444968292764750946nat) by {
        assert(b.take(84) =~= b.take(75) + b.subrange(75, 84));
        lemma_value_concat(b.take(75), b.subrange(75, 84));
        lemma_chunk(b, 75);
    }
    assert(digits_value(b.take(93)) == 179769313486231580793728971405303415079934132710037826936173778980444968292764750946649017977nat) by {
        assert(b.take(93) =~= b.take(84) + b.subrange(84, 93));
        lemma_value_concat(b.take(84), b.subrange(84, 93));
        lemma_chunk(b, 84);
    }
    assert(digits_value(b.take(102)) == 179769313486231580793728971405303415079934132710037826936173778980444968292764750946649017977587207096nat) by {
        assert(b.take(102) =~= b.take(93) + b.subrange(93, 102));
        lemma_value_concat(b.take(93), b.subrange(93, 102));
        lemma_chunk(b, 93);
    }
    assert(digits_value(b.take(111)) == 179769313486231580793728971405303415079934132710037826936173778980444968292764750946649017977587207096330286416nat) by {
        assert(b.take(111) =~= b.take(102) + b.subrange(102, 111));
        lemma_value_concat(b.take(102), b.subrange(102, 111));
        lemma_chunk(b, 102);
    }
    assert(digits_value(b.take(120)) == 179769313486231580793728971405303415079934132710037826936173778980444968292764750946649017977587207096330286416692887910nat) by {
        assert(b.take(120) =~= b.take(111) + b.subrange(111, 120));
        lemma_value_concat(b.take(111), b.subrange(111, 120));
        lemma_chunk(b, 111);
    }
    assert(digits_value(b.take(129)) == 179769313486231580793728971405303415079934132710037826936173778980444968292764750946649017977587207096330286416692887910946555547nat) by {
        assert(b.take(129) =~= b.take(120) + b.subrange(120, 129));
        lemma_value_concat(b.take(120), b.subrange(120, 129));
        lemma_chunk(b, 120);
    }
    assert(digits_value(b.take(138)) == 179769313486231580793728971405303415079934132710037826936173778980444968292764750946649017977587207096330286416692887910946555547851940402nat) by {
        assert(b.take(138) =~= b.take(129) + b.subrange(129, 138));
        lemma_value_concat(b.take(129), b.subrange(129, 138));
        lemma_chunk(b, 129);
    }
    assert(digits_value(b.take(147)) == 179769313486231580793728971405303415079934132710037826936173778980444968292764750946649017977587207096330286416692887910946555547851940402630657488nat) by {
        assert(b.take(147) =~= b.take(138) + b.subrange(138, 147));
        lemma_value_concat(b.take(138), b.subrange(138, 147));
        lemma_chunk(b, 138);
    }
    assert(digits_value(b.take(156)) == 179769313486231580793728971405303415079934132710037826936173778980444968292764750946649017977587207096330286416692887910946555547851940402630657488671505820nat) by {
        assert(b.take(156) =~= b.take(147) + b.subrange(147, 156));
        lemma_value_concat(b.take(147), b.subrange(147, 156));
        lemma_chunk(b, 147);
    }
    assert(digits_value(b.take(165)) == 179769313486231580793728971405303415079934132710037826936173778980444968292764750946649017977587207096330286416692887910946555547851940402630657488671505820681908902nat) by {
        assert(b.take(165) =~= b.take(156) + b.subrange(156, 165));
        lemma_value_concat(b.take(156), b.subrange(156, 165));
        lemma_chunk(b, 156);
    }
    assert(digits_value(b.take(174)) == 179769313486231580793728971405303415079934132710037826936173778980444968292764750946649017977587207096330286416692887910946555547851940402630657488671505820681908902000708383nat) by {
        assert(b.take(174) =~= b.take(165) + b.subrange(165, 174));
        lemma_value_concat(b.take(165), b.subrange(165, 174));
        lemma_chunk(b, 165);
    }
    assert(digits_value(b.take(183)) == 179769313486231580793728971405303415079934132710037826936173778980444968292764750946649017977587207096330286416692887910946555547851940402630657488671505820681908902000708383676273854nat) by {
        assert(b.take(183) =~= b.take(174) + b.subrange(174, 183));
        lemma_value_concat(b.take(174), b.subrange(174, 183));
        lemma_chunk(b, 174);
    }
    assert(digits_value(b.take(192)) == 179769313486231580793728971405303415079934132710037826936173778980444968292764750946649017977587207096330286416692887910946555547851940402630657488671505820681908902000708383676273854845817711nat) by {
        assert(b.take(192) =~= b.take(183) + b.subrange(183, 192));
        lemma_value_concat(b.take(183), b.subrange(183, 192));
        lemma_chunk(b, 183);
    }
    assert(digits_value(b.take(201)) == 179769313486231580793728971405303415079934132710037826936173778980444968292764750946649017977587207096330286416692887910946555547851940402630657488671505820681908902000708383676273854845817711531764475nat) by {
        assert(b.take(201) =~= b.take(192) + b.subrange(192, 201));
        lemma_value_concat(b.take(192), b.subrange(192, 201));
        lemma_chunk(b, 192);
    }
    assert(digits_value(b.take(210)) == 179769313486231580793728971405303415079934132710037826936173778980444968292764750946649017977587207096330286416692887910946555547851940402630657488671505820681908902000708383676273854845817711531764475730270069nat) by {
        assert(b.take(210) =~= b.take(201) + b.subrange(201, 210));
        lemma_value_concat(b.take(201), b.subrange(201, 210));
        lemma_chunk(b, 201);
    }
    assert(digits_value(b.take(219)) == 179769313486231580793728971405303415079934132710037826936173778980444968292764750946649017977587207096330286416692887910946555547851940402630657488671505820681908902000708383676273854845817711531764475730270069855571366nat) by {
        assert(b.take(219) =~= b.take(210) + b.subrange(210, 219));
        lemma_value_concat(b.take(210), b.subrange(210, 219));
        lemma_chunk(b, 210);
    }
    assert(digits_value(b.take(228)) == 179769313486231580793728971405303415079934132710037826936173778980444968292764750946649017977587207096330286416692887910946555547851940402630657488671505820681908902000708383676273854845817711531764475730270069855571366959622842nat) by {
        assert(b.take(228) =~= b.take(219) + b.subrange(219, 228));
        lemma_value_concat(b.take(219), b.subrange(219, 228));
        lemma_chunk(b, 219);
    }
    assert(digits_value(b.take(237)) == 179769313486231580793728971405303415079934132710037826936173778980444968292764750946649017977587207096330286416692887910946555547851940402630657488671505820681908902000708383676273854845817711531764475730270069855571366959622842914819860nat) by {
        assert(b.take(237) =~= b.take(228) + b.subrange(228, 237));
        lemma_value_concat(b.take(228), b.subrange(228, 237));
        lemma_chunk(b, 228);
    }
    assert(digits_value(b.take(246)) == 179769313486231580793728971405303415079934132710037826936173778980444968292764750946649017977587207096330286416692887910946555547851940402630657488671505820681908902000708383676273854845817711531764475730270069855571366959622842914819860834936475nat) by {
        assert(b.take(246) =~= b.take(237) + b.subrange(237, 246));
        lemma_value_concat(b.take(237), b.subrange(237, 246));
        lemma_chunk(b, 237);
    }
    assert(digits_value(b.take(255)) == 179769313486231580793728971405303415079934132710037826936173778980444968292764750946649017977587207096330286416692887910946555547851940402630657488671505820681908902000708383676273854845817711531764475730270069855571366959622842914819860834936475292719074nat) by {
        assert(b.take(255) =~= b.take(246) + b.subrange(246, 255));
        lemma_value_concat(b.take(246), b.subrange(246, 255));
        lemma_chunk(b, 246);
    }
    assert(digits_value(b.take(264)) == 179769313486231580793728971405303415079934132710037826936173778980444968292764750946649017977587207096330286416692887910946555547851940402630657488671505820681908902000708383676273854845817711531764475730270069855571366959622842914819860834936475292719074168444365nat) by {
        assert(b.take(264) =~= b.take(255) + b.subrange(255, 264));
        lemma_value_concat(b.take(255), b.subrange(255, 264));
        lemma_chunk(b, 255);
    }
    assert(digits_value(b.take(273)) == 179769313486231580793728971405303415079934132710037826936173778980444968292764750946649017977587207096330286416692887910946555547851940402630657488671505820681908902000708383676273854845817711531764475730270069855571366959622842914819860834936475292719074168444365510704342nat) by {
        assert(b.take(273) =~= b.take(264) + b.subrange(264, 273));
        lemma_value_concat(b.take(264), b.subrange(264, 273));
        lemma_chunk(b, 264);
    }
    assert(digits_value(b.take(282)) == 179769313486231580793728971405303415079934132710037826936173778980444968292764750946649017977587207096330286416692887910946555547851940402630657488671505820681908902000708383676273854845817711531764475730270069855571366959622842914819860834936475292719074168444365510704342711559699nat) by {
        assert(b.take(282) =~= b.take(273) + b.subrange(273, 282));
        lemma_value_concat(b.take(273), b.subrange(273, 282));
        lemma_chunk(b, 273);
    }
    assert(digits_value(b.take(291)) == 179769313486231580793728971405303415079934132710037826936173778980444968292764750946649017977587207096330286416692887910946555547851940402630657488671505820681908902000708383676273854845817711531764475730270069855571366959622842914819860834936475292719074168444365510704342711559699508093042nat) by {
        assert(b.take(291) =~= b.take(282) + b.subrange(282, 291));
        lemma_value_concat(b.take(282), b.subrange(282, 291));
        lemma_chunk(b, 282);
    }
    assert(digits_value(b.take(300)) == 179769313486231580793728971405303415079934132710037826936173778980444968292764750946649017977587207096330286416692887910946555547851940402630657488671505820681908902000708383676273854845817711531764475730270069855571366959622842914819860834936475292719074168444365510704342711559699508093042880177904nat) by {
        assert(b.take(300) =~= b.take(291) + b.subrange(291, 300));
        lemma_value_concat(b.take(291), b.subrange(291, 300));
        lemma_chunk(b, 291);
    }
    assert(digits_value(b.take(309)) == 179769313486231580793728971405303415079934132710037826936173778980444968292764750946649017977587207096330286416692887910946555547851940402630657488671505820681908902000708383676273854845817711531764475730270069855571366959622842914819860834936475292719074168444365510704342711559699508093042880177904174497792nat) by {
        assert(b.take(309) =~= b.take(300) + b.subrange(300, 309));
        lemma_value_concat(b.take(300), b.subrange(300, 309));
        lemma_chunk(b, 300);
    }
    assert(b.take(309) =~= b);
}

/// The boundary is two to the power 1024, less two to the power 970: the
/// least magnitude that rounds to no binary floating-point number of 64 bits.
pub proof fn lemma_boundary_is_the_overflow_threshold()
    ensures
        overflow_boundary() == pow2(1024) - pow2(970),
{
    lemma_boundary_digits();
    lemma2_to64();
    assert(pow2(128) == 340282366920938463463374607431768211456nat) by {
        lemma_pow2_adds(64, 64);
        assert(18446744073709551616nat * 18446744073709551616nat == 340282366920938463463374607431768211456nat);
    }
    assert(pow2(256) == 115792089237316195423570985008687907853269984665640564039457584007913129639936nat) by {
        lemma_pow2_adds(128, 128);
        assert(340282366920938463463374607431768211456nat * 340282366920938463463374607431768211456nat == 115792089237316195423570985008687907853269984665640564039457584007913129639936nat);
    }
    assert(pow2(512) == 13407807929942597099574024998205846127479365820592393377723561443721764030073546976801874298166903427690031858186486050853753882811946569946433649006084096nat) by {
        lemma_pow2_adds(256, 256);
        assert(115792089237316195423570985008687907853269984665640564039457584007913129639936nat * 115792089237316195423570985008687907853269984665640564039457584007913129639936nat == 13407807929942597099574024998205846127479365820592393377723561443721764030073546976801874298166903427690031858186486050853753882811946569946433649006084096nat);
    }
    assert(pow2(1024) == 179769313486231590772930519078902473361797697894230657273430081157732675805500963132708477322407536021120113879871393357658789768814416622492847430639474124377767893424865485276302219601246094119453082952085005768838150682342462881473913110540827237163350510684586298239947245938479716304835356329624224137216nat) by {
        lemma_pow2_adds(512, 512);
        assert(13407807929942597099574024998205846127479365820592393377723561443721764030073546976801874298166903427690031858186486050853753882811946569946433649006084096nat * 13407807929942597099574024998205846127479365820592393377723561443721764030073546976801874298166903427690031858186486050853753882811946569946433649006084096nat == 179769313486231590772930519078902473361797697894230657273430081157732675805500963132708477322407536021120113879871393357658789768814416622492847430639474124377767893424865485276302219601246094119453082952085005768838150682342462881473913110540827237163350510684586298239947245938479716304835356329624224137216nat);
    }
    assert(pow2(74) == 18889465931478580854784nat) by {
        lemma_pow2_adds(64, 10);
        assert(18446744073709551616nat * 1024nat == 18889465931478580854784nat);
    }
    assert(pow2(202) == 6427752177035961102167848369364650410088811975131171341205504nat) by {
        lemma_pow2_adds(128, 74);
        assert(340282366920938463463374607431768211456nat * 18889465931478580854784nat == 6427752177035961102167848369364650410088811975131171341205504nat);
    }
    assert(pow2(458) == 744282853678701455922507579277316643178128753343813693728245963960974631028119473486019635930893891134220822124816566203939432067701407744nat) by {
        lemma_pow2_adds(256, 202);
        assert(115792089237316195423570985008687907853269984665640564039457584007913129639936nat * 6427752177035961102167848369364650410088811975131171341205504nat == 744282853678701455922507579277316643178128753343813693728245963960974631028119473486019635930893891134220822124816566203939432067701407744nat);
    }
    assert(pow2(970) == 9979201547673599058281863565184192830337256302177287707512736212186059459344820328924789827463178505446712234220962476219862189941967968303695858991424157101600028364755428382587688607221814935913266783722719619966654052275604351944444276342240220787535604534378780208211792476151720049639424nat) by {
        lemma_pow2_adds(512, 458);
        assert(13407807929942597099574024998205846127479365820592393377723561443721764030073546976801874298166903427690031858186486050853753882811946569946433649006084096nat * 744282853678701455922507579277316643178128753343813693728245963960974631028119473486019635930893891134220822124816566203939432067701407744nat == 9979201547673599058281863565184192830337256302177287707512736212186059459344820328924789827463178505446712234220962476219862189941967968303695858991424157101600028364755428382587688607221814935913266783722719619966654052275604351944444276342240220787535604534378780208211792476151720049639424nat);
    }
}

} // verus!
