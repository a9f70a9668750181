use vstd::prelude::*;
use vstd::arithmetic::power2::{pow2, lemma_pow2_adds, lemma_pow2_pos, lemma_pow2_strictly_increases, lemma2_to64, lemma2_to64_rest};

verus! {

/// `x` to the 24th power.
pub open spec fn pow24(x: nat) -> nat {
    let x2 = x * x;
    let x3 = x2 * x;
    let x6 = x3 * x3;
    let x12 = x6 * x6;
    x12 * x12
}

/// Integer significand of the non-negative finite single whose bits are
/// `bits`; its value is `f32_mantissa(bits) * 2^(f32_binade(bits) - 150)`.
pub open spec fn f32_mantissa(bits: u32) -> nat {
    let e = bits / 0x800000;
    let f = bits % 0x800000;
    if e == 0 { f as nat } else { (f + 0x800000) as nat }
}

/// Binary exponent (biased) of the non-negative finite single `bits`.
pub open spec fn f32_binade(bits: u32) -> nat {
    let e = bits / 0x800000;
    if e == 0 { 1 } else { e as nat }
}

/// The value of the non-negative finite single `bits`, times `2^150`.
pub open spec fn f32_scaled(bits: u32) -> nat {
    f32_mantissa(bits) * pow2(f32_binade(bits))
}

/// The frequency held by the non-negative finite single `bits` is at least
/// the lower edge of MIDI note `n`, `440 * 2^((n - 69.5) / 12)` Hz: raised to
/// the 24th power and scaled by `2^(24 * 150)`, the edge is
/// `440^24 * 2^(2n + 3461)`.
pub open spec fn reaches_note(bits: u32, n: nat) -> bool {
    pow24(f32_scaled(bits)) >= pow24(440) * pow2(2 * n + 3461)
}

/// Bits of the smallest single at or above the lower edge of each note
/// `1 ..= 127`, in order: entry `n - 1` belongs to note `n`.
pub const NOTE_EDGES: [u32; 127] = [
    0x4106a55a, 0x410ea701, 0x41172289, 0x41201f32, 0x4129a4a9, 0x4133bb10,
    0x413e6b05, 0x4149bdab, 0x4155bcae, 0x4162724e, 0x416fe966, 0x417e2d77,
    0x4186a55a, 0x418ea701, 0x41972289, 0x41a01f32, 0x41a9a4a9, 0x41b3bb10,
    0x41be6b05, 0x41c9bdab, 0x41d5bcae, 0x41e2724e, 0x41efe966, 0x41fe2d77,
    0x4206a55a, 0x420ea701, 0x42172289, 0x42201f32, 0x4229a4a9, 0x4233bb10,
    0x423e6b05, 0x4249bdab, 0x4255bcae, 0x4262724e, 0x426fe966, 0x427e2d77,
    0x4286a55a, 0x428ea701, 0x42972289, 0x42a01f32, 0x42a9a4a9, 0x42b3bb10,
    0x42be6b05, 0x42c9bdab, 0x42d5bcae, 0x42e2724e, 0x42efe966, 0x42fe2d77,
    0x4306a55a, 0x430ea701, 0x43172289, 0x43201f32, 0x4329a4a9, 0x4333bb10,
    0x433e6b05, 0x4349bdab, 0x4355bcae, 0x4362724e, 0x436fe966, 0x437e2d77,
    0x4386a55a, 0x438ea701, 0x43972289, 0x43a01f32, 0x43a9a4a9, 0x43b3bb10,
    0x43be6b05, 0x43c9bdab, 0x43d5bcae, 0x43e2724e, 0x43efe966, 0x43fe2d77,
    0x4406a55a, 0x440ea701, 0x44172289, 0x44201f32, 0x4429a4a9, 0x4433bb10,
    0x443e6b05, 0x4449bdab, 0x4455bcae, 0x4462724e, 0x446fe966, 0x447e2d77,
    0x4486a55a, 0x448ea701, 0x44972289, 0x44a01f32, 0x44a9a4a9, 0x44b3bb10,
    0x44be6b05, 0x44c9bdab, 0x44d5bcae, 0x44e2724e, 0x44efe966, 0x44fe2d77,
    0x4506a55a, 0x450ea701, 0x45172289, 0x45201f32, 0x4529a4a9, 0x4533bb10,
    0x453e6b05, 0x4549bdab, 0x4555bcae, 0x4562724e, 0x456fe966, 0x457e2d77,
    0x4586a55a, 0x458ea701, 0x45972289, 0x45a01f32, 0x45a9a4a9, 0x45b3bb10,
    0x45be6b05, 0x45c9bdab, 0x45d5bcae, 0x45e2724e, 0x45efe966, 0x45fe2d77,
    0x4606a55a, 0x460ea701, 0x46172289, 0x46201f32, 0x4629a4a9, 0x4633bb10,
    0x463e6b05,
];

/// Bits of the smallest single at or above the lower edge of note `n`.
pub open spec fn note_edge(n: nat) -> u32 {
    NOTE_EDGES@[n - 1]
}

proof fn lemma_mul_swap(p: nat, q: nat, r: nat, s: nat)
    by (nonlinear_arith)
    ensures
        (p * q) * (r * s) == (p * r) * (q * s),
{
}

proof fn lemma_pow24_mul(a: nat, b: nat)
    ensures
        pow24(a * b) == pow24(a) * pow24(b),
{
    let a2 = a * a;
    let b2 = b * b;
    lemma_mul_swap(a, b, a, b);
    let a3 = a2 * a;
    let b3 = b2 * b;
    lemma_mul_swap(a2, b2, a, b);
    let a6 = a3 * a3;
    let b6 = b3 * b3;
    lemma_mul_swap(a3, b3, a3, b3);
    let a12 = a6 * a6;
    let b12 = b6 * b6;
    lemma_mul_swap(a6, b6, a6, b6);
    lemma_mul_swap(a12, b12, a12, b12);
}

proof fn lemma_pow24_pow2(e: nat)
    ensures
        pow24(pow2(e)) == pow2(24 * e),
{
    lemma_pow2_adds(e, e);
    lemma_pow2_adds(2 * e, e);
    lemma_pow2_adds(3 * e, 3 * e);
    lemma_pow2_adds(6 * e, 6 * e);
    lemma_pow2_adds(12 * e, 12 * e);
}

proof fn lemma_mul_le(x: nat, y: nat, u: nat, v: nat)
    by (nonlinear_arith)
    requires
        x <= y,
        u <= v,
    ensures
        x * u <= y * v,
{
}

proof fn lemma_pow24_monotone(a: nat, b: nat)
    requires
        a <= b,
    ensures
        pow24(a) <= pow24(b),
{
    lemma_mul_le(a, b, a, b);
    lemma_mul_le(a * a, b * b, a, b);
    let a3 = a * a * a;
    let b3 = b * b * b;
    lemma_mul_le(a3, b3, a3, b3);
    lemma_mul_le(a3 * a3, b3 * b3, a3 * a3, b3 * b3);
    let a12 = (a3 * a3) * (a3 * a3);
    let b12 = (b3 * b3) * (b3 * b3);
    lemma_mul_le(a12, b12, a12, b12);
}

/// A larger bit pattern below `+inf` holds a larger (or equal) value.
proof fn lemma_scaled_monotone(b1: u32, b2: u32)
    requires
        b1 <= b2 < 0x7f800000,
    ensures
        f32_scaled(b1) <= f32_scaled(b2),
{
    let e1 = b1 / 0x800000;
    let e2 = b2 / 0x800000;
    let m1 = f32_mantissa(b1);
    let m2 = f32_mantissa(b2);
    let x1 = f32_binade(b1);
    let x2 = f32_binade(b2);
    lemma_pow2_pos(x1);
    lemma_pow2_pos(x2);
    if e1 == e2 {
        lemma_mul_le(m1, m2, pow2(x1), pow2(x2));
    } else if e1 == 0 {
        lemma2_to64();
        assert(x1 == 1 && x2 >= 1 && m1 < 0x800000 && m2 >= 0x800000);
        if x2 > 1 {
            lemma_pow2_strictly_increases(1, x2);
        }
        lemma_mul_le(m1, 0x800000, pow2(x1), pow2(x1));
        lemma_mul_le(0x800000, m2, pow2(x1), pow2(x2));
    } else {
        assert(e1 < e2);
        lemma_pow2_adds(x1, 1);
        lemma2_to64();
        if x1 + 1 < x2 {
            lemma_pow2_strictly_increases(x1 + 1, x2);
        }
        assert(pow2(x1 + 1) <= pow2(x2));
        assert(m1 * pow2(x1) <= 0x1000000 * pow2(x1)) by {
            lemma_mul_le(m1, 0x1000000, pow2(x1), pow2(x1));
        }
        assert(0x1000000 * pow2(x1) == 0x800000 * pow2(x1 + 1));
        lemma_mul_le(0x800000, m2, pow2(x1 + 1), pow2(x2));
    }
}

/// Reaching a note is preserved by moving to a larger bit pattern below `+inf`.
proof fn lemma_reaches_monotone(b1: u32, b2: u32, n: nat)
    requires
        b1 <= b2 < 0x7f800000,
        reaches_note(b1, n),
    ensures
        reaches_note(b2, n),
{
    lemma_scaled_monotone(b1, b2);
    lemma_pow24_monotone(f32_scaled(b1), f32_scaled(b2));
}

/// A value that reaches a note reaches every lower note too.
pub proof fn lemma_reaches_lower_notes(bits: u32, n1: nat, n2: nat)
    requires
        n1 <= n2,
        reaches_note(bits, n2),
    ensures
        reaches_note(bits, n1),
{
    if n1 < n2 {
        lemma_pow2_strictly_increases(2 * n1 + 3461, 2 * n2 + 3461);
        lemma_mul_le(pow24(440), pow24(440), pow2(2 * n1 + 3461), pow2(2 * n2 + 3461));
    }
}

proof fn lemma_pow2_table()
    ensures
        pow2(343) == 17917957937422433684459538244547554224973163977877196279199912807710334969441287563047019946172856926208nat,
        pow2(345) == 71671831749689734737838152978190216899892655911508785116799651230841339877765150252188079784691427704832nat,
        pow2(347) == 286687326998758938951352611912760867599570623646035140467198604923365359511060601008752319138765710819328nat,
        pow2(349) == 1146749307995035755805410447651043470398282494584140561868794419693461438044242404035009276555062843277312nat,
        pow2(351) == 4586997231980143023221641790604173881593129978336562247475177678773845752176969616140037106220251373109248nat,
        pow2(353) == 18347988927920572092886567162416695526372519913346248989900710715095383008707878464560148424881005492436992nat,
        pow2(355) == 73391955711682288371546268649666782105490079653384995959602842860381532034831513858240593699524021969747968nat,
        pow2(357) == 293567822846729153486185074598667128421960318613539983838411371441526128139326055432962374798096087878991872nat,
        pow2(359) == 1174271291386916613944740298394668513687841274454159935353645485766104512557304221731849499192384351515967488nat,
        pow2(361) == 4697085165547666455778961193578674054751365097816639741414581943064418050229216886927397996769537406063869952nat,
        pow2(363) == 18788340662190665823115844774314696219005460391266558965658327772257672200916867547709591987078149624255479808nat,
        pow2(365) == 75153362648762663292463379097258784876021841565066235862633311089030688803667470190838367948312598497021919232nat,
{
    lemma2_to64();
    lemma2_to64_rest();
    lemma_pow2_adds(64, 64);
    assert(pow2(128) == 340282366920938463463374607431768211456nat) by (nonlinear_arith)
        requires
            pow2(64) == 18446744073709551616,
            pow2(128) == pow2(64) * pow2(64),
    {
    }
    lemma_pow2_adds(128, 128);
    assert(pow2(256) == 115792089237316195423570985008687907853269984665640564039457584007913129639936nat) by (nonlinear_arith)
        requires
            pow2(128) == 340282366920938463463374607431768211456nat,
            pow2(256) == pow2(128) * pow2(128),
    {
    }
    lemma_pow2_adds(256, 64);
    assert(pow2(320) == 2135987035920910082395021706169552114602704522356652769947041607822219725780640550022962086936576nat) by (nonlinear_arith)
        requires
            pow2(256) == 115792089237316195423570985008687907853269984665640564039457584007913129639936nat,
            pow2(64) == 18446744073709551616,
            pow2(320) == pow2(256) * pow2(64),
    {
    }
    lemma_pow2_adds(320, 23);
    assert(pow2(343) == 17917957937422433684459538244547554224973163977877196279199912807710334969441287563047019946172856926208nat) by (nonlinear_arith)
        requires
            pow2(320) == 2135987035920910082395021706169552114602704522356652769947041607822219725780640550022962086936576nat,
            pow2(23) == 8388608,
            pow2(343) == pow2(320) * pow2(23),
    {
    }
    lemma_pow2_adds(320, 25);
    assert(pow2(345) == 71671831749689734737838152978190216899892655911508785116799651230841339877765150252188079784691427704832nat) by (nonlinear_arith)
        requires
            pow2(320) == 2135987035920910082395021706169552114602704522356652769947041607822219725780640550022962086936576nat,
            pow2(25) == 33554432,
            pow2(345) == pow2(320) * pow2(25),
    {
    }
    lemma_pow2_adds(320, 27);
    assert(pow2(347) == 286687326998758938951352611912760867599570623646035140467198604923365359511060601008752319138765710819328nat) by (nonlinear_arith)
        requires
            pow2(320) == 2135987035920910082395021706169552114602704522356652769947041607822219725780640550022962086936576nat,
            pow2(27) == 134217728,
            pow2(347) == pow2(320) * pow2(27),
    {
    }
    lemma_pow2_adds(320, 29);
    assert(pow2(349) == 1146749307995035755805410447651043470398282494584140561868794419693461438044242404035009276555062843277312nat) by (nonlinear_arith)
        requires
            pow2(320) == 2135987035920910082395021706169552114602704522356652769947041607822219725780640550022962086936576nat,
            pow2(29) == 536870912,
            pow2(349) == pow2(320) * pow2(29),
    {
    }
    lemma_pow2_adds(320, 31);
    assert(pow2(351) == 4586997231980143023221641790604173881593129978336562247475177678773845752176969616140037106220251373109248nat) by (nonlinear_arith)
        requires
            pow2(320) == 2135987035920910082395021706169552114602704522356652769947041607822219725780640550022962086936576nat,
            pow2(31) == 2147483648,
            pow2(351) == pow2(320) * pow2(31),
    {
    }
    lemma_pow2_adds(320, 33);
    assert(pow2(353) == 18347988927920572092886567162416695526372519913346248989900710715095383008707878464560148424881005492436992nat) by (nonlinear_arith)
        requires
            pow2(320) == 2135987035920910082395021706169552114602704522356652769947041607822219725780640550022962086936576nat,
            pow2(33) == 8589934592,
            pow2(353) == pow2(320) * pow2(33),
    {
    }
    lemma_pow2_adds(320, 35);
    assert(pow2(355) == 73391955711682288371546268649666782105490079653384995959602842860381532034831513858240593699524021969747968nat) by (nonlinear_arith)
        requires
            pow2(320) == 2135987035920910082395021706169552114602704522356652769947041607822219725780640550022962086936576nat,
            pow2(35) == 34359738368,
            pow2(355) == pow2(320) * pow2(35),
    {
    }
    lemma_pow2_adds(320, 37);
    assert(pow2(357) == 293567822846729153486185074598667128421960318613539983838411371441526128139326055432962374798096087878991872nat) by (nonlinear_arith)
        requires
            pow2(320) == 2135987035920910082395021706169552114602704522356652769947041607822219725780640550022962086936576nat,
            pow2(37) == 137438953472,
            pow2(357) == pow2(320) * pow2(37),
    {
    }
    lemma_pow2_adds(320, 39);
    assert(pow2(359) == 1174271291386916613944740298394668513687841274454159935353645485766104512557304221731849499192384351515967488nat) by (nonlinear_arith)
        requires
            pow2(320) == 2135987035920910082395021706169552114602704522356652769947041607822219725780640550022962086936576nat,
            pow2(39) == 549755813888,
            pow2(359) == pow2(320) * pow2(39),
    {
    }
    lemma_pow2_adds(320, 41);
    assert(pow2(361) == 4697085165547666455778961193578674054751365097816639741414581943064418050229216886927397996769537406063869952nat) by (nonlinear_arith)
        requires
            pow2(320) == 2135987035920910082395021706169552114602704522356652769947041607822219725780640550022962086936576nat,
            pow2(41) == 2199023255552,
            pow2(361) == pow2(320) * pow2(41),
    {
    }
    lemma_pow2_adds(320, 43);
    assert(pow2(363) == 18788340662190665823115844774314696219005460391266558965658327772257672200916867547709591987078149624255479808nat) by (nonlinear_arith)
        requires
            pow2(320) == 2135987035920910082395021706169552114602704522356652769947041607822219725780640550022962086936576nat,
            pow2(43) == 8796093022208,
            pow2(363) == pow2(320) * pow2(43),
    {
    }
    lemma_pow2_adds(320, 45);
    assert(pow2(365) == 75153362648762663292463379097258784876021841565066235862633311089030688803667470190838367948312598497021919232nat) by (nonlinear_arith)
        requires
            pow2(320) == 2135987035920910082395021706169552114602704522356652769947041607822219725780640550022962086936576nat,
            pow2(45) == 35184372088832,
            pow2(365) == pow2(320) * pow2(45),
    {
    }
}

proof fn lemma_edge_above(u: u32, n: nat, m: nat, e: nat, j: nat, p: nat)
    requires
        pow2(j) == p,
        u < 0x7f800000,
        f32_mantissa(u) == m,
        f32_binade(u) == e,
        2 * n + 3461 == 24 * e + j,
        pow24(m) >= pow24(440) * p,
    ensures
        reaches_note(u, n),
{
    lemma_pow24_mul(m, pow2(e));
    lemma_pow24_pow2(e);
    lemma_pow2_adds(24 * e, j);
    lemma_mul_le(pow24(440) * pow2(j), pow24(m), pow2(24 * e), pow2(24 * e));
    assert(pow24(440) * pow2(2 * n + 3461) == (pow24(440) * pow2(j)) * pow2(24 * e)) by (nonlinear_arith)
        requires
            pow2(2 * n + 3461) == pow2(24 * e) * pow2(j),
    {
    }
}

proof fn lemma_edge_below(u: u32, n: nat, m: nat, e: nat, j: nat, p: nat)
    requires
        pow2(j) == p,
        u < 0x7f800000,
        f32_mantissa(u) == m,
        f32_binade(u) == e,
        2 * n + 3461 == 24 * e + j,
        pow24(m) < pow24(440) * p,
    ensures
        !reaches_note(u, n),
{
    lemma_pow24_mul(m, pow2(e));
    lemma_pow24_pow2(e);
    lemma_pow2_adds(24 * e, j);
    lemma_pow2_pos(24 * e);
    assert(pow24(m) * pow2(24 * e) < (pow24(440) * pow2(j)) * pow2(24 * e)) by (nonlinear_arith)
        requires
            pow24(m) < pow24(440) * pow2(j),
            pow2(24 * e) > 0,
    {
    }
    assert(pow24(440) * pow2(2 * n + 3461) == (pow24(440) * pow2(j)) * pow2(24 * e)) by (nonlinear_arith)
        requires
            pow2(2 * n + 3461) == pow2(24 * e) * pow2(j),
    {
    }
}

proof fn lemma_edge_1()
    ensures
        reaches_note(0x4106a55a, 1),
        !reaches_note(0x4106a559, 1),
{
    lemma_pow2_table();
    assert(pow24(8824154) >= pow24(440) * 17917957937422433684459538244547554224973163977877196279199912807710334969441287563047019946172856926208nat) by (nonlinear_arith);
    assert(pow24(8824153) < pow24(440) * 17917957937422433684459538244547554224973163977877196279199912807710334969441287563047019946172856926208nat) by (nonlinear_arith);
    lemma_edge_above(0x4106a55a, 1, 8824154, 130, 343, 17917957937422433684459538244547554224973163977877196279199912807710334969441287563047019946172856926208nat);
    lemma_edge_below(0x4106a559, 1, 8824153, 130, 343, 17917957937422433684459538244547554224973163977877196279199912807710334969441287563047019946172856926208nat);
}

proof fn lemma_edge_2()
    ensures
        reaches_note(0x410ea701, 2),
        !reaches_note(0x410ea700, 2),
{
    lemma_pow2_table();
    assert(pow24(9348865) >= pow24(440) * 71671831749689734737838152978190216899892655911508785116799651230841339877765150252188079784691427704832nat) by (nonlinear_arith);
    assert(pow24(9348864) < pow24(440) * 71671831749689734737838152978190216899892655911508785116799651230841339877765150252188079784691427704832nat) by (nonlinear_arith);
    lemma_edge_above(0x410ea701, 2, 9348865, 130, 345, 71671831749689734737838152978190216899892655911508785116799651230841339877765150252188079784691427704832nat);
    lemma_edge_below(0x410ea700, 2, 9348864, 130, 345, 71671831749689734737838152978190216899892655911508785116799651230841339877765150252188079784691427704832nat);
}

proof fn lemma_edge_3()
    ensures
        reaches_note(0x41172289, 3),
        !reaches_note(0x41172288, 3),
{
    lemma_pow2_table();
    assert(pow24(9904777) >= pow24(440) * 286687326998758938951352611912760867599570623646035140467198604923365359511060601008752319138765710819328nat) by (nonlinear_arith);
    assert(pow24(9904776) < pow24(440) * 286687326998758938951352611912760867599570623646035140467198604923365359511060601008752319138765710819328nat) by (nonlinear_arith);
    lemma_edge_above(0x41172289, 3, 9904777, 130, 347, 286687326998758938951352611912760867599570623646035140467198604923365359511060601008752319138765710819328nat);
    lemma_edge_below(0x41172288, 3, 9904776, 130, 347, 286687326998758938951352611912760867599570623646035140467198604923365359511060601008752319138765710819328nat);
}

proof fn lemma_edge_4()
    ensures
        reaches_note(0x41201f32, 4),
        !reaches_note(0x41201f31, 4),
{
    lemma_pow2_table();
    assert(pow24(10493746) >= pow24(440) * 1146749307995035755805410447651043470398282494584140561868794419693461438044242404035009276555062843277312nat) by (nonlinear_arith);
    assert(pow24(10493745) < pow24(440) * 1146749307995035755805410447651043470398282494584140561868794419693461438044242404035009276555062843277312nat) by (nonlinear_arith);
    lemma_edge_above(0x41201f32, 4, 10493746, 130, 349, 1146749307995035755805410447651043470398282494584140561868794419693461438044242404035009276555062843277312nat);
    lemma_edge_below(0x41201f31, 4, 10493745, 130, 349, 1146749307995035755805410447651043470398282494584140561868794419693461438044242404035009276555062843277312nat);
}

proof fn lemma_edge_5()
    ensures
        reaches_note(0x4129a4a9, 5),
        !reaches_note(0x4129a4a8, 5),
{
    lemma_pow2_table();
    assert(pow24(11117737) >= pow24(440) * 4586997231980143023221641790604173881593129978336562247475177678773845752176969616140037106220251373109248nat) by (nonlinear_arith);
    assert(pow24(11117736) < pow24(440) * 4586997231980143023221641790604173881593129978336562247475177678773845752176969616140037106220251373109248nat) by (nonlinear_arith);
    lemma_edge_above(0x4129a4a9, 5, 11117737, 130, 351, 4586997231980143023221641790604173881593129978336562247475177678773845752176969616140037106220251373109248nat);
    lemma_edge_below(0x4129a4a8, 5, 11117736, 130, 351, 4586997231980143023221641790604173881593129978336562247475177678773845752176969616140037106220251373109248nat);
}

proof fn lemma_edge_6()
    ensures
        reaches_note(0x4133bb10, 6),
        !reaches_note(0x4133bb0f, 6),
{
    lemma_pow2_table();
    assert(pow24(11778832) >= pow24(440) * 18347988927920572092886567162416695526372519913346248989900710715095383008707878464560148424881005492436992nat) by (nonlinear_arith);
    assert(pow24(11778831) < pow24(440) * 18347988927920572092886567162416695526372519913346248989900710715095383008707878464560148424881005492436992nat) by (nonlinear_arith);
    lemma_edge_above(0x4133bb10, 6, 11778832, 130, 353, 18347988927920572092886567162416695526372519913346248989900710715095383008707878464560148424881005492436992nat);
    lemma_edge_below(0x4133bb0f, 6, 11778831, 130, 353, 18347988927920572092886567162416695526372519913346248989900710715095383008707878464560148424881005492436992nat);
}

proof fn lemma_edge_7()
    ensures
        reaches_note(0x413e6b05, 7),
        !reaches_note(0x413e6b04, 7),
{
    lemma_pow2_table();
    assert(pow24(12479237) >= pow24(440) * 73391955711682288371546268649666782105490079653384995959602842860381532034831513858240593699524021969747968nat) by (nonlinear_arith);
    assert(pow24(12479236) < pow24(440) * 73391955711682288371546268649666782105490079653384995959602842860381532034831513858240593699524021969747968nat) by (nonlinear_arith);
    lemma_edge_above(0x413e6b05, 7, 12479237, 130, 355, 73391955711682288371546268649666782105490079653384995959602842860381532034831513858240593699524021969747968nat);
    lemma_edge_below(0x413e6b04, 7, 12479236, 130, 355, 73391955711682288371546268649666782105490079653384995959602842860381532034831513858240593699524021969747968nat);
}

proof fn lemma_edge_8()
    ensures
        reaches_note(0x4149bdab, 8),
        !reaches_note(0x4149bdaa, 8),
{
    lemma_pow2_table();
    assert(pow24(13221291) >= pow24(440) * 293567822846729153486185074598667128421960318613539983838411371441526128139326055432962374798096087878991872nat) by (nonlinear_arith);
    assert(pow24(13221290) < pow24(440) * 293567822846729153486185074598667128421960318613539983838411371441526128139326055432962374798096087878991872nat) by (nonlinear_arith);
    lemma_edge_above(0x4149bdab, 8, 13221291, 130, 357, 293567822846729153486185074598667128421960318613539983838411371441526128139326055432962374798096087878991872nat);
    lemma_edge_below(0x4149bdaa, 8, 13221290, 130, 357, 293567822846729153486185074598667128421960318613539983838411371441526128139326055432962374798096087878991872nat);
}

proof fn lemma_edge_9()
    ensures
        reaches_note(0x4155bcae, 9),
        !reaches_note(0x4155bcad, 9),
{
    lemma_pow2_table();
    assert(pow24(14007470) >= pow24(440) * 1174271291386916613944740298394668513687841274454159935353645485766104512557304221731849499192384351515967488nat) by (nonlinear_arith);
    assert(pow24(14007469) < pow24(440) * 1174271291386916613944740298394668513687841274454159935353645485766104512557304221731849499192384351515967488nat) by (nonlinear_arith);
    lemma_edge_above(0x4155bcae, 9, 14007470, 130, 359, 1174271291386916613944740298394668513687841274454159935353645485766104512557304221731849499192384351515967488nat);
    lemma_edge_below(0x4155bcad, 9, 14007469, 130, 359, 1174271291386916613944740298394668513687841274454159935353645485766104512557304221731849499192384351515967488nat);
}

proof fn lemma_edge_10()
    ensures
        reaches_note(0x4162724e, 10),
        !reaches_note(0x4162724d, 10),
{
    lemma_pow2_table();
    assert(pow24(14840398) >= pow24(440) * 4697085165547666455778961193578674054751365097816639741414581943064418050229216886927397996769537406063869952nat) by (nonlinear_arith);
    assert(pow24(14840397) < pow24(440) * 4697085165547666455778961193578674054751365097816639741414581943064418050229216886927397996769537406063869952nat) by (nonlinear_arith);
    lemma_edge_above(0x4162724e, 10, 14840398, 130, 361, 4697085165547666455778961193578674054751365097816639741414581943064418050229216886927397996769537406063869952nat);
    lemma_edge_below(0x4162724d, 10, 14840397, 130, 361, 4697085165547666455778961193578674054751365097816639741414581943064418050229216886927397996769537406063869952nat);
}

proof fn lemma_edge_11()
    ensures
        reaches_note(0x416fe966, 11),
        !reaches_note(0x416fe965, 11),
{
    lemma_pow2_table();
    assert(pow24(15722854) >= pow24(440) * 18788340662190665823115844774314696219005460391266558965658327772257672200916867547709591987078149624255479808nat) by (nonlinear_arith);
    assert(pow24(15722853) < pow24(440) * 18788340662190665823115844774314696219005460391266558965658327772257672200916867547709591987078149624255479808nat) by (nonlinear_arith);
    lemma_edge_above(0x416fe966, 11, 15722854, 130, 363, 18788340662190665823115844774314696219005460391266558965658327772257672200916867547709591987078149624255479808nat);
    lemma_edge_below(0x416fe965, 11, 15722853, 130, 363, 18788340662190665823115844774314696219005460391266558965658327772257672200916867547709591987078149624255479808nat);
}

proof fn lemma_edge_12()
    ensures
        reaches_note(0x417e2d77, 12),
        !reaches_note(0x417e2d76, 12),
{
    lemma_pow2_table();
    assert(pow24(16657783) >= pow24(440) * 75153362648762663292463379097258784876021841565066235862633311089030688803667470190838367948312598497021919232nat) by (nonlinear_arith);
    assert(pow24(16657782) < pow24(440) * 75153362648762663292463379097258784876021841565066235862633311089030688803667470190838367948312598497021919232nat) by (nonlinear_arith);
    lemma_edge_above(0x417e2d77, 12, 16657783, 130, 365, 75153362648762663292463379097258784876021841565066235862633311089030688803667470190838367948312598497021919232nat);
    lemma_edge_below(0x417e2d76, 12, 16657782, 130, 365, 75153362648762663292463379097258784876021841565066235862633311089030688803667470190838367948312598497021919232nat);
}

proof fn lemma_edge_13()
    ensures
        reaches_note(0x4186a55a, 13),
        !reaches_note(0x4186a559, 13),
{
    lemma_pow2_table();
    assert(pow24(8824154) >= pow24(440) * 17917957937422433684459538244547554224973163977877196279199912807710334969441287563047019946172856926208nat) by (nonlinear_arith);
    assert(pow24(8824153) < pow24(440) * 17917957937422433684459538244547554224973163977877196279199912807710334969441287563047019946172856926208nat) by (nonlinear_arith);
    lemma_edge_above(0x4186a55a, 13, 8824154, 131, 343, 17917957937422433684459538244547554224973163977877196279199912807710334969441287563047019946172856926208nat);
    lemma_edge_below(0x4186a559, 13, 8824153, 131, 343, 17917957937422433684459538244547554224973163977877196279199912807710334969441287563047019946172856926208nat);
}

proof fn lemma_edge_14()
    ensures
        reaches_note(0x418ea701, 14),
        !reaches_note(0x418ea700, 14),
{
    lemma_pow2_table();
    assert(pow24(9348865) >= pow24(440) * 71671831749689734737838152978190216899892655911508785116799651230841339877765150252188079784691427704832nat) by (nonlinear_arith);
    assert(pow24(9348864) < pow24(440) * 71671831749689734737838152978190216899892655911508785116799651230841339877765150252188079784691427704832nat) by (nonlinear_arith);
    lemma_edge_above(0x418ea701, 14, 9348865, 131, 345, 71671831749689734737838152978190216899892655911508785116799651230841339877765150252188079784691427704832nat);
    lemma_edge_below(0x418ea700, 14, 9348864, 131, 345, 71671831749689734737838152978190216899892655911508785116799651230841339877765150252188079784691427704832nat);
}

proof fn lemma_edge_15()
    ensures
        reaches_note(0x41972289, 15),
        !reaches_note(0x41972288, 15),
{
    lemma_pow2_table();
    assert(pow24(9904777) >= pow24(440) * 286687326998758938951352611912760867599570623646035140467198604923365359511060601008752319138765710819328nat) by (nonlinear_arith);
    assert(pow24(9904776) < pow24(440) * 286687326998758938951352611912760867599570623646035140467198604923365359511060601008752319138765710819328nat) by (nonlinear_arith);
    lemma_edge_above(0x41972289, 15, 9904777, 131, 347, 286687326998758938951352611912760867599570623646035140467198604923365359511060601008752319138765710819328nat);
    lemma_edge_below(0x41972288, 15, 9904776, 131, 347, 286687326998758938951352611912760867599570623646035140467198604923365359511060601008752319138765710819328nat);
}

proof fn lemma_edge_16()
    ensures
        reaches_note(0x41a01f32, 16),
        !reaches_note(0x41a01f31, 16),
{
    lemma_pow2_table();
    assert(pow24(10493746) >= pow24(440) * 1146749307995035755805410447651043470398282494584140561868794419693461438044242404035009276555062843277312nat) by (nonlinear_arith);
    assert(pow24(10493745) < pow24(440) * 1146749307995035755805410447651043470398282494584140561868794419693461438044242404035009276555062843277312nat) by (nonlinear_arith);
    lemma_edge_above(0x41a01f32, 16, 10493746, 131, 349, 1146749307995035755805410447651043470398282494584140561868794419693461438044242404035009276555062843277312nat);
    lemma_edge_below(0x41a01f31, 16, 10493745, 131, 349, 1146749307995035755805410447651043470398282494584140561868794419693461438044242404035009276555062843277312nat);
}

proof fn lemma_edge_17()
    ensures
        reaches_note(0x41a9a4a9, 17),
        !reaches_note(0x41a9a4a8, 17),
{
    lemma_pow2_table();
    assert(pow24(11117737) >= pow24(440) * 4586997231980143023221641790604173881593129978336562247475177678773845752176969616140037106220251373109248nat) by (nonlinear_arith);
    assert(pow24(11117736) < pow24(440) * 4586997231980143023221641790604173881593129978336562247475177678773845752176969616140037106220251373109248nat) by (nonlinear_arith);
    lemma_edge_above(0x41a9a4a9, 17, 11117737, 131, 351, 4586997231980143023221641790604173881593129978336562247475177678773845752176969616140037106220251373109248nat);
    lemma_edge_below(0x41a9a4a8, 17, 11117736, 131, 351, 4586997231980143023221641790604173881593129978336562247475177678773845752176969616140037106220251373109248nat);
}

proof fn lemma_edge_18()
    ensures
        reaches_note(0x41b3bb10, 18),
        !reaches_note(0x41b3bb0f, 18),
{
    lemma_pow2_table();
    assert(pow24(11778832) >= pow24(440) * 18347988927920572092886567162416695526372519913346248989900710715095383008707878464560148424881005492436992nat) by (nonlinear_arith);
    assert(pow24(11778831) < pow24(440) * 18347988927920572092886567162416695526372519913346248989900710715095383008707878464560148424881005492436992nat) by (nonlinear_arith);
    lemma_edge_above(0x41b3bb10, 18, 11778832, 131, 353, 18347988927920572092886567162416695526372519913346248989900710715095383008707878464560148424881005492436992nat);
    lemma_edge_below(0x41b3bb0f, 18, 11778831, 131, 353, 18347988927920572092886567162416695526372519913346248989900710715095383008707878464560148424881005492436992nat);
}

proof fn lemma_edge_19()
    ensures
        reaches_note(0x41be6b05, 19),
        !reaches_note(0x41be6b04, 19),
{
    lemma_pow2_table();
    assert(pow24(12479237) >= pow24(440) * 73391955711682288371546268649666782105490079653384995959602842860381532034831513858240593699524021969747968nat) by (nonlinear_arith);
    assert(pow24(12479236) < pow24(440) * 73391955711682288371546268649666782105490079653384995959602842860381532034831513858240593699524021969747968nat) by (nonlinear_arith);
    lemma_edge_above(0x41be6b05, 19, 12479237, 131, 355, 73391955711682288371546268649666782105490079653384995959602842860381532034831513858240593699524021969747968nat);
    lemma_edge_below(0x41be6b04, 19, 12479236, 131, 355, 73391955711682288371546268649666782105490079653384995959602842860381532034831513858240593699524021969747968nat);
}

proof fn lemma_edge_20()
    ensures
        reaches_note(0x41c9bdab, 20),
        !reaches_note(0x41c9bdaa, 20),
{
    lemma_pow2_table();
    assert(pow24(13221291) >= pow24(440) * 293567822846729153486185074598667128421960318613539983838411371441526128139326055432962374798096087878991872nat) by (nonlinear_arith);
    assert(pow24(13221290) < pow24(440) * 293567822846729153486185074598667128421960318613539983838411371441526128139326055432962374798096087878991872nat) by (nonlinear_arith);
    lemma_edge_above(0x41c9bdab, 20, 13221291, 131, 357, 293567822846729153486185074598667128421960318613539983838411371441526128139326055432962374798096087878991872nat);
    lemma_edge_below(0x41c9bdaa, 20, 13221290, 131, 357, 293567822846729153486185074598667128421960318613539983838411371441526128139326055432962374798096087878991872nat);
}

proof fn lemma_edge_21()
    ensures
        reaches_note(0x41d5bcae, 21),
        !reaches_note(0x41d5bcad, 21),
{
    lemma_pow2_table();
    assert(pow24(14007470) >= pow24(440) * 1174271291386916613944740298394668513687841274454159935353645485766104512557304221731849499192384351515967488nat) by (nonlinear_arith);
    assert(pow24(14007469) < pow24(440) * 1174271291386916613944740298394668513687841274454159935353645485766104512557304221731849499192384351515967488nat) by (nonlinear_arith);
    lemma_edge_above(0x41d5bcae, 21, 14007470, 131, 359, 1174271291386916613944740298394668513687841274454159935353645485766104512557304221731849499192384351515967488nat);
    lemma_edge_below(0x41d5bcad, 21, 14007469, 131, 359, 1174271291386916613944740298394668513687841274454159935353645485766104512557304221731849499192384351515967488nat);
}

proof fn lemma_edge_22()
    ensures
        reaches_note(0x41e2724e, 22),
        !reaches_note(0x41e2724d, 22),
{
    lemma_pow2_table();
    assert(pow24(14840398) >= pow24(440) * 4697085165547666455778961193578674054751365097816639741414581943064418050229216886927397996769537406063869952nat) by (nonlinear_arith);
    assert(pow24(14840397) < pow24(440) * 4697085165547666455778961193578674054751365097816639741414581943064418050229216886927397996769537406063869952nat) by (nonlinear_arith);
    lemma_edge_above(0x41e2724e, 22, 14840398, 131, 361, 4697085165547666455778961193578674054751365097816639741414581943064418050229216886927397996769537406063869952nat);
    lemma_edge_below(0x41e2724d, 22, 14840397, 131, 361, 4697085165547666455778961193578674054751365097816639741414581943064418050229216886927397996769537406063869952nat);
}

proof fn lemma_edge_23()
    ensures
        reaches_note(0x41efe966, 23),
        !reaches_note(0x41efe965, 23),
{
    lemma_pow2_table();
    assert(pow24(15722854) >= pow24(440) * 18788340662190665823115844774314696219005460391266558965658327772257672200916867547709591987078149624255479808nat) by (nonlinear_arith);
    assert(pow24(15722853) < pow24(440) * 18788340662190665823115844774314696219005460391266558965658327772257672200916867547709591987078149624255479808nat) by (nonlinear_arith);
    lemma_edge_above(0x41efe966, 23, 15722854, 131, 363, 18788340662190665823115844774314696219005460391266558965658327772257672200916867547709591987078149624255479808nat);
    lemma_edge_below(0x41efe965, 23, 15722853, 131, 363, 18788340662190665823115844774314696219005460391266558965658327772257672200916867547709591987078149624255479808nat);
}

proof fn lemma_edge_24()
    ensures
        reaches_note(0x41fe2d77, 24),
        !reaches_note(0x41fe2d76, 24),
{
    lemma_pow2_table();
    assert(pow24(16657783) >= pow24(440) * 75153362648762663292463379097258784876021841565066235862633311089030688803667470190838367948312598497021919232nat) by (nonlinear_arith);
    assert(pow24(16657782) < pow24(440) * 75153362648762663292463379097258784876021841565066235862633311089030688803667470190838367948312598497021919232nat) by (nonlinear_arith);
    lemma_edge_above(0x41fe2d77, 24, 16657783, 131, 365, 75153362648762663292463379097258784876021841565066235862633311089030688803667470190838367948312598497021919232nat);
    lemma_edge_below(0x41fe2d76, 24, 16657782, 131, 365, 75153362648762663292463379097258784876021841565066235862633311089030688803667470190838367948312598497021919232nat);
}

proof fn lemma_edge_25()
    ensures
        reaches_note(0x4206a55a, 25),
        !reaches_note(0x4206a559, 25),
{
    lemma_pow2_table();
    assert(pow24(8824154) >= pow24(440) * 17917957937422433684459538244547554224973163977877196279199912807710334969441287563047019946172856926208nat) by (nonlinear_arith);
    assert(pow24(8824153) < pow24(440) * 17917957937422433684459538244547554224973163977877196279199912807710334969441287563047019946172856926208nat) by (nonlinear_arith);
    lemma_edge_above(0x4206a55a, 25, 8824154, 132, 343, 17917957937422433684459538244547554224973163977877196279199912807710334969441287563047019946172856926208nat);
    lemma_edge_below(0x4206a559, 25, 8824153, 132, 343, 17917957937422433684459538244547554224973163977877196279199912807710334969441287563047019946172856926208nat);
}

proof fn lemma_edge_26()
    ensures
        reaches_note(0x420ea701, 26),
        !reaches_note(0x420ea700, 26),
{
    lemma_pow2_table();
    assert(pow24(9348865) >= pow24(440) * 71671831749689734737838152978190216899892655911508785116799651230841339877765150252188079784691427704832nat) by (nonlinear_arith);
    assert(pow24(9348864) < pow24(440) * 71671831749689734737838152978190216899892655911508785116799651230841339877765150252188079784691427704832nat) by (nonlinear_arith);
    lemma_edge_above(0x420ea701, 26, 9348865, 132, 345, 71671831749689734737838152978190216899892655911508785116799651230841339877765150252188079784691427704832nat);
    lemma_edge_below(0x420ea700, 26, 9348864, 132, 345, 71671831749689734737838152978190216899892655911508785116799651230841339877765150252188079784691427704832nat);
}

proof fn lemma_edge_27()
    ensures
        reaches_note(0x42172289, 27),
        !reaches_note(0x42172288, 27),
{
    lemma_pow2_table();
    assert(pow24(9904777) >= pow24(440) * 286687326998758938951352611912760867599570623646035140467198604923365359511060601008752319138765710819328nat) by (nonlinear_arith);
    assert(pow24(9904776) < pow24(440) * 286687326998758938951352611912760867599570623646035140467198604923365359511060601008752319138765710819328nat) by (nonlinear_arith);
    lemma_edge_above(0x42172289, 27, 9904777, 132, 347, 286687326998758938951352611912760867599570623646035140467198604923365359511060601008752319138765710819328nat);
    lemma_edge_below(0x42172288, 27, 9904776, 132, 347, 286687326998758938951352611912760867599570623646035140467198604923365359511060601008752319138765710819328nat);
}

proof fn lemma_edge_28()
    ensures
        reaches_note(0x42201f32, 28),
        !reaches_note(0x42201f31, 28),
{
    lemma_pow2_table();
    assert(pow24(10493746) >= pow24(440) * 1146749307995035755805410447651043470398282494584140561868794419693461438044242404035009276555062843277312nat) by (nonlinear_arith);
    assert(pow24(10493745) < pow24(440) * 1146749307995035755805410447651043470398282494584140561868794419693461438044242404035009276555062843277312nat) by (nonlinear_arith);
    lemma_edge_above(0x42201f32, 28, 10493746, 132, 349, 1146749307995035755805410447651043470398282494584140561868794419693461438044242404035009276555062843277312nat);
    lemma_edge_below(0x42201f31, 28, 10493745, 132, 349, 1146749307995035755805410447651043470398282494584140561868794419693461438044242404035009276555062843277312nat);
}

proof fn lemma_edge_29()
    ensures
        reaches_note(0x4229a4a9, 29),
        !reaches_note(0x4229a4a8, 29),
{
    lemma_pow2_table();
    assert(pow24(11117737) >= pow24(440) * 4586997231980143023221641790604173881593129978336562247475177678773845752176969616140037106220251373109248nat) by (nonlinear_arith);
    assert(pow24(11117736) < pow24(440) * 4586997231980143023221641790604173881593129978336562247475177678773845752176969616140037106220251373109248nat) by (nonlinear_arith);
    lemma_edge_above(0x4229a4a9, 29, 11117737, 132, 351, 4586997231980143023221641790604173881593129978336562247475177678773845752176969616140037106220251373109248nat);
    lemma_edge_below(0x4229a4a8, 29, 11117736, 132, 351, 4586997231980143023221641790604173881593129978336562247475177678773845752176969616140037106220251373109248nat);
}

proof fn lemma_edge_30()
    ensures
        reaches_note(0x4233bb10, 30),
        !reaches_note(0x4233bb0f, 30),
{
    lemma_pow2_table();
    assert(pow24(11778832) >= pow24(440) * 18347988927920572092886567162416695526372519913346248989900710715095383008707878464560148424881005492436992nat) by (nonlinear_arith);
    assert(pow24(11778831) < pow24(440) * 18347988927920572092886567162416695526372519913346248989900710715095383008707878464560148424881005492436992nat) by (nonlinear_arith);
    lemma_edge_above(0x4233bb10, 30, 11778832, 132, 353, 18347988927920572092886567162416695526372519913346248989900710715095383008707878464560148424881005492436992nat);
    lemma_edge_below(0x4233bb0f, 30, 11778831, 132, 353, 18347988927920572092886567162416695526372519913346248989900710715095383008707878464560148424881005492436992nat);
}

proof fn lemma_edge_31()
    ensures
        reaches_note(0x423e6b05, 31),
        !reaches_note(0x423e6b04, 31),
{
    lemma_pow2_table();
    assert(pow24(12479237) >= pow24(440) * 73391955711682288371546268649666782105490079653384995959602842860381532034831513858240593699524021969747968nat) by (nonlinear_arith);
    assert(pow24(12479236) < pow24(440) * 73391955711682288371546268649666782105490079653384995959602842860381532034831513858240593699524021969747968nat) by (nonlinear_arith);
    lemma_edge_above(0x423e6b05, 31, 12479237, 132, 355, 73391955711682288371546268649666782105490079653384995959602842860381532034831513858240593699524021969747968nat);
    lemma_edge_below(0x423e6b04, 31, 12479236, 132, 355, 73391955711682288371546268649666782105490079653384995959602842860381532034831513858240593699524021969747968nat);
}

proof fn lemma_edge_32()
    ensures
        reaches_note(0x4249bdab, 32),
        !reaches_note(0x4249bdaa, 32),
{
    lemma_pow2_table();
    assert(pow24(13221291) >= pow24(440) * 293567822846729153486185074598667128421960318613539983838411371441526128139326055432962374798096087878991872nat) by (nonlinear_arith);
    assert(pow24(13221290) < pow24(440) * 293567822846729153486185074598667128421960318613539983838411371441526128139326055432962374798096087878991872nat) by (nonlinear_arith);
    lemma_edge_above(0x4249bdab, 32, 13221291, 132, 357, 293567822846729153486185074598667128421960318613539983838411371441526128139326055432962374798096087878991872nat);
    lemma_edge_below(0x4249bdaa, 32, 13221290, 132, 357, 293567822846729153486185074598667128421960318613539983838411371441526128139326055432962374798096087878991872nat);
}

proof fn lemma_edge_33()
    ensures
        reaches_note(0x4255bcae, 33),
        !reaches_note(0x4255bcad, 33),
{
    lemma_pow2_table();
    assert(pow24(14007470) >= pow24(440) * 1174271291386916613944740298394668513687841274454159935353645485766104512557304221731849499192384351515967488nat) by (nonlinear_arith);
    assert(pow24(14007469) < pow24(440) * 1174271291386916613944740298394668513687841274454159935353645485766104512557304221731849499192384351515967488nat) by (nonlinear_arith);
    lemma_edge_above(0x4255bcae, 33, 14007470, 132, 359, 1174271291386916613944740298394668513687841274454159935353645485766104512557304221731849499192384351515967488nat);
    lemma_edge_below(0x4255bcad, 33, 14007469, 132, 359, 1174271291386916613944740298394668513687841274454159935353645485766104512557304221731849499192384351515967488nat);
}

proof fn lemma_edge_34()
    ensures
        reaches_note(0x4262724e, 34),
        !reaches_note(0x4262724d, 34),
{
    lemma_pow2_table();
    assert(pow24(14840398) >= pow24(440) * 4697085165547666455778961193578674054751365097816639741414581943064418050229216886927397996769537406063869952nat) by (nonlinear_arith);
    assert(pow24(14840397) < pow24(440) * 4697085165547666455778961193578674054751365097816639741414581943064418050229216886927397996769537406063869952nat) by (nonlinear_arith);
    lemma_edge_above(0x4262724e, 34, 14840398, 132, 361, 4697085165547666455778961193578674054751365097816639741414581943064418050229216886927397996769537406063869952nat);
    lemma_edge_below(0x4262724d, 34, 14840397, 132, 361, 4697085165547666455778961193578674054751365097816639741414581943064418050229216886927397996769537406063869952nat);
}

proof fn lemma_edge_35()
    ensures
        reaches_note(0x426fe966, 35),
        !reaches_note(0x426fe965, 35),
{
    lemma_pow2_table();
    assert(pow24(15722854) >= pow24(440) * 18788340662190665823115844774314696219005460391266558965658327772257672200916867547709591987078149624255479808nat) by (nonlinear_arith);
    assert(pow24(15722853) < pow24(440) * 18788340662190665823115844774314696219005460391266558965658327772257672200916867547709591987078149624255479808nat) by (nonlinear_arith);
    lemma_edge_above(0x426fe966, 35, 15722854, 132, 363, 18788340662190665823115844774314696219005460391266558965658327772257672200916867547709591987078149624255479808nat);
    lemma_edge_below(0x426fe965, 35, 15722853, 132, 363, 18788340662190665823115844774314696219005460391266558965658327772257672200916867547709591987078149624255479808nat);
}

proof fn lemma_edge_36()
    ensures
        reaches_note(0x427e2d77, 36),
        !reaches_note(0x427e2d76, 36),
{
    lemma_pow2_table();
    assert(pow24(16657783) >= pow24(440) * 75153362648762663292463379097258784876021841565066235862633311089030688803667470190838367948312598497021919232nat) by (nonlinear_arith);
    assert(pow24(16657782) < pow24(440) * 75153362648762663292463379097258784876021841565066235862633311089030688803667470190838367948312598497021919232nat) by (nonlinear_arith);
    lemma_edge_above(0x427e2d77, 36, 16657783, 132, 365, 75153362648762663292463379097258784876021841565066235862633311089030688803667470190838367948312598497021919232nat);
    lemma_edge_below(0x427e2d76, 36, 16657782, 132, 365, 75153362648762663292463379097258784876021841565066235862633311089030688803667470190838367948312598497021919232nat);
}

proof fn lemma_edge_37()
    ensures
        reaches_note(0x4286a55a, 37),
        !reaches_note(0x4286a559, 37),
{
    lemma_pow2_table();
    assert(pow24(8824154) >= pow24(440) * 17917957937422433684459538244547554224973163977877196279199912807710334969441287563047019946172856926208nat) by (nonlinear_arith);
    assert(pow24(8824153) < pow24(440) * 17917957937422433684459538244547554224973163977877196279199912807710334969441287563047019946172856926208nat) by (nonlinear_arith);
    lemma_edge_above(0x4286a55a, 37, 8824154, 133, 343, 17917957937422433684459538244547554224973163977877196279199912807710334969441287563047019946172856926208nat);
    lemma_edge_below(0x4286a559, 37, 8824153, 133, 343, 17917957937422433684459538244547554224973163977877196279199912807710334969441287563047019946172856926208nat);
}

proof fn lemma_edge_38()
    ensures
        reaches_note(0x428ea701, 38),
        !reaches_note(0x428ea700, 38),
{
    lemma_pow2_table();
    assert(pow24(9348865) >= pow24(440) * 71671831749689734737838152978190216899892655911508785116799651230841339877765150252188079784691427704832nat) by (nonlinear_arith);
    assert(pow24(9348864) < pow24(440) * 71671831749689734737838152978190216899892655911508785116799651230841339877765150252188079784691427704832nat) by (nonlinear_arith);
    lemma_edge_above(0x428ea701, 38, 9348865, 133, 345, 71671831749689734737838152978190216899892655911508785116799651230841339877765150252188079784691427704832nat);
    lemma_edge_below(0x428ea700, 38, 9348864, 133, 345, 71671831749689734737838152978190216899892655911508785116799651230841339877765150252188079784691427704832nat);
}

proof fn lemma_edge_39()
    ensures
        reaches_note(0x42972289, 39),
        !reaches_note(0x42972288, 39),
{
    lemma_pow2_table();
    assert(pow24(9904777) >= pow24(440) * 286687326998758938951352611912760867599570623646035140467198604923365359511060601008752319138765710819328nat) by (nonlinear_arith);
    assert(pow24(9904776) < pow24(440) * 286687326998758938951352611912760867599570623646035140467198604923365359511060601008752319138765710819328nat) by (nonlinear_arith);
    lemma_edge_above(0x42972289, 39, 9904777, 133, 347, 286687326998758938951352611912760867599570623646035140467198604923365359511060601008752319138765710819328nat);
    lemma_edge_below(0x42972288, 39, 9904776, 133, 347, 286687326998758938951352611912760867599570623646035140467198604923365359511060601008752319138765710819328nat);
}

proof fn lemma_edge_40()
    ensures
        reaches_note(0x42a01f32, 40),
        !reaches_note(0x42a01f31, 40),
{
    lemma_pow2_table();
    assert(pow24(10493746) >= pow24(440) * 1146749307995035755805410447651043470398282494584140561868794419693461438044242404035009276555062843277312nat) by (nonlinear_arith);
    assert(pow24(10493745) < pow24(440) * 1146749307995035755805410447651043470398282494584140561868794419693461438044242404035009276555062843277312nat) by (nonlinear_arith);
    lemma_edge_above(0x42a01f32, 40, 10493746, 133, 349, 1146749307995035755805410447651043470398282494584140561868794419693461438044242404035009276555062843277312nat);
    lemma_edge_below(0x42a01f31, 40, 10493745, 133, 349, 1146749307995035755805410447651043470398282494584140561868794419693461438044242404035009276555062843277312nat);
}

proof fn lemma_edge_41()
    ensures
        reaches_note(0x42a9a4a9, 41),
        !reaches_note(0x42a9a4a8, 41),
{
    lemma_pow2_table();
    assert(pow24(11117737) >= pow24(440) * 4586997231980143023221641790604173881593129978336562247475177678773845752176969616140037106220251373109248nat) by (nonlinear_arith);
    assert(pow24(11117736) < pow24(440) * 4586997231980143023221641790604173881593129978336562247475177678773845752176969616140037106220251373109248nat) by (nonlinear_arith);
    lemma_edge_above(0x42a9a4a9, 41, 11117737, 133, 351, 4586997231980143023221641790604173881593129978336562247475177678773845752176969616140037106220251373109248nat);
    lemma_edge_below(0x42a9a4a8, 41, 11117736, 133, 351, 4586997231980143023221641790604173881593129978336562247475177678773845752176969616140037106220251373109248nat);
}

proof fn lemma_edge_42()
    ensures
        reaches_note(0x42b3bb10, 42),
        !reaches_note(0x42b3bb0f, 42),
{
    lemma_pow2_table();
    assert(pow24(11778832) >= pow24(440) * 18347988927920572092886567162416695526372519913346248989900710715095383008707878464560148424881005492436992nat) by (nonlinear_arith);
    assert(pow24(11778831) < pow24(440) * 18347988927920572092886567162416695526372519913346248989900710715095383008707878464560148424881005492436992nat) by (nonlinear_arith);
    lemma_edge_above(0x42b3bb10, 42, 11778832, 133, 353, 18347988927920572092886567162416695526372519913346248989900710715095383008707878464560148424881005492436992nat);
    lemma_edge_below(0x42b3bb0f, 42, 11778831, 133, 353, 18347988927920572092886567162416695526372519913346248989900710715095383008707878464560148424881005492436992nat);
}

proof fn lemma_edge_43()
    ensures
        reaches_note(0x42be6b05, 43),
        !reaches_note(0x42be6b04, 43),
{
    lemma_pow2_table();
    assert(pow24(12479237) >= pow24(440) * 73391955711682288371546268649666782105490079653384995959602842860381532034831513858240593699524021969747968nat) by (nonlinear_arith);
    assert(pow24(12479236) < pow24(440) * 73391955711682288371546268649666782105490079653384995959602842860381532034831513858240593699524021969747968nat) by (nonlinear_arith);
    lemma_edge_above(0x42be6b05, 43, 12479237, 133, 355, 73391955711682288371546268649666782105490079653384995959602842860381532034831513858240593699524021969747968nat);
    lemma_edge_below(0x42be6b04, 43, 12479236, 133, 355, 73391955711682288371546268649666782105490079653384995959602842860381532034831513858240593699524021969747968nat);
}

proof fn lemma_edge_44()
    ensures
        reaches_note(0x42c9bdab, 44),
        !reaches_note(0x42c9bdaa, 44),
{
    lemma_pow2_table();
    assert(pow24(13221291) >= pow24(440) * 293567822846729153486185074598667128421960318613539983838411371441526128139326055432962374798096087878991872nat) by (nonlinear_arith);
    assert(pow24(13221290) < pow24(440) * 293567822846729153486185074598667128421960318613539983838411371441526128139326055432962374798096087878991872nat) by (nonlinear_arith);
    lemma_edge_above(0x42c9bdab, 44, 13221291, 133, 357, 293567822846729153486185074598667128421960318613539983838411371441526128139326055432962374798096087878991872nat);
    lemma_edge_below(0x42c9bdaa, 44, 13221290, 133, 357, 293567822846729153486185074598667128421960318613539983838411371441526128139326055432962374798096087878991872nat);
}

proof fn lemma_edge_45()
    ensures
        reaches_note(0x42d5bcae, 45),
        !reaches_note(0x42d5bcad, 45),
{
    lemma_pow2_table();
    assert(pow24(14007470) >= pow24(440) * 1174271291386916613944740298394668513687841274454159935353645485766104512557304221731849499192384351515967488nat) by (nonlinear_arith);
    assert(pow24(14007469) < pow24(440) * 1174271291386916613944740298394668513687841274454159935353645485766104512557304221731849499192384351515967488nat) by (nonlinear_arith);
    lemma_edge_above(0x42d5bcae, 45, 14007470, 133, 359, 1174271291386916613944740298394668513687841274454159935353645485766104512557304221731849499192384351515967488nat);
    lemma_edge_below(0x42d5bcad, 45, 14007469, 133, 359, 1174271291386916613944740298394668513687841274454159935353645485766104512557304221731849499192384351515967488nat);
}

proof fn lemma_edge_46()
    ensures
        reaches_note(0x42e2724e, 46),
        !reaches_note(0x42e2724d, 46),
{
    lemma_pow2_table();
    assert(pow24(14840398) >= pow24(440) * 4697085165547666455778961193578674054751365097816639741414581943064418050229216886927397996769537406063869952nat) by (nonlinear_arith);
    assert(pow24(14840397) < pow24(440) * 4697085165547666455778961193578674054751365097816639741414581943064418050229216886927397996769537406063869952nat) by (nonlinear_arith);
    lemma_edge_above(0x42e2724e, 46, 14840398, 133, 361, 4697085165547666455778961193578674054751365097816639741414581943064418050229216886927397996769537406063869952nat);
    lemma_edge_below(0x42e2724d, 46, 14840397, 133, 361, 4697085165547666455778961193578674054751365097816639741414581943064418050229216886927397996769537406063869952nat);
}

proof fn lemma_edge_47()
    ensures
        reaches_note(0x42efe966, 47),
        !reaches_note(0x42efe965, 47),
{
    lemma_pow2_table();
    assert(pow24(15722854) >= pow24(440) * 18788340662190665823115844774314696219005460391266558965658327772257672200916867547709591987078149624255479808nat) by (nonlinear_arith);
    assert(pow24(15722853) < pow24(440) * 18788340662190665823115844774314696219005460391266558965658327772257672200916867547709591987078149624255479808nat) by (nonlinear_arith);
    lemma_edge_above(0x42efe966, 47, 15722854, 133, 363, 18788340662190665823115844774314696219005460391266558965658327772257672200916867547709591987078149624255479808nat);
    lemma_edge_below(0x42efe965, 47, 15722853, 133, 363, 18788340662190665823115844774314696219005460391266558965658327772257672200916867547709591987078149624255479808nat);
}

proof fn lemma_edge_48()
    ensures
        reaches_note(0x42fe2d77, 48),
        !reaches_note(0x42fe2d76, 48),
{
    lemma_pow2_table();
    assert(pow24(16657783) >= pow24(440) * 75153362648762663292463379097258784876021841565066235862633311089030688803667470190838367948312598497021919232nat) by (nonlinear_arith);
    assert(pow24(16657782) < pow24(440) * 75153362648762663292463379097258784876021841565066235862633311089030688803667470190838367948312598497021919232nat) by (nonlinear_arith);
    lemma_edge_above(0x42fe2d77, 48, 16657783, 133, 365, 75153362648762663292463379097258784876021841565066235862633311089030688803667470190838367948312598497021919232nat);
    lemma_edge_below(0x42fe2d76, 48, 16657782, 133, 365, 75153362648762663292463379097258784876021841565066235862633311089030688803667470190838367948312598497021919232nat);
}

proof fn lemma_edge_49()
    ensures
        reaches_note(0x4306a55a, 49),
        !reaches_note(0x4306a559, 49),
{
    lemma_pow2_table();
    assert(pow24(8824154) >= pow24(440) * 17917957937422433684459538244547554224973163977877196279199912807710334969441287563047019946172856926208nat) by (nonlinear_arith);
    assert(pow24(8824153) < pow24(440) * 17917957937422433684459538244547554224973163977877196279199912807710334969441287563047019946172856926208nat) by (nonlinear_arith);
    lemma_edge_above(0x4306a55a, 49, 8824154, 134, 343, 17917957937422433684459538244547554224973163977877196279199912807710334969441287563047019946172856926208nat);
    lemma_edge_below(0x4306a559, 49, 8824153, 134, 343, 17917957937422433684459538244547554224973163977877196279199912807710334969441287563047019946172856926208nat);
}

proof fn lemma_edge_50()
    ensures
        reaches_note(0x430ea701, 50),
        !reaches_note(0x430ea700, 50),
{
    lemma_pow2_table();
    assert(pow24(9348865) >= pow24(440) * 71671831749689734737838152978190216899892655911508785116799651230841339877765150252188079784691427704832nat) by (nonlinear_arith);
    assert(pow24(9348864) < pow24(440) * 71671831749689734737838152978190216899892655911508785116799651230841339877765150252188079784691427704832nat) by (nonlinear_arith);
    lemma_edge_above(0x430ea701, 50, 9348865, 134, 345, 71671831749689734737838152978190216899892655911508785116799651230841339877765150252188079784691427704832nat);
    lemma_edge_below(0x430ea700, 50, 9348864, 134, 345, 71671831749689734737838152978190216899892655911508785116799651230841339877765150252188079784691427704832nat);
}

proof fn lemma_edge_51()
    ensures
        reaches_note(0x43172289, 51),
        !reaches_note(0x43172288, 51),
{
    lemma_pow2_table();
    assert(pow24(9904777) >= pow24(440) * 286687326998758938951352611912760867599570623646035140467198604923365359511060601008752319138765710819328nat) by (nonlinear_arith);
    assert(pow24(9904776) < pow24(440) * 286687326998758938951352611912760867599570623646035140467198604923365359511060601008752319138765710819328nat) by (nonlinear_arith);
    lemma_edge_above(0x43172289, 51, 9904777, 134, 347, 286687326998758938951352611912760867599570623646035140467198604923365359511060601008752319138765710819328nat);
    lemma_edge_below(0x43172288, 51, 9904776, 134, 347, 286687326998758938951352611912760867599570623646035140467198604923365359511060601008752319138765710819328nat);
}

proof fn lemma_edge_52()
    ensures
        reaches_note(0x43201f32, 52),
        !reaches_note(0x43201f31, 52),
{
    lemma_pow2_table();
    assert(pow24(10493746) >= pow24(440) * 1146749307995035755805410447651043470398282494584140561868794419693461438044242404035009276555062843277312nat) by (nonlinear_arith);
    assert(pow24(10493745) < pow24(440) * 1146749307995035755805410447651043470398282494584140561868794419693461438044242404035009276555062843277312nat) by (nonlinear_arith);
    lemma_edge_above(0x43201f32, 52, 10493746, 134, 349, 1146749307995035755805410447651043470398282494584140561868794419693461438044242404035009276555062843277312nat);
    lemma_edge_below(0x43201f31, 52, 10493745, 134, 349, 1146749307995035755805410447651043470398282494584140561868794419693461438044242404035009276555062843277312nat);
}

proof fn lemma_edge_53()
    ensures
        reaches_note(0x4329a4a9, 53),
        !reaches_note(0x4329a4a8, 53),
{
    lemma_pow2_table();
    assert(pow24(11117737) >= pow24(440) * 4586997231980143023221641790604173881593129978336562247475177678773845752176969616140037106220251373109248nat) by (nonlinear_arith);
    assert(pow24(11117736) < pow24(440) * 4586997231980143023221641790604173881593129978336562247475177678773845752176969616140037106220251373109248nat) by (nonlinear_arith);
    lemma_edge_above(0x4329a4a9, 53, 11117737, 134, 351, 4586997231980143023221641790604173881593129978336562247475177678773845752176969616140037106220251373109248nat);
    lemma_edge_below(0x4329a4a8, 53, 11117736, 134, 351, 4586997231980143023221641790604173881593129978336562247475177678773845752176969616140037106220251373109248nat);
}

proof fn lemma_edge_54()
    ensures
        reaches_note(0x4333bb10, 54),
        !reaches_note(0x4333bb0f, 54),
{
    lemma_pow2_table();
    assert(pow24(11778832) >= pow24(440) * 18347988927920572092886567162416695526372519913346248989900710715095383008707878464560148424881005492436992nat) by (nonlinear_arith);
    assert(pow24(11778831) < pow24(440) * 18347988927920572092886567162416695526372519913346248989900710715095383008707878464560148424881005492436992nat) by (nonlinear_arith);
    lemma_edge_above(0x4333bb10, 54, 11778832, 134, 353, 18347988927920572092886567162416695526372519913346248989900710715095383008707878464560148424881005492436992nat);
    lemma_edge_below(0x4333bb0f, 54, 11778831, 134, 353, 18347988927920572092886567162416695526372519913346248989900710715095383008707878464560148424881005492436992nat);
}

proof fn lemma_edge_55()
    ensures
        reaches_note(0x433e6b05, 55),
        !reaches_note(0x433e6b04, 55),
{
    lemma_pow2_table();
    assert(pow24(12479237) >= pow24(440) * 73391955711682288371546268649666782105490079653384995959602842860381532034831513858240593699524021969747968nat) by (nonlinear_arith);
    assert(pow24(12479236) < pow24(440) * 73391955711682288371546268649666782105490079653384995959602842860381532034831513858240593699524021969747968nat) by (nonlinear_arith);
    lemma_edge_above(0x433e6b05, 55, 12479237, 134, 355, 73391955711682288371546268649666782105490079653384995959602842860381532034831513858240593699524021969747968nat);
    lemma_edge_below(0x433e6b04, 55, 12479236, 134, 355, 73391955711682288371546268649666782105490079653384995959602842860381532034831513858240593699524021969747968nat);
}

proof fn lemma_edge_56()
    ensures
        reaches_note(0x4349bdab, 56),
        !reaches_note(0x4349bdaa, 56),
{
    lemma_pow2_table();
    assert(pow24(13221291) >= pow24(440) * 293567822846729153486185074598667128421960318613539983838411371441526128139326055432962374798096087878991872nat) by (nonlinear_arith);
    assert(pow24(13221290) < pow24(440) * 293567822846729153486185074598667128421960318613539983838411371441526128139326055432962374798096087878991872nat) by (nonlinear_arith);
    lemma_edge_above(0x4349bdab, 56, 13221291, 134, 357, 293567822846729153486185074598667128421960318613539983838411371441526128139326055432962374798096087878991872nat);
    lemma_edge_below(0x4349bdaa, 56, 13221290, 134, 357, 293567822846729153486185074598667128421960318613539983838411371441526128139326055432962374798096087878991872nat);
}

proof fn lemma_edge_57()
    ensures
        reaches_note(0x4355bcae, 57),
        !reaches_note(0x4355bcad, 57),
{
    lemma_pow2_table();
    assert(pow24(14007470) >= pow24(440) * 1174271291386916613944740298394668513687841274454159935353645485766104512557304221731849499192384351515967488nat) by (nonlinear_arith);
    assert(pow24(14007469) < pow24(440) * 1174271291386916613944740298394668513687841274454159935353645485766104512557304221731849499192384351515967488nat) by (nonlinear_arith);
    lemma_edge_above(0x4355bcae, 57, 14007470, 134, 359, 1174271291386916613944740298394668513687841274454159935353645485766104512557304221731849499192384351515967488nat);
    lemma_edge_below(0x4355bcad, 57, 14007469, 134, 359, 1174271291386916613944740298394668513687841274454159935353645485766104512557304221731849499192384351515967488nat);
}

proof fn lemma_edge_58()
    ensures
        reaches_note(0x4362724e, 58),
        !reaches_note(0x4362724d, 58),
{
    lemma_pow2_table();
    assert(pow24(14840398) >= pow24(440) * 4697085165547666455778961193578674054751365097816639741414581943064418050229216886927397996769537406063869952nat) by (nonlinear_arith);
    assert(pow24(14840397) < pow24(440) * 4697085165547666455778961193578674054751365097816639741414581943064418050229216886927397996769537406063869952nat) by (nonlinear_arith);
    lemma_edge_above(0x4362724e, 58, 14840398, 134, 361, 4697085165547666455778961193578674054751365097816639741414581943064418050229216886927397996769537406063869952nat);
    lemma_edge_below(0x4362724d, 58, 14840397, 134, 361, 4697085165547666455778961193578674054751365097816639741414581943064418050229216886927397996769537406063869952nat);
}

proof fn lemma_edge_59()
    ensures
        reaches_note(0x436fe966, 59),
        !reaches_note(0x436fe965, 59),
{
    lemma_pow2_table();
    assert(pow24(15722854) >= pow24(440) * 18788340662190665823115844774314696219005460391266558965658327772257672200916867547709591987078149624255479808nat) by (nonlinear_arith);
    assert(pow24(15722853) < pow24(440) * 18788340662190665823115844774314696219005460391266558965658327772257672200916867547709591987078149624255479808nat) by (nonlinear_arith);
    lemma_edge_above(0x436fe966, 59, 15722854, 134, 363, 18788340662190665823115844774314696219005460391266558965658327772257672200916867547709591987078149624255479808nat);
    lemma_edge_below(0x436fe965, 59, 15722853, 134, 363, 18788340662190665823115844774314696219005460391266558965658327772257672200916867547709591987078149624255479808nat);
}

proof fn lemma_edge_60()
    ensures
        reaches_note(0x437e2d77, 60),
        !reaches_note(0x437e2d76, 60),
{
    lemma_pow2_table();
    assert(pow24(16657783) >= pow24(440) * 75153362648762663292463379097258784876021841565066235862633311089030688803667470190838367948312598497021919232nat) by (nonlinear_arith);
    assert(pow24(16657782) < pow24(440) * 75153362648762663292463379097258784876021841565066235862633311089030688803667470190838367948312598497021919232nat) by (nonlinear_arith);
    lemma_edge_above(0x437e2d77, 60, 16657783, 134, 365, 75153362648762663292463379097258784876021841565066235862633311089030688803667470190838367948312598497021919232nat);
    lemma_edge_below(0x437e2d76, 60, 16657782, 134, 365, 75153362648762663292463379097258784876021841565066235862633311089030688803667470190838367948312598497021919232nat);
}

proof fn lemma_edge_61()
    ensures
        reaches_note(0x4386a55a, 61),
        !reaches_note(0x4386a559, 61),
{
    lemma_pow2_table();
    assert(pow24(8824154) >= pow24(440) * 17917957937422433684459538244547554224973163977877196279199912807710334969441287563047019946172856926208nat) by (nonlinear_arith);
    assert(pow24(8824153) < pow24(440) * 17917957937422433684459538244547554224973163977877196279199912807710334969441287563047019946172856926208nat) by (nonlinear_arith);
    lemma_edge_above(0x4386a55a, 61, 8824154, 135, 343, 17917957937422433684459538244547554224973163977877196279199912807710334969441287563047019946172856926208nat);
    lemma_edge_below(0x4386a559, 61, 8824153, 135, 343, 17917957937422433684459538244547554224973163977877196279199912807710334969441287563047019946172856926208nat);
}

proof fn lemma_edge_62()
    ensures
        reaches_note(0x438ea701, 62),
        !reaches_note(0x438ea700, 62),
{
    lemma_pow2_table();
    assert(pow24(9348865) >= pow24(440) * 71671831749689734737838152978190216899892655911508785116799651230841339877765150252188079784691427704832nat) by (nonlinear_arith);
    assert(pow24(9348864) < pow24(440) * 71671831749689734737838152978190216899892655911508785116799651230841339877765150252188079784691427704832nat) by (nonlinear_arith);
    lemma_edge_above(0x438ea701, 62, 9348865, 135, 345, 71671831749689734737838152978190216899892655911508785116799651230841339877765150252188079784691427704832nat);
    lemma_edge_below(0x438ea700, 62, 9348864, 135, 345, 71671831749689734737838152978190216899892655911508785116799651230841339877765150252188079784691427704832nat);
}

proof fn lemma_edge_63()
    ensures
        reaches_note(0x43972289, 63),
        !reaches_note(0x43972288, 63),
{
    lemma_pow2_table();
    assert(pow24(9904777) >= pow24(440) * 286687326998758938951352611912760867599570623646035140467198604923365359511060601008752319138765710819328nat) by (nonlinear_arith);
    assert(pow24(9904776) < pow24(440) * 286687326998758938951352611912760867599570623646035140467198604923365359511060601008752319138765710819328nat) by (nonlinear_arith);
    lemma_edge_above(0x43972289, 63, 9904777, 135, 347, 286687326998758938951352611912760867599570623646035140467198604923365359511060601008752319138765710819328nat);
    lemma_edge_below(0x43972288, 63, 9904776, 135, 347, 286687326998758938951352611912760867599570623646035140467198604923365359511060601008752319138765710819328nat);
}

proof fn lemma_edge_64()
    ensures
        reaches_note(0x43a01f32, 64),
        !reaches_note(0x43a01f31, 64),
{
    lemma_pow2_table();
    assert(pow24(10493746) >= pow24(440) * 1146749307995035755805410447651043470398282494584140561868794419693461438044242404035009276555062843277312nat) by (nonlinear_arith);
    assert(pow24(10493745) < pow24(440) * 1146749307995035755805410447651043470398282494584140561868794419693461438044242404035009276555062843277312nat) by (nonlinear_arith);
    lemma_edge_above(0x43a01f32, 64, 10493746, 135, 349, 1146749307995035755805410447651043470398282494584140561868794419693461438044242404035009276555062843277312nat);
    lemma_edge_below(0x43a01f31, 64, 10493745, 135, 349, 1146749307995035755805410447651043470398282494584140561868794419693461438044242404035009276555062843277312nat);
}

proof fn lemma_edge_65()
    ensures
        reaches_note(0x43a9a4a9, 65),
        !reaches_note(0x43a9a4a8, 65),
{
    lemma_pow2_table();
    assert(pow24(11117737) >= pow24(440) * 4586997231980143023221641790604173881593129978336562247475177678773845752176969616140037106220251373109248nat) by (nonlinear_arith);
    assert(pow24(11117736) < pow24(440) * 4586997231980143023221641790604173881593129978336562247475177678773845752176969616140037106220251373109248nat) by (nonlinear_arith);
    lemma_edge_above(0x43a9a4a9, 65, 11117737, 135, 351, 4586997231980143023221641790604173881593129978336562247475177678773845752176969616140037106220251373109248nat);
    lemma_edge_below(0x43a9a4a8, 65, 11117736, 135, 351, 4586997231980143023221641790604173881593129978336562247475177678773845752176969616140037106220251373109248nat);
}

proof fn lemma_edge_66()
    ensures
        reaches_note(0x43b3bb10, 66),
        !reaches_note(0x43b3bb0f, 66),
{
    lemma_pow2_table();
    assert(pow24(11778832) >= pow24(440) * 18347988927920572092886567162416695526372519913346248989900710715095383008707878464560148424881005492436992nat) by (nonlinear_arith);
    assert(pow24(11778831) < pow24(440) * 18347988927920572092886567162416695526372519913346248989900710715095383008707878464560148424881005492436992nat) by (nonlinear_arith);
    lemma_edge_above(0x43b3bb10, 66, 11778832, 135, 353, 18347988927920572092886567162416695526372519913346248989900710715095383008707878464560148424881005492436992nat);
    lemma_edge_below(0x43b3bb0f, 66, 11778831, 135, 353, 18347988927920572092886567162416695526372519913346248989900710715095383008707878464560148424881005492436992nat);
}

proof fn lemma_edge_67()
    ensures
        reaches_note(0x43be6b05, 67),
        !reaches_note(0x43be6b04, 67),
{
    lemma_pow2_table();
    assert(pow24(12479237) >= pow24(440) * 73391955711682288371546268649666782105490079653384995959602842860381532034831513858240593699524021969747968nat) by (nonlinear_arith);
    assert(pow24(12479236) < pow24(440) * 73391955711682288371546268649666782105490079653384995959602842860381532034831513858240593699524021969747968nat) by (nonlinear_arith);
    lemma_edge_above(0x43be6b05, 67, 12479237, 135, 355, 73391955711682288371546268649666782105490079653384995959602842860381532034831513858240593699524021969747968nat);
    lemma_edge_below(0x43be6b04, 67, 12479236, 135, 355, 73391955711682288371546268649666782105490079653384995959602842860381532034831513858240593699524021969747968nat);
}

proof fn lemma_edge_68()
    ensures
        reaches_note(0x43c9bdab, 68),
        !reaches_note(0x43c9bdaa, 68),
{
    lemma_pow2_table();
    assert(pow24(13221291) >= pow24(440) * 293567822846729153486185074598667128421960318613539983838411371441526128139326055432962374798096087878991872nat) by (nonlinear_arith);
    assert(pow24(13221290) < pow24(440) * 293567822846729153486185074598667128421960318613539983838411371441526128139326055432962374798096087878991872nat) by (nonlinear_arith);
    lemma_edge_above(0x43c9bdab, 68, 13221291, 135, 357, 293567822846729153486185074598667128421960318613539983838411371441526128139326055432962374798096087878991872nat);
    lemma_edge_below(0x43c9bdaa, 68, 13221290, 135, 357, 293567822846729153486185074598667128421960318613539983838411371441526128139326055432962374798096087878991872nat);
}

proof fn lemma_edge_69()
    ensures
        reaches_note(0x43d5bcae, 69),
        !reaches_note(0x43d5bcad, 69),
{
    lemma_pow2_table();
    assert(pow24(14007470) >= pow24(440) * 1174271291386916613944740298394668513687841274454159935353645485766104512557304221731849499192384351515967488nat) by (nonlinear_arith);
    assert(pow24(14007469) < pow24(440) * 1174271291386916613944740298394668513687841274454159935353645485766104512557304221731849499192384351515967488nat) by (nonlinear_arith);
    lemma_edge_above(0x43d5bcae, 69, 14007470, 135, 359, 1174271291386916613944740298394668513687841274454159935353645485766104512557304221731849499192384351515967488nat);
    lemma_edge_below(0x43d5bcad, 69, 14007469, 135, 359, 1174271291386916613944740298394668513687841274454159935353645485766104512557304221731849499192384351515967488nat);
}

proof fn lemma_edge_70()
    ensures
        reaches_note(0x43e2724e, 70),
        !reaches_note(0x43e2724d, 70),
{
    lemma_pow2_table();
    assert(pow24(14840398) >= pow24(440) * 4697085165547666455778961193578674054751365097816639741414581943064418050229216886927397996769537406063869952nat) by (nonlinear_arith);
    assert(pow24(14840397) < pow24(440) * 4697085165547666455778961193578674054751365097816639741414581943064418050229216886927397996769537406063869952nat) by (nonlinear_arith);
    lemma_edge_above(0x43e2724e, 70, 14840398, 135, 361, 4697085165547666455778961193578674054751365097816639741414581943064418050229216886927397996769537406063869952nat);
    lemma_edge_below(0x43e2724d, 70, 14840397, 135, 361, 4697085165547666455778961193578674054751365097816639741414581943064418050229216886927397996769537406063869952nat);
}

proof fn lemma_edge_71()
    ensures
        reaches_note(0x43efe966, 71),
        !reaches_note(0x43efe965, 71),
{
    lemma_pow2_table();
    assert(pow24(15722854) >= pow24(440) * 18788340662190665823115844774314696219005460391266558965658327772257672200916867547709591987078149624255479808nat) by (nonlinear_arith);
    assert(pow24(15722853) < pow24(440) * 18788340662190665823115844774314696219005460391266558965658327772257672200916867547709591987078149624255479808nat) by (nonlinear_arith);
    lemma_edge_above(0x43efe966, 71, 15722854, 135, 363, 18788340662190665823115844774314696219005460391266558965658327772257672200916867547709591987078149624255479808nat);
    lemma_edge_below(0x43efe965, 71, 15722853, 135, 363, 18788340662190665823115844774314696219005460391266558965658327772257672200916867547709591987078149624255479808nat);
}

proof fn lemma_edge_72()
    ensures
        reaches_note(0x43fe2d77, 72),
        !reaches_note(0x43fe2d76, 72),
{
    lemma_pow2_table();
    assert(pow24(16657783) >= pow24(440) * 75153362648762663292463379097258784876021841565066235862633311089030688803667470190838367948312598497021919232nat) by (nonlinear_arith);
    assert(pow24(16657782) < pow24(440) * 75153362648762663292463379097258784876021841565066235862633311089030688803667470190838367948312598497021919232nat) by (nonlinear_arith);
    lemma_edge_above(0x43fe2d77, 72, 16657783, 135, 365, 75153362648762663292463379097258784876021841565066235862633311089030688803667470190838367948312598497021919232nat);
    lemma_edge_below(0x43fe2d76, 72, 16657782, 135, 365, 75153362648762663292463379097258784876021841565066235862633311089030688803667470190838367948312598497021919232nat);
}

proof fn lemma_edge_73()
    ensures
        reaches_note(0x4406a55a, 73),
        !reaches_note(0x4406a559, 73),
{
    lemma_pow2_table();
    assert(pow24(8824154) >= pow24(440) * 17917957937422433684459538244547554224973163977877196279199912807710334969441287563047019946172856926208nat) by (nonlinear_arith);
    assert(pow24(8824153) < pow24(440) * 17917957937422433684459538244547554224973163977877196279199912807710334969441287563047019946172856926208nat) by (nonlinear_arith);
    lemma_edge_above(0x4406a55a, 73, 8824154, 136, 343, 17917957937422433684459538244547554224973163977877196279199912807710334969441287563047019946172856926208nat);
    lemma_edge_below(0x4406a559, 73, 8824153, 136, 343, 17917957937422433684459538244547554224973163977877196279199912807710334969441287563047019946172856926208nat);
}

proof fn lemma_edge_74()
    ensures
        reaches_note(0x440ea701, 74),
        !reaches_note(0x440ea700, 74),
{
    lemma_pow2_table();
    assert(pow24(9348865) >= pow24(440) * 71671831749689734737838152978190216899892655911508785116799651230841339877765150252188079784691427704832nat) by (nonlinear_arith);
    assert(pow24(9348864) < pow24(440) * 71671831749689734737838152978190216899892655911508785116799651230841339877765150252188079784691427704832nat) by (nonlinear_arith);
    lemma_edge_above(0x440ea701, 74, 9348865, 136, 345, 71671831749689734737838152978190216899892655911508785116799651230841339877765150252188079784691427704832nat);
    lemma_edge_below(0x440ea700, 74, 9348864, 136, 345, 71671831749689734737838152978190216899892655911508785116799651230841339877765150252188079784691427704832nat);
}

proof fn lemma_edge_75()
    ensures
        reaches_note(0x44172289, 75),
        !reaches_note(0x44172288, 75),
{
    lemma_pow2_table();
    assert(pow24(9904777) >= pow24(440) * 286687326998758938951352611912760867599570623646035140467198604923365359511060601008752319138765710819328nat) by (nonlinear_arith);
    assert(pow24(9904776) < pow24(440) * 286687326998758938951352611912760867599570623646035140467198604923365359511060601008752319138765710819328nat) by (nonlinear_arith);
    lemma_edge_above(0x44172289, 75, 9904777, 136, 347, 286687326998758938951352611912760867599570623646035140467198604923365359511060601008752319138765710819328nat);
    lemma_edge_below(0x44172288, 75, 9904776, 136, 347, 286687326998758938951352611912760867599570623646035140467198604923365359511060601008752319138765710819328nat);
}

proof fn lemma_edge_76()
    ensures
        reaches_note(0x44201f32, 76),
        !reaches_note(0x44201f31, 76),
{
    lemma_pow2_table();
    assert(pow24(10493746) >= pow24(440) * 1146749307995035755805410447651043470398282494584140561868794419693461438044242404035009276555062843277312nat) by (nonlinear_arith);
    assert(pow24(10493745) < pow24(440) * 1146749307995035755805410447651043470398282494584140561868794419693461438044242404035009276555062843277312nat) by (nonlinear_arith);
    lemma_edge_above(0x44201f32, 76, 10493746, 136, 349, 1146749307995035755805410447651043470398282494584140561868794419693461438044242404035009276555062843277312nat);
    lemma_edge_below(0x44201f31, 76, 10493745, 136, 349, 1146749307995035755805410447651043470398282494584140561868794419693461438044242404035009276555062843277312nat);
}

proof fn lemma_edge_77()
    ensures
        reaches_note(0x4429a4a9, 77),
        !reaches_note(0x4429a4a8, 77),
{
    lemma_pow2_table();
    assert(pow24(11117737) >= pow24(440) * 4586997231980143023221641790604173881593129978336562247475177678773845752176969616140037106220251373109248nat) by (nonlinear_arith);
    assert(pow24(11117736) < pow24(440) * 4586997231980143023221641790604173881593129978336562247475177678773845752176969616140037106220251373109248nat) by (nonlinear_arith);
    lemma_edge_above(0x4429a4a9, 77, 11117737, 136, 351, 4586997231980143023221641790604173881593129978336562247475177678773845752176969616140037106220251373109248nat);
    lemma_edge_below(0x4429a4a8, 77, 11117736, 136, 351, 4586997231980143023221641790604173881593129978336562247475177678773845752176969616140037106220251373109248nat);
}

proof fn lemma_edge_78()
    ensures
        reaches_note(0x4433bb10, 78),
        !reaches_note(0x4433bb0f, 78),
{
    lemma_pow2_table();
    assert(pow24(11778832) >= pow24(440) * 18347988927920572092886567162416695526372519913346248989900710715095383008707878464560148424881005492436992nat) by (nonlinear_arith);
    assert(pow24(11778831) < pow24(440) * 18347988927920572092886567162416695526372519913346248989900710715095383008707878464560148424881005492436992nat) by (nonlinear_arith);
    lemma_edge_above(0x4433bb10, 78, 11778832, 136, 353, 18347988927920572092886567162416695526372519913346248989900710715095383008707878464560148424881005492436992nat);
    lemma_edge_below(0x4433bb0f, 78, 11778831, 136, 353, 18347988927920572092886567162416695526372519913346248989900710715095383008707878464560148424881005492436992nat);
}

proof fn lemma_edge_79()
    ensures
        reaches_note(0x443e6b05, 79),
        !reaches_note(0x443e6b04, 79),
{
    lemma_pow2_table();
    assert(pow24(12479237) >= pow24(440) * 73391955711682288371546268649666782105490079653384995959602842860381532034831513858240593699524021969747968nat) by (nonlinear_arith);
    assert(pow24(12479236) < pow24(440) * 73391955711682288371546268649666782105490079653384995959602842860381532034831513858240593699524021969747968nat) by (nonlinear_arith);
    lemma_edge_above(0x443e6b05, 79, 12479237, 136, 355, 73391955711682288371546268649666782105490079653384995959602842860381532034831513858240593699524021969747968nat);
    lemma_edge_below(0x443e6b04, 79, 12479236, 136, 355, 73391955711682288371546268649666782105490079653384995959602842860381532034831513858240593699524021969747968nat);
}

proof fn lemma_edge_80()
    ensures
        reaches_note(0x4449bdab, 80),
        !reaches_note(0x4449bdaa, 80),
{
    lemma_pow2_table();
    assert(pow24(13221291) >= pow24(440) * 293567822846729153486185074598667128421960318613539983838411371441526128139326055432962374798096087878991872nat) by (nonlinear_arith);
    assert(pow24(13221290) < pow24(440) * 293567822846729153486185074598667128421960318613539983838411371441526128139326055432962374798096087878991872nat) by (nonlinear_arith);
    lemma_edge_above(0x4449bdab, 80, 13221291, 136, 357, 293567822846729153486185074598667128421960318613539983838411371441526128139326055432962374798096087878991872nat);
    lemma_edge_below(0x4449bdaa, 80, 13221290, 136, 357, 293567822846729153486185074598667128421960318613539983838411371441526128139326055432962374798096087878991872nat);
}

proof fn lemma_edge_81()
    ensures
        reaches_note(0x4455bcae, 81),
        !reaches_note(0x4455bcad, 81),
{
    lemma_pow2_table();
    assert(pow24(14007470) >= pow24(440) * 1174271291386916613944740298394668513687841274454159935353645485766104512557304221731849499192384351515967488nat) by (nonlinear_arith);
    assert(pow24(14007469) < pow24(440) * 1174271291386916613944740298394668513687841274454159935353645485766104512557304221731849499192384351515967488nat) by (nonlinear_arith);
    lemma_edge_above(0x4455bcae, 81, 14007470, 136, 359, 1174271291386916613944740298394668513687841274454159935353645485766104512557304221731849499192384351515967488nat);
    lemma_edge_below(0x4455bcad, 81, 14007469, 136, 359, 1174271291386916613944740298394668513687841274454159935353645485766104512557304221731849499192384351515967488nat);
}

proof fn lemma_edge_82()
    ensures
        reaches_note(0x4462724e, 82),
        !reaches_note(0x4462724d, 82),
{
    lemma_pow2_table();
    assert(pow24(14840398) >= pow24(440) * 4697085165547666455778961193578674054751365097816639741414581943064418050229216886927397996769537406063869952nat) by (nonlinear_arith);
    assert(pow24(14840397) < pow24(440) * 4697085165547666455778961193578674054751365097816639741414581943064418050229216886927397996769537406063869952nat) by (nonlinear_arith);
    lemma_edge_above(0x4462724e, 82, 14840398, 136, 361, 4697085165547666455778961193578674054751365097816639741414581943064418050229216886927397996769537406063869952nat);
    lemma_edge_below(0x4462724d, 82, 14840397, 136, 361, 4697085165547666455778961193578674054751365097816639741414581943064418050229216886927397996769537406063869952nat);
}

proof fn lemma_edge_83()
    ensures
        reaches_note(0x446fe966, 83),
        !reaches_note(0x446fe965, 83),
{
    lemma_pow2_table();
    assert(pow24(15722854) >= pow24(440) * 18788340662190665823115844774314696219005460391266558965658327772257672200916867547709591987078149624255479808nat) by (nonlinear_arith);
    assert(pow24(15722853) < pow24(440) * 18788340662190665823115844774314696219005460391266558965658327772257672200916867547709591987078149624255479808nat) by (nonlinear_arith);
    lemma_edge_above(0x446fe966, 83, 15722854, 136, 363, 18788340662190665823115844774314696219005460391266558965658327772257672200916867547709591987078149624255479808nat);
    lemma_edge_below(0x446fe965, 83, 15722853, 136, 363, 18788340662190665823115844774314696219005460391266558965658327772257672200916867547709591987078149624255479808nat);
}

proof fn lemma_edge_84()
    ensures
        reaches_note(0x447e2d77, 84),
        !reaches_note(0x447e2d76, 84),
{
    lemma_pow2_table();
    assert(pow24(16657783) >= pow24(440) * 75153362648762663292463379097258784876021841565066235862633311089030688803667470190838367948312598497021919232nat) by (nonlinear_arith);
    assert(pow24(16657782) < pow24(440) * 75153362648762663292463379097258784876021841565066235862633311089030688803667470190838367948312598497021919232nat) by (nonlinear_arith);
    lemma_edge_above(0x447e2d77, 84, 16657783, 136, 365, 75153362648762663292463379097258784876021841565066235862633311089030688803667470190838367948312598497021919232nat);
    lemma_edge_below(0x447e2d76, 84, 16657782, 136, 365, 75153362648762663292463379097258784876021841565066235862633311089030688803667470190838367948312598497021919232nat);
}

proof fn lemma_edge_85()
    ensures
        reaches_note(0x4486a55a, 85),
        !reaches_note(0x4486a559, 85),
{
    lemma_pow2_table();
    assert(pow24(8824154) >= pow24(440) * 17917957937422433684459538244547554224973163977877196279199912807710334969441287563047019946172856926208nat) by (nonlinear_arith);
    assert(pow24(8824153) < pow24(440) * 17917957937422433684459538244547554224973163977877196279199912807710334969441287563047019946172856926208nat) by (nonlinear_arith);
    lemma_edge_above(0x4486a55a, 85, 8824154, 137, 343, 17917957937422433684459538244547554224973163977877196279199912807710334969441287563047019946172856926208nat);
    lemma_edge_below(0x4486a559, 85, 8824153, 137, 343, 17917957937422433684459538244547554224973163977877196279199912807710334969441287563047019946172856926208nat);
}

proof fn lemma_edge_86()
    ensures
        reaches_note(0x448ea701, 86),
        !reaches_note(0x448ea700, 86),
{
    lemma_pow2_table();
    assert(pow24(9348865) >= pow24(440) * 71671831749689734737838152978190216899892655911508785116799651230841339877765150252188079784691427704832nat) by (nonlinear_arith);
    assert(pow24(9348864) < pow24(440) * 71671831749689734737838152978190216899892655911508785116799651230841339877765150252188079784691427704832nat) by (nonlinear_arith);
    lemma_edge_above(0x448ea701, 86, 9348865, 137, 345, 71671831749689734737838152978190216899892655911508785116799651230841339877765150252188079784691427704832nat);
    lemma_edge_below(0x448ea700, 86, 9348864, 137, 345, 71671831749689734737838152978190216899892655911508785116799651230841339877765150252188079784691427704832nat);
}

proof fn lemma_edge_87()
    ensures
        reaches_note(0x44972289, 87),
        !reaches_note(0x44972288, 87),
{
    lemma_pow2_table();
    assert(pow24(9904777) >= pow24(440) * 286687326998758938951352611912760867599570623646035140467198604923365359511060601008752319138765710819328nat) by (nonlinear_arith);
    assert(pow24(9904776) < pow24(440) * 286687326998758938951352611912760867599570623646035140467198604923365359511060601008752319138765710819328nat) by (nonlinear_arith);
    lemma_edge_above(0x44972289, 87, 9904777, 137, 347, 286687326998758938951352611912760867599570623646035140467198604923365359511060601008752319138765710819328nat);
    lemma_edge_below(0x44972288, 87, 9904776, 137, 347, 286687326998758938951352611912760867599570623646035140467198604923365359511060601008752319138765710819328nat);
}

proof fn lemma_edge_88()
    ensures
        reaches_note(0x44a01f32, 88),
        !reaches_note(0x44a01f31, 88),
{
    lemma_pow2_table();
    assert(pow24(10493746) >= pow24(440) * 1146749307995035755805410447651043470398282494584140561868794419693461438044242404035009276555062843277312nat) by (nonlinear_arith);
    assert(pow24(10493745) < pow24(440) * 1146749307995035755805410447651043470398282494584140561868794419693461438044242404035009276555062843277312nat) by (nonlinear_arith);
    lemma_edge_above(0x44a01f32, 88, 10493746, 137, 349, 1146749307995035755805410447651043470398282494584140561868794419693461438044242404035009276555062843277312nat);
    lemma_edge_below(0x44a01f31, 88, 10493745, 137, 349, 1146749307995035755805410447651043470398282494584140561868794419693461438044242404035009276555062843277312nat);
}

proof fn lemma_edge_89()
    ensures
        reaches_note(0x44a9a4a9, 89),
        !reaches_note(0x44a9a4a8, 89),
{
    lemma_pow2_table();
    assert(pow24(11117737) >= pow24(440) * 4586997231980143023221641790604173881593129978336562247475177678773845752176969616140037106220251373109248nat) by (nonlinear_arith);
    assert(pow24(11117736) < pow24(440) * 4586997231980143023221641790604173881593129978336562247475177678773845752176969616140037106220251373109248nat) by (nonlinear_arith);
    lemma_edge_above(0x44a9a4a9, 89, 11117737, 137, 351, 4586997231980143023221641790604173881593129978336562247475177678773845752176969616140037106220251373109248nat);
    lemma_edge_below(0x44a9a4a8, 89, 11117736, 137, 351, 4586997231980143023221641790604173881593129978336562247475177678773845752176969616140037106220251373109248nat);
}

proof fn lemma_edge_90()
    ensures
        reaches_note(0x44b3bb10, 90),
        !reaches_note(0x44b3bb0f, 90),
{
    lemma_pow2_table();
    assert(pow24(11778832) >= pow24(440) * 18347988927920572092886567162416695526372519913346248989900710715095383008707878464560148424881005492436992nat) by (nonlinear_arith);
    assert(pow24(11778831) < pow24(440) * 18347988927920572092886567162416695526372519913346248989900710715095383008707878464560148424881005492436992nat) by (nonlinear_arith);
    lemma_edge_above(0x44b3bb10, 90, 11778832, 137, 353, 18347988927920572092886567162416695526372519913346248989900710715095383008707878464560148424881005492436992nat);
    lemma_edge_below(0x44b3bb0f, 90, 11778831, 137, 353, 18347988927920572092886567162416695526372519913346248989900710715095383008707878464560148424881005492436992nat);
}

proof fn lemma_edge_91()
    ensures
        reaches_note(0x44be6b05, 91),
        !reaches_note(0x44be6b04, 91),
{
    lemma_pow2_table();
    assert(pow24(12479237) >= pow24(440) * 73391955711682288371546268649666782105490079653384995959602842860381532034831513858240593699524021969747968nat) by (nonlinear_arith);
    assert(pow24(12479236) < pow24(440) * 73391955711682288371546268649666782105490079653384995959602842860381532034831513858240593699524021969747968nat) by (nonlinear_arith);
    lemma_edge_above(0x44be6b05, 91, 12479237, 137, 355, 73391955711682288371546268649666782105490079653384995959602842860381532034831513858240593699524021969747968nat);
    lemma_edge_below(0x44be6b04, 91, 12479236, 137, 355, 73391955711682288371546268649666782105490079653384995959602842860381532034831513858240593699524021969747968nat);
}

proof fn lemma_edge_92()
    ensures
        reaches_note(0x44c9bdab, 92),
        !reaches_note(0x44c9bdaa, 92),
{
    lemma_pow2_table();
    assert(pow24(13221291) >= pow24(440) * 293567822846729153486185074598667128421960318613539983838411371441526128139326055432962374798096087878991872nat) by (nonlinear_arith);
    assert(pow24(13221290) < pow24(440) * 293567822846729153486185074598667128421960318613539983838411371441526128139326055432962374798096087878991872nat) by (nonlinear_arith);
    lemma_edge_above(0x44c9bdab, 92, 13221291, 137, 357, 293567822846729153486185074598667128421960318613539983838411371441526128139326055432962374798096087878991872nat);
    lemma_edge_below(0x44c9bdaa, 92, 13221290, 137, 357, 293567822846729153486185074598667128421960318613539983838411371441526128139326055432962374798096087878991872nat);
}

proof fn lemma_edge_93()
    ensures
        reaches_note(0x44d5bcae, 93),
        !reaches_note(0x44d5bcad, 93),
{
    lemma_pow2_table();
    assert(pow24(14007470) >= pow24(440) * 1174271291386916613944740298394668513687841274454159935353645485766104512557304221731849499192384351515967488nat) by (nonlinear_arith);
    assert(pow24(14007469) < pow24(440) * 1174271291386916613944740298394668513687841274454159935353645485766104512557304221731849499192384351515967488nat) by (nonlinear_arith);
    lemma_edge_above(0x44d5bcae, 93, 14007470, 137, 359, 1174271291386916613944740298394668513687841274454159935353645485766104512557304221731849499192384351515967488nat);
    lemma_edge_below(0x44d5bcad, 93, 14007469, 137, 359, 1174271291386916613944740298394668513687841274454159935353645485766104512557304221731849499192384351515967488nat);
}

proof fn lemma_edge_94()
    ensures
        reaches_note(0x44e2724e, 94),
        !reaches_note(0x44e2724d, 94),
{
    lemma_pow2_table();
    assert(pow24(14840398) >= pow24(440) * 4697085165547666455778961193578674054751365097816639741414581943064418050229216886927397996769537406063869952nat) by (nonlinear_arith);
    assert(pow24(14840397) < pow24(440) * 4697085165547666455778961193578674054751365097816639741414581943064418050229216886927397996769537406063869952nat) by (nonlinear_arith);
    lemma_edge_above(0x44e2724e, 94, 14840398, 137, 361, 4697085165547666455778961193578674054751365097816639741414581943064418050229216886927397996769537406063869952nat);
    lemma_edge_below(0x44e2724d, 94, 14840397, 137, 361, 4697085165547666455778961193578674054751365097816639741414581943064418050229216886927397996769537406063869952nat);
}

proof fn lemma_edge_95()
    ensures
        reaches_note(0x44efe966, 95),
        !reaches_note(0x44efe965, 95),
{
    lemma_pow2_table();
    assert(pow24(15722854) >= pow24(440) * 18788340662190665823115844774314696219005460391266558965658327772257672200916867547709591987078149624255479808nat) by (nonlinear_arith);
    assert(pow24(15722853) < pow24(440) * 18788340662190665823115844774314696219005460391266558965658327772257672200916867547709591987078149624255479808nat) by (nonlinear_arith);
    lemma_edge_above(0x44efe966, 95, 15722854, 137, 363, 18788340662190665823115844774314696219005460391266558965658327772257672200916867547709591987078149624255479808nat);
    lemma_edge_below(0x44efe965, 95, 15722853, 137, 363, 18788340662190665823115844774314696219005460391266558965658327772257672200916867547709591987078149624255479808nat);
}

proof fn lemma_edge_96()
    ensures
        reaches_note(0x44fe2d77, 96),
        !reaches_note(0x44fe2d76, 96),
{
    lemma_pow2_table();
    assert(pow24(16657783) >= pow24(440) * 75153362648762663292463379097258784876021841565066235862633311089030688803667470190838367948312598497021919232nat) by (nonlinear_arith);
    assert(pow24(16657782) < pow24(440) * 75153362648762663292463379097258784876021841565066235862633311089030688803667470190838367948312598497021919232nat) by (nonlinear_arith);
    lemma_edge_above(0x44fe2d77, 96, 16657783, 137, 365, 75153362648762663292463379097258784876021841565066235862633311089030688803667470190838367948312598497021919232nat);
    lemma_edge_below(0x44fe2d76, 96, 16657782, 137, 365, 75153362648762663292463379097258784876021841565066235862633311089030688803667470190838367948312598497021919232nat);
}

proof fn lemma_edge_97()
    ensures
        reaches_note(0x4506a55a, 97),
        !reaches_note(0x4506a559, 97),
{
    lemma_pow2_table();
    assert(pow24(8824154) >= pow24(440) * 17917957937422433684459538244547554224973163977877196279199912807710334969441287563047019946172856926208nat) by (nonlinear_arith);
    assert(pow24(8824153) < pow24(440) * 17917957937422433684459538244547554224973163977877196279199912807710334969441287563047019946172856926208nat) by (nonlinear_arith);
    lemma_edge_above(0x4506a55a, 97, 8824154, 138, 343, 17917957937422433684459538244547554224973163977877196279199912807710334969441287563047019946172856926208nat);
    lemma_edge_below(0x4506a559, 97, 8824153, 138, 343, 17917957937422433684459538244547554224973163977877196279199912807710334969441287563047019946172856926208nat);
}

proof fn lemma_edge_98()
    ensures
        reaches_note(0x450ea701, 98),
        !reaches_note(0x450ea700, 98),
{
    lemma_pow2_table();
    assert(pow24(9348865) >= pow24(440) * 71671831749689734737838152978190216899892655911508785116799651230841339877765150252188079784691427704832nat) by (nonlinear_arith);
    assert(pow24(9348864) < pow24(440) * 71671831749689734737838152978190216899892655911508785116799651230841339877765150252188079784691427704832nat) by (nonlinear_arith);
    lemma_edge_above(0x450ea701, 98, 9348865, 138, 345, 71671831749689734737838152978190216899892655911508785116799651230841339877765150252188079784691427704832nat);
    lemma_edge_below(0x450ea700, 98, 9348864, 138, 345, 71671831749689734737838152978190216899892655911508785116799651230841339877765150252188079784691427704832nat);
}

proof fn lemma_edge_99()
    ensures
        reaches_note(0x45172289, 99),
        !reaches_note(0x45172288, 99),
{
    lemma_pow2_table();
    assert(pow24(9904777) >= pow24(440) * 286687326998758938951352611912760867599570623646035140467198604923365359511060601008752319138765710819328nat) by (nonlinear_arith);
    assert(pow24(9904776) < pow24(440) * 286687326998758938951352611912760867599570623646035140467198604923365359511060601008752319138765710819328nat) by (nonlinear_arith);
    lemma_edge_above(0x45172289, 99, 9904777, 138, 347, 286687326998758938951352611912760867599570623646035140467198604923365359511060601008752319138765710819328nat);
    lemma_edge_below(0x45172288, 99, 9904776, 138, 347, 286687326998758938951352611912760867599570623646035140467198604923365359511060601008752319138765710819328nat);
}

proof fn lemma_edge_100()
    ensures
        reaches_note(0x45201f32, 100),
        !reaches_note(0x45201f31, 100),
{
    lemma_pow2_table();
    assert(pow24(10493746) >= pow24(440) * 1146749307995035755805410447651043470398282494584140561868794419693461438044242404035009276555062843277312nat) by (nonlinear_arith);
    assert(pow24(10493745) < pow24(440) * 1146749307995035755805410447651043470398282494584140561868794419693461438044242404035009276555062843277312nat) by (nonlinear_arith);
    lemma_edge_above(0x45201f32, 100, 10493746, 138, 349, 1146749307995035755805410447651043470398282494584140561868794419693461438044242404035009276555062843277312nat);
    lemma_edge_below(0x45201f31, 100, 10493745, 138, 349, 1146749307995035755805410447651043470398282494584140561868794419693461438044242404035009276555062843277312nat);
}

proof fn lemma_edge_101()
    ensures
        reaches_note(0x4529a4a9, 101),
        !reaches_note(0x4529a4a8, 101),
{
    lemma_pow2_table();
    assert(pow24(11117737) >= pow24(440) * 4586997231980143023221641790604173881593129978336562247475177678773845752176969616140037106220251373109248nat) by (nonlinear_arith);
    assert(pow24(11117736) < pow24(440) * 4586997231980143023221641790604173881593129978336562247475177678773845752176969616140037106220251373109248nat) by (nonlinear_arith);
    lemma_edge_above(0x4529a4a9, 101, 11117737, 138, 351, 4586997231980143023221641790604173881593129978336562247475177678773845752176969616140037106220251373109248nat);
    lemma_edge_below(0x4529a4a8, 101, 11117736, 138, 351, 4586997231980143023221641790604173881593129978336562247475177678773845752176969616140037106220251373109248nat);
}

proof fn lemma_edge_102()
    ensures
        reaches_note(0x4533bb10, 102),
        !reaches_note(0x4533bb0f, 102),
{
    lemma_pow2_table();
    assert(pow24(11778832) >= pow24(440) * 18347988927920572092886567162416695526372519913346248989900710715095383008707878464560148424881005492436992nat) by (nonlinear_arith);
    assert(pow24(11778831) < pow24(440) * 18347988927920572092886567162416695526372519913346248989900710715095383008707878464560148424881005492436992nat) by (nonlinear_arith);
    lemma_edge_above(0x4533bb10, 102, 11778832, 138, 353, 18347988927920572092886567162416695526372519913346248989900710715095383008707878464560148424881005492436992nat);
    lemma_edge_below(0x4533bb0f, 102, 11778831, 138, 353, 18347988927920572092886567162416695526372519913346248989900710715095383008707878464560148424881005492436992nat);
}

proof fn lemma_edge_103()
    ensures
        reaches_note(0x453e6b05, 103),
        !reaches_note(0x453e6b04, 103),
{
    lemma_pow2_table();
    assert(pow24(12479237) >= pow24(440) * 73391955711682288371546268649666782105490079653384995959602842860381532034831513858240593699524021969747968nat) by (nonlinear_arith);
    assert(pow24(12479236) < pow24(440) * 73391955711682288371546268649666782105490079653384995959602842860381532034831513858240593699524021969747968nat) by (nonlinear_arith);
    lemma_edge_above(0x453e6b05, 103, 12479237, 138, 355, 73391955711682288371546268649666782105490079653384995959602842860381532034831513858240593699524021969747968nat);
    lemma_edge_below(0x453e6b04, 103, 12479236, 138, 355, 73391955711682288371546268649666782105490079653384995959602842860381532034831513858240593699524021969747968nat);
}

proof fn lemma_edge_104()
    ensures
        reaches_note(0x4549bdab, 104),
        !reaches_note(0x4549bdaa, 104),
{
    lemma_pow2_table();
    assert(pow24(13221291) >= pow24(440) * 293567822846729153486185074598667128421960318613539983838411371441526128139326055432962374798096087878991872nat) by (nonlinear_arith);
    assert(pow24(13221290) < pow24(440) * 293567822846729153486185074598667128421960318613539983838411371441526128139326055432962374798096087878991872nat) by (nonlinear_arith);
    lemma_edge_above(0x4549bdab, 104, 13221291, 138, 357, 293567822846729153486185074598667128421960318613539983838411371441526128139326055432962374798096087878991872nat);
    lemma_edge_below(0x4549bdaa, 104, 13221290, 138, 357, 293567822846729153486185074598667128421960318613539983838411371441526128139326055432962374798096087878991872nat);
}

proof fn lemma_edge_105()
    ensures
        reaches_note(0x4555bcae, 105),
        !reaches_note(0x4555bcad, 105),
{
    lemma_pow2_table();
    assert(pow24(14007470) >= pow24(440) * 1174271291386916613944740298394668513687841274454159935353645485766104512557304221731849499192384351515967488nat) by (nonlinear_arith);
    assert(pow24(14007469) < pow24(440) * 1174271291386916613944740298394668513687841274454159935353645485766104512557304221731849499192384351515967488nat) by (nonlinear_arith);
    lemma_edge_above(0x4555bcae, 105, 14007470, 138, 359, 1174271291386916613944740298394668513687841274454159935353645485766104512557304221731849499192384351515967488nat);
    lemma_edge_below(0x4555bcad, 105, 14007469, 138, 359, 1174271291386916613944740298394668513687841274454159935353645485766104512557304221731849499192384351515967488nat);
}

proof fn lemma_edge_106()
    ensures
        reaches_note(0x4562724e, 106),
        !reaches_note(0x4562724d, 106),
{
    lemma_pow2_table();
    assert(pow24(14840398) >= pow24(440) * 4697085165547666455778961193578674054751365097816639741414581943064418050229216886927397996769537406063869952nat) by (nonlinear_arith);
    assert(pow24(14840397) < pow24(440) * 4697085165547666455778961193578674054751365097816639741414581943064418050229216886927397996769537406063869952nat) by (nonlinear_arith);
    lemma_edge_above(0x4562724e, 106, 14840398, 138, 361, 4697085165547666455778961193578674054751365097816639741414581943064418050229216886927397996769537406063869952nat);
    lemma_edge_below(0x4562724d, 106, 14840397, 138, 361, 4697085165547666455778961193578674054751365097816639741414581943064418050229216886927397996769537406063869952nat);
}

proof fn lemma_edge_107()
    ensures
        reaches_note(0x456fe966, 107),
        !reaches_note(0x456fe965, 107),
{
    lemma_pow2_table();
    assert(pow24(15722854) >= pow24(440) * 18788340662190665823115844774314696219005460391266558965658327772257672200916867547709591987078149624255479808nat) by (nonlinear_arith);
    assert(pow24(15722853) < pow24(440) * 18788340662190665823115844774314696219005460391266558965658327772257672200916867547709591987078149624255479808nat) by (nonlinear_arith);
    lemma_edge_above(0x456fe966, 107, 15722854, 138, 363, 18788340662190665823115844774314696219005460391266558965658327772257672200916867547709591987078149624255479808nat);
    lemma_edge_below(0x456fe965, 107, 15722853, 138, 363, 18788340662190665823115844774314696219005460391266558965658327772257672200916867547709591987078149624255479808nat);
}

proof fn lemma_edge_108()
    ensures
        reaches_note(0x457e2d77, 108),
        !reaches_note(0x457e2d76, 108),
{
    lemma_pow2_table();
    assert(pow24(16657783) >= pow24(440) * 75153362648762663292463379097258784876021841565066235862633311089030688803667470190838367948312598497021919232nat) by (nonlinear_arith);
    assert(pow24(16657782) < pow24(440) * 75153362648762663292463379097258784876021841565066235862633311089030688803667470190838367948312598497021919232nat) by (nonlinear_arith);
    lemma_edge_above(0x457e2d77, 108, 16657783, 138, 365, 75153362648762663292463379097258784876021841565066235862633311089030688803667470190838367948312598497021919232nat);
    lemma_edge_below(0x457e2d76, 108, 16657782, 138, 365, 75153362648762663292463379097258784876021841565066235862633311089030688803667470190838367948312598497021919232nat);
}

proof fn lemma_edge_109()
    ensures
        reaches_note(0x4586a55a, 109),
        !reaches_note(0x4586a559, 109),
{
    lemma_pow2_table();
    assert(pow24(8824154) >= pow24(440) * 17917957937422433684459538244547554224973163977877196279199912807710334969441287563047019946172856926208nat) by (nonlinear_arith);
    assert(pow24(8824153) < pow24(440) * 17917957937422433684459538244547554224973163977877196279199912807710334969441287563047019946172856926208nat) by (nonlinear_arith);
    lemma_edge_above(0x4586a55a, 109, 8824154, 139, 343, 17917957937422433684459538244547554224973163977877196279199912807710334969441287563047019946172856926208nat);
    lemma_edge_below(0x4586a559, 109, 8824153, 139, 343, 17917957937422433684459538244547554224973163977877196279199912807710334969441287563047019946172856926208nat);
}

proof fn lemma_edge_110()
    ensures
        reaches_note(0x458ea701, 110),
        !reaches_note(0x458ea700, 110),
{
    lemma_pow2_table();
    assert(pow24(9348865) >= pow24(440) * 71671831749689734737838152978190216899892655911508785116799651230841339877765150252188079784691427704832nat) by (nonlinear_arith);
    assert(pow24(9348864) < pow24(440) * 71671831749689734737838152978190216899892655911508785116799651230841339877765150252188079784691427704832nat) by (nonlinear_arith);
    lemma_edge_above(0x458ea701, 110, 9348865, 139, 345, 71671831749689734737838152978190216899892655911508785116799651230841339877765150252188079784691427704832nat);
    lemma_edge_below(0x458ea700, 110, 9348864, 139, 345, 71671831749689734737838152978190216899892655911508785116799651230841339877765150252188079784691427704832nat);
}

proof fn lemma_edge_111()
    ensures
        reaches_note(0x45972289, 111),
        !reaches_note(0x45972288, 111),
{
    lemma_pow2_table();
    assert(pow24(9904777) >= pow24(440) * 286687326998758938951352611912760867599570623646035140467198604923365359511060601008752319138765710819328nat) by (nonlinear_arith);
    assert(pow24(9904776) < pow24(440) * 286687326998758938951352611912760867599570623646035140467198604923365359511060601008752319138765710819328nat) by (nonlinear_arith);
    lemma_edge_above(0x45972289, 111, 9904777, 139, 347, 286687326998758938951352611912760867599570623646035140467198604923365359511060601008752319138765710819328nat);
    lemma_edge_below(0x45972288, 111, 9904776, 139, 347, 286687326998758938951352611912760867599570623646035140467198604923365359511060601008752319138765710819328nat);
}

proof fn lemma_edge_112()
    ensures
        reaches_note(0x45a01f32, 112),
        !reaches_note(0x45a01f31, 112),
{
    lemma_pow2_table();
    assert(pow24(10493746) >= pow24(440) * 1146749307995035755805410447651043470398282494584140561868794419693461438044242404035009276555062843277312nat) by (nonlinear_arith);
    assert(pow24(10493745) < pow24(440) * 1146749307995035755805410447651043470398282494584140561868794419693461438044242404035009276555062843277312nat) by (nonlinear_arith);
    lemma_edge_above(0x45a01f32, 112, 10493746, 139, 349, 1146749307995035755805410447651043470398282494584140561868794419693461438044242404035009276555062843277312nat);
    lemma_edge_below(0x45a01f31, 112, 10493745, 139, 349, 1146749307995035755805410447651043470398282494584140561868794419693461438044242404035009276555062843277312nat);
}

proof fn lemma_edge_113()
    ensures
        reaches_note(0x45a9a4a9, 113),
        !reaches_note(0x45a9a4a8, 113),
{
    lemma_pow2_table();
    assert(pow24(11117737) >= pow24(440) * 4586997231980143023221641790604173881593129978336562247475177678773845752176969616140037106220251373109248nat) by (nonlinear_arith);
    assert(pow24(11117736) < pow24(440) * 4586997231980143023221641790604173881593129978336562247475177678773845752176969616140037106220251373109248nat) by (nonlinear_arith);
    lemma_edge_above(0x45a9a4a9, 113, 11117737, 139, 351, 4586997231980143023221641790604173881593129978336562247475177678773845752176969616140037106220251373109248nat);
    lemma_edge_below(0x45a9a4a8, 113, 11117736, 139, 351, 4586997231980143023221641790604173881593129978336562247475177678773845752176969616140037106220251373109248nat);
}

proof fn lemma_edge_114()
    ensures
        reaches_note(0x45b3bb10, 114),
        !reaches_note(0x45b3bb0f, 114),
{
    lemma_pow2_table();
    assert(pow24(11778832) >= pow24(440) * 18347988927920572092886567162416695526372519913346248989900710715095383008707878464560148424881005492436992nat) by (nonlinear_arith);
    assert(pow24(11778831) < pow24(440) * 18347988927920572092886567162416695526372519913346248989900710715095383008707878464560148424881005492436992nat) by (nonlinear_arith);
    lemma_edge_above(0x45b3bb10, 114, 11778832, 139, 353, 18347988927920572092886567162416695526372519913346248989900710715095383008707878464560148424881005492436992nat);
    lemma_edge_below(0x45b3bb0f, 114, 11778831, 139, 353, 18347988927920572092886567162416695526372519913346248989900710715095383008707878464560148424881005492436992nat);
}

proof fn lemma_edge_115()
    ensures
        reaches_note(0x45be6b05, 115),
        !reaches_note(0x45be6b04, 115),
{
    lemma_pow2_table();
    assert(pow24(12479237) >= pow24(440) * 73391955711682288371546268649666782105490079653384995959602842860381532034831513858240593699524021969747968nat) by (nonlinear_arith);
    assert(pow24(12479236) < pow24(440) * 73391955711682288371546268649666782105490079653384995959602842860381532034831513858240593699524021969747968nat) by (nonlinear_arith);
    lemma_edge_above(0x45be6b05, 115, 12479237, 139, 355, 73391955711682288371546268649666782105490079653384995959602842860381532034831513858240593699524021969747968nat);
    lemma_edge_below(0x45be6b04, 115, 12479236, 139, 355, 73391955711682288371546268649666782105490079653384995959602842860381532034831513858240593699524021969747968nat);
}

proof fn lemma_edge_116()
    ensures
        reaches_note(0x45c9bdab, 116),
        !reaches_note(0x45c9bdaa, 116),
{
    lemma_pow2_table();
    assert(pow24(13221291) >= pow24(440) * 293567822846729153486185074598667128421960318613539983838411371441526128139326055432962374798096087878991872nat) by (nonlinear_arith);
    assert(pow24(13221290) < pow24(440) * 293567822846729153486185074598667128421960318613539983838411371441526128139326055432962374798096087878991872nat) by (nonlinear_arith);
    lemma_edge_above(0x45c9bdab, 116, 13221291, 139, 357, 293567822846729153486185074598667128421960318613539983838411371441526128139326055432962374798096087878991872nat);
    lemma_edge_below(0x45c9bdaa, 116, 13221290, 139, 357, 293567822846729153486185074598667128421960318613539983838411371441526128139326055432962374798096087878991872nat);
}

proof fn lemma_edge_117()
    ensures
        reaches_note(0x45d5bcae, 117),
        !reaches_note(0x45d5bcad, 117),
{
    lemma_pow2_table();
    assert(pow24(14007470) >= pow24(440) * 1174271291386916613944740298394668513687841274454159935353645485766104512557304221731849499192384351515967488nat) by (nonlinear_arith);
    assert(pow24(14007469) < pow24(440) * 1174271291386916613944740298394668513687841274454159935353645485766104512557304221731849499192384351515967488nat) by (nonlinear_arith);
    lemma_edge_above(0x45d5bcae, 117, 14007470, 139, 359, 1174271291386916613944740298394668513687841274454159935353645485766104512557304221731849499192384351515967488nat);
    lemma_edge_below(0x45d5bcad, 117, 14007469, 139, 359, 1174271291386916613944740298394668513687841274454159935353645485766104512557304221731849499192384351515967488nat);
}

proof fn lemma_edge_118()
    ensures
        reaches_note(0x45e2724e, 118),
        !reaches_note(0x45e2724d, 118),
{
    lemma_pow2_table();
    assert(pow24(14840398) >= pow24(440) * 4697085165547666455778961193578674054751365097816639741414581943064418050229216886927397996769537406063869952nat) by (nonlinear_arith);
    assert(pow24(14840397) < pow24(440) * 4697085165547666455778961193578674054751365097816639741414581943064418050229216886927397996769537406063869952nat) by (nonlinear_arith);
    lemma_edge_above(0x45e2724e, 118, 14840398, 139, 361, 4697085165547666455778961193578674054751365097816639741414581943064418050229216886927397996769537406063869952nat);
    lemma_edge_below(0x45e2724d, 118, 14840397, 139, 361, 4697085165547666455778961193578674054751365097816639741414581943064418050229216886927397996769537406063869952nat);
}

proof fn lemma_edge_119()
    ensures
        reaches_note(0x45efe966, 119),
        !reaches_note(0x45efe965, 119),
{
    lemma_pow2_table();
    assert(pow24(15722854) >= pow24(440) * 18788340662190665823115844774314696219005460391266558965658327772257672200916867547709591987078149624255479808nat) by (nonlinear_arith);
    assert(pow24(15722853) < pow24(440) * 18788340662190665823115844774314696219005460391266558965658327772257672200916867547709591987078149624255479808nat) by (nonlinear_arith);
    lemma_edge_above(0x45efe966, 119, 15722854, 139, 363, 18788340662190665823115844774314696219005460391266558965658327772257672200916867547709591987078149624255479808nat);
    lemma_edge_below(0x45efe965, 119, 15722853, 139, 363, 18788340662190665823115844774314696219005460391266558965658327772257672200916867547709591987078149624255479808nat);
}

proof fn lemma_edge_120()
    ensures
        reaches_note(0x45fe2d77, 120),
        !reaches_note(0x45fe2d76, 120),
{
    lemma_pow2_table();
    assert(pow24(16657783) >= pow24(440) * 75153362648762663292463379097258784876021841565066235862633311089030688803667470190838367948312598497021919232nat) by (nonlinear_arith);
    assert(pow24(16657782) < pow24(440) * 75153362648762663292463379097258784876021841565066235862633311089030688803667470190838367948312598497021919232nat) by (nonlinear_arith);
    lemma_edge_above(0x45fe2d77, 120, 16657783, 139, 365, 75153362648762663292463379097258784876021841565066235862633311089030688803667470190838367948312598497021919232nat);
    lemma_edge_below(0x45fe2d76, 120, 16657782, 139, 365, 75153362648762663292463379097258784876021841565066235862633311089030688803667470190838367948312598497021919232nat);
}

proof fn lemma_edge_121()
    ensures
        reaches_note(0x4606a55a, 121),
        !reaches_note(0x4606a559, 121),
{
    lemma_pow2_table();
    assert(pow24(8824154) >= pow24(440) * 17917957937422433684459538244547554224973163977877196279199912807710334969441287563047019946172856926208nat) by (nonlinear_arith);
    assert(pow24(8824153) < pow24(440) * 17917957937422433684459538244547554224973163977877196279199912807710334969441287563047019946172856926208nat) by (nonlinear_arith);
    lemma_edge_above(0x4606a55a, 121, 8824154, 140, 343, 17917957937422433684459538244547554224973163977877196279199912807710334969441287563047019946172856926208nat);
    lemma_edge_below(0x4606a559, 121, 8824153, 140, 343, 17917957937422433684459538244547554224973163977877196279199912807710334969441287563047019946172856926208nat);
}

proof fn lemma_edge_122()
    ensures
        reaches_note(0x460ea701, 122),
        !reaches_note(0x460ea700, 122),
{
    lemma_pow2_table();
    assert(pow24(9348865) >= pow24(440) * 71671831749689734737838152978190216899892655911508785116799651230841339877765150252188079784691427704832nat) by (nonlinear_arith);
    assert(pow24(9348864) < pow24(440) * 71671831749689734737838152978190216899892655911508785116799651230841339877765150252188079784691427704832nat) by (nonlinear_arith);
    lemma_edge_above(0x460ea701, 122, 9348865, 140, 345, 71671831749689734737838152978190216899892655911508785116799651230841339877765150252188079784691427704832nat);
    lemma_edge_below(0x460ea700, 122, 9348864, 140, 345, 71671831749689734737838152978190216899892655911508785116799651230841339877765150252188079784691427704832nat);
}

proof fn lemma_edge_123()
    ensures
        reaches_note(0x46172289, 123),
        !reaches_note(0x46172288, 123),
{
    lemma_pow2_table();
    assert(pow24(9904777) >= pow24(440) * 286687326998758938951352611912760867599570623646035140467198604923365359511060601008752319138765710819328nat) by (nonlinear_arith);
    assert(pow24(9904776) < pow24(440) * 286687326998758938951352611912760867599570623646035140467198604923365359511060601008752319138765710819328nat) by (nonlinear_arith);
    lemma_edge_above(0x46172289, 123, 9904777, 140, 347, 286687326998758938951352611912760867599570623646035140467198604923365359511060601008752319138765710819328nat);
    lemma_edge_below(0x46172288, 123, 9904776, 140, 347, 286687326998758938951352611912760867599570623646035140467198604923365359511060601008752319138765710819328nat);
}

proof fn lemma_edge_124()
    ensures
        reaches_note(0x46201f32, 124),
        !reaches_note(0x46201f31, 124),
{
    lemma_pow2_table();
    assert(pow24(10493746) >= pow24(440) * 1146749307995035755805410447651043470398282494584140561868794419693461438044242404035009276555062843277312nat) by (nonlinear_arith);
    assert(pow24(10493745) < pow24(440) * 1146749307995035755805410447651043470398282494584140561868794419693461438044242404035009276555062843277312nat) by (nonlinear_arith);
    lemma_edge_above(0x46201f32, 124, 10493746, 140, 349, 1146749307995035755805410447651043470398282494584140561868794419693461438044242404035009276555062843277312nat);
    lemma_edge_below(0x46201f31, 124, 10493745, 140, 349, 1146749307995035755805410447651043470398282494584140561868794419693461438044242404035009276555062843277312nat);
}

proof fn lemma_edge_125()
    ensures
        reaches_note(0x4629a4a9, 125),
        !reaches_note(0x4629a4a8, 125),
{
    lemma_pow2_table();
    assert(pow24(11117737) >= pow24(440) * 4586997231980143023221641790604173881593129978336562247475177678773845752176969616140037106220251373109248nat) by (nonlinear_arith);
    assert(pow24(11117736) < pow24(440) * 4586997231980143023221641790604173881593129978336562247475177678773845752176969616140037106220251373109248nat) by (nonlinear_arith);
    lemma_edge_above(0x4629a4a9, 125, 11117737, 140, 351, 4586997231980143023221641790604173881593129978336562247475177678773845752176969616140037106220251373109248nat);
    lemma_edge_below(0x4629a4a8, 125, 11117736, 140, 351, 4586997231980143023221641790604173881593129978336562247475177678773845752176969616140037106220251373109248nat);
}

proof fn lemma_edge_126()
    ensures
        reaches_note(0x4633bb10, 126),
        !reaches_note(0x4633bb0f, 126),
{
    lemma_pow2_table();
    assert(pow24(11778832) >= pow24(440) * 18347988927920572092886567162416695526372519913346248989900710715095383008707878464560148424881005492436992nat) by (nonlinear_arith);
    assert(pow24(11778831) < pow24(440) * 18347988927920572092886567162416695526372519913346248989900710715095383008707878464560148424881005492436992nat) by (nonlinear_arith);
    lemma_edge_above(0x4633bb10, 126, 11778832, 140, 353, 18347988927920572092886567162416695526372519913346248989900710715095383008707878464560148424881005492436992nat);
    lemma_edge_below(0x4633bb0f, 126, 11778831, 140, 353, 18347988927920572092886567162416695526372519913346248989900710715095383008707878464560148424881005492436992nat);
}

proof fn lemma_edge_127()
    ensures
        reaches_note(0x463e6b05, 127),
        !reaches_note(0x463e6b04, 127),
{
    lemma_pow2_table();
    assert(pow24(12479237) >= pow24(440) * 73391955711682288371546268649666782105490079653384995959602842860381532034831513858240593699524021969747968nat) by (nonlinear_arith);
    assert(pow24(12479236) < pow24(440) * 73391955711682288371546268649666782105490079653384995959602842860381532034831513858240593699524021969747968nat) by (nonlinear_arith);
    lemma_edge_above(0x463e6b05, 127, 12479237, 140, 355, 73391955711682288371546268649666782105490079653384995959602842860381532034831513858240593699524021969747968nat);
    lemma_edge_below(0x463e6b04, 127, 12479236, 140, 355, 73391955711682288371546268649666782105490079653384995959602842860381532034831513858240593699524021969747968nat);
}

/// The tabulated edge of note `n` is exact: it reaches note `n` and the
/// single just below it does not.
proof fn lemma_note_edge_exact(n: nat)
    requires
        1 <= n <= 127,
    ensures
        note_edge(n) < 0x7f800000,
        note_edge(n) >= 1,
        reaches_note(note_edge(n), n),
        !reaches_note((note_edge(n) - 1) as u32, n),
{
    if n == 1 {
        lemma_edge_1();
    } else if n == 2 {
        lemma_edge_2();
    } else if n == 3 {
        lemma_edge_3();
    } else if n == 4 {
        lemma_edge_4();
    } else if n == 5 {
        lemma_edge_5();
    } else if n == 6 {
        lemma_edge_6();
    } else if n == 7 {
        lemma_edge_7();
    } else if n == 8 {
        lemma_edge_8();
    } else if n == 9 {
        lemma_edge_9();
    } else if n == 10 {
        lemma_edge_10();
    } else if n == 11 {
        lemma_edge_11();
    } else if n == 12 {
        lemma_edge_12();
    } else if n == 13 {
        lemma_edge_13();
    } else if n == 14 {
        lemma_edge_14();
    } else if n == 15 {
        lemma_edge_15();
    } else if n == 16 {
        lemma_edge_16();
    } else if n == 17 {
        lemma_edge_17();
    } else if n == 18 {
        lemma_edge_18();
    } else if n == 19 {
        lemma_edge_19();
    } else if n == 20 {
        lemma_edge_20();
    } else if n == 21 {
        lemma_edge_21();
    } else if n == 22 {
        lemma_edge_22();
    } else if n == 23 {
        lemma_edge_23();
    } else if n == 24 {
        lemma_edge_24();
    } else if n == 25 {
        lemma_edge_25();
    } else if n == 26 {
        lemma_edge_26();
    } else if n == 27 {
        lemma_edge_27();
    } else if n == 28 {
        lemma_edge_28();
    } else if n == 29 {
        lemma_edge_29();
    } else if n == 30 {
        lemma_edge_30();
    } else if n == 31 {
        lemma_edge_31();
    } else if n == 32 {
        lemma_edge_32();
    } else if n == 33 {
        lemma_edge_33();
    } else if n == 34 {
        lemma_edge_34();
    } else if n == 35 {
        lemma_edge_35();
    } else if n == 36 {
        lemma_edge_36();
    } else if n == 37 {
        lemma_edge_37();
    } else if n == 38 {
        lemma_edge_38();
    } else if n == 39 {
        lemma_edge_39();
    } else if n == 40 {
        lemma_edge_40();
    } else if n == 41 {
        lemma_edge_41();
    } else if n == 42 {
        lemma_edge_42();
    } else if n == 43 {
        lemma_edge_43();
    } else if n == 44 {
        lemma_edge_44();
    } else if n == 45 {
        lemma_edge_45();
    } else if n == 46 {
        lemma_edge_46();
    } else if n == 47 {
        lemma_edge_47();
    } else if n == 48 {
        lemma_edge_48();
    } else if n == 49 {
        lemma_edge_49();
    } else if n == 50 {
        lemma_edge_50();
    } else if n == 51 {
        lemma_edge_51();
    } else if n == 52 {
        lemma_edge_52();
    } else if n == 53 {
        lemma_edge_53();
    } else if n == 54 {
        lemma_edge_54();
    } else if n == 55 {
        lemma_edge_55();
    } else if n == 56 {
        lemma_edge_56();
    } else if n == 57 {
        lemma_edge_57();
    } else if n == 58 {
        lemma_edge_58();
    } else if n == 59 {
        lemma_edge_59();
    } else if n == 60 {
        lemma_edge_60();
    } else if n == 61 {
        lemma_edge_61();
    } else if n == 62 {
        lemma_edge_62();
    } else if n == 63 {
        lemma_edge_63();
    } else if n == 64 {
        lemma_edge_64();
    } else if n == 65 {
        lemma_edge_65();
    } else if n == 66 {
        lemma_edge_66();
    } else if n == 67 {
        lemma_edge_67();
    } else if n == 68 {
        lemma_edge_68();
    } else if n == 69 {
        lemma_edge_69();
    } else if n == 70 {
        lemma_edge_70();
    } else if n == 71 {
        lemma_edge_71();
    } else if n == 72 {
        lemma_edge_72();
    } else if n == 73 {
        lemma_edge_73();
    } else if n == 74 {
        lemma_edge_74();
    } else if n == 75 {
        lemma_edge_75();
    } else if n == 76 {
        lemma_edge_76();
    } else if n == 77 {
        lemma_edge_77();
    } else if n == 78 {
        lemma_edge_78();
    } else if n == 79 {
        lemma_edge_79();
    } else if n == 80 {
        lemma_edge_80();
    } else if n == 81 {
        lemma_edge_81();
    } else if n == 82 {
        lemma_edge_82();
    } else if n == 83 {
        lemma_edge_83();
    } else if n == 84 {
        lemma_edge_84();
    } else if n == 85 {
        lemma_edge_85();
    } else if n == 86 {
        lemma_edge_86();
    } else if n == 87 {
        lemma_edge_87();
    } else if n == 88 {
        lemma_edge_88();
    } else if n == 89 {
        lemma_edge_89();
    } else if n == 90 {
        lemma_edge_90();
    } else if n == 91 {
        lemma_edge_91();
    } else if n == 92 {
        lemma_edge_92();
    } else if n == 93 {
        lemma_edge_93();
    } else if n == 94 {
        lemma_edge_94();
    } else if n == 95 {
        lemma_edge_95();
    } else if n == 96 {
        lemma_edge_96();
    } else if n == 97 {
        lemma_edge_97();
    } else if n == 98 {
        lemma_edge_98();
    } else if n == 99 {
        lemma_edge_99();
    } else if n == 100 {
        lemma_edge_100();
    } else if n == 101 {
        lemma_edge_101();
    } else if n == 102 {
        lemma_edge_102();
    } else if n == 103 {
        lemma_edge_103();
    } else if n == 104 {
        lemma_edge_104();
    } else if n == 105 {
        lemma_edge_105();
    } else if n == 106 {
        lemma_edge_106();
    } else if n == 107 {
        lemma_edge_107();
    } else if n == 108 {
        lemma_edge_108();
    } else if n == 109 {
        lemma_edge_109();
    } else if n == 110 {
        lemma_edge_110();
    } else if n == 111 {
        lemma_edge_111();
    } else if n == 112 {
        lemma_edge_112();
    } else if n == 113 {
        lemma_edge_113();
    } else if n == 114 {
        lemma_edge_114();
    } else if n == 115 {
        lemma_edge_115();
    } else if n == 116 {
        lemma_edge_116();
    } else if n == 117 {
        lemma_edge_117();
    } else if n == 118 {
        lemma_edge_118();
    } else if n == 119 {
        lemma_edge_119();
    } else if n == 120 {
        lemma_edge_120();
    } else if n == 121 {
        lemma_edge_121();
    } else if n == 122 {
        lemma_edge_122();
    } else if n == 123 {
        lemma_edge_123();
    } else if n == 124 {
        lemma_edge_124();
    } else if n == 125 {
        lemma_edge_125();
    } else if n == 126 {
        lemma_edge_126();
    } else if n == 127 {
        lemma_edge_127();
    }
}

/// The note of a frequency never decreases as the frequency grows; with
/// equal bits this says the note that `midi_from_hz` characterizes is
/// unique.
pub proof fn lemma_midi_monotone(b1: u32, b2: u32, n1: nat, n2: nat)
    requires
        b1 <= b2 < 0x7f800000,
        n1 <= 127,
        n2 <= 127,
        n1 == 0 || reaches_note(b1, n1),
        n1 == 127 || !reaches_note(b1, n1 + 1),
        n2 == 0 || reaches_note(b2, n2),
        n2 == 127 || !reaches_note(b2, n2 + 1),
    ensures
        n1 <= n2,
{
    if n1 > n2 {
        lemma_reaches_lower_notes(b1, n2 + 1, n1);
        lemma_reaches_monotone(b1, b2, n2 + 1);
    }
}

/// MIDI note nearest to the frequency, in Hz, held by the single whose bits
/// are `hz_bits`: `round(69 + 12 * log2(hz / 440))`, clamped to `0..=127`.
/// Negative values, zero and NaN give 0; `+inf` gives 127.
pub fn midi_from_hz(hz_bits: u32) -> (note: u8)
    ensures
        note <= 127,
        hz_bits >= 0x80000000 ==> note == 0,
        0x7f800000 < hz_bits < 0x80000000 ==> note == 0,
        hz_bits == 0x7f800000 ==> note == 127,
        hz_bits < 0x7f800000 ==> {
            &&& (note == 0 || reaches_note(hz_bits, note as nat))
            &&& (note == 127 || !reaches_note(hz_bits, note as nat + 1))
        },
{
    if hz_bits >= 0x80000000 || hz_bits > 0x7f800000 {
        return 0;
    }
    if hz_bits == 0x7f800000 {
        return 127;
    }
    let mut n: usize = 0;
    while n < 127 && hz_bits >= NOTE_EDGES[n]
        invariant
            n <= 127,
            hz_bits < 0x7f800000,
            n == 0 || reaches_note(hz_bits, n as nat),
        decreases 127 - n,
    {
        proof {
            lemma_note_edge_exact((n + 1) as nat);
            lemma_reaches_monotone(note_edge((n + 1) as nat), hz_bits, (n + 1) as nat);
        }
        n = n + 1;
    }
    if n < 127 {
        proof {
            lemma_note_edge_exact((n + 1) as nat);
            if reaches_note(hz_bits, (n + 1) as nat) {
                lemma_reaches_monotone(hz_bits, (note_edge((n + 1) as nat) - 1) as u32, (n + 1) as nat);
            }
        }
    }
    n as u8
}

} // verus!
