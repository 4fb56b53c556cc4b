//! The field's modulus is prime, so the field has no zero divisors.
//!
//! The proof follows Proth's theorem. The modulus is `N = K * 2^32 + 1` with `K = 2^32 - 1`,
//! and `7^((N - 1) / 2)` is `-1` modulo `N`. For any divisor `q > 1` of `N`, the order of 7
//! modulo `q` then has `2^32` as a factor and is at most `q - 1`, so `q > 2^32`; two such
//! divisors cannot multiply to `N < 2^64`, so `N` has no divisor strictly between 1 and `N`.
use vstd::arithmetic::div_mod::{
    lemma_fundamental_div_mod,
    lemma_small_mod,
    lemma_mod_multiples_basic,
    lemma_mod_multiples_vanish,
    lemma_mul_mod_noop_general,
    lemma_sub_mod_noop,
};
use vstd::arithmetic::power::{lemma_pow0, lemma_pow1, lemma_pow_adds, lemma_pow_positive, pow};
use vstd::set_lib::{lemma_int_range, lemma_len_subset, set_int_range};
use vstd::prelude::*;

use crate::field::MODULUS;

verus! {

/// From `7^e mod N` to `7^(2e + bit) mod N`, one step of square-and-multiply.
proof fn lemma_pow_mod_step(e: nat, bit: nat, r: int)
    requires
        bit <= 1,
        pow(7, e) % (MODULUS as int) == r,
    ensures
        pow(7, 2 * e + bit) % (MODULUS as int) == (r * r * pow(7, bit)) % (MODULUS as int),
{
    let m = MODULUS as int;
    let a = pow(7, e);
    let b = pow(7, bit);
    lemma_pow_adds(7, e, e);
    lemma_pow_adds(7, e + e, bit);
    assert(2 * e + bit == e + e + bit);
    lemma_mul_mod_noop_general(a, a, m);
    lemma_mul_mod_noop_general(a * a, b, m);
    lemma_mul_mod_noop_general(r * r, b, m);
}

/// Seven raised to `(N - 1) / 2` is `-1` modulo `N`.
proof fn lemma_seven_half_power()
    ensures
        pow(7, 0x7fff_ffff_8000_0000) % (MODULUS as int) == MODULUS - 1,
{
    lemma_pow0(7);
    lemma_pow1(7);
    assert(pow(7, 0) % (MODULUS as int) == 1);
    lemma_pow_mod_step(0, 1, 1);
    assert((1int * 1 * 7) % 18446744069414584321 == 7);
    lemma_pow_mod_step(1, 1, 7);
    assert((7int * 7 * 7) % 18446744069414584321 == 343);
    lemma_pow_mod_step(3, 1, 343);
    assert((343int * 343 * 7) % 18446744069414584321 == 823543);
    lemma_pow_mod_step(7, 1, 823543);
    assert((823543int * 823543 * 7) % 18446744069414584321 == 4747561509943);
    lemma_pow_mod_step(15, 1, 4747561509943);
    assert((4747561509943int * 4747561509943 * 7) % 18446744069414584321 == 11074261478625843323);
    lemma_pow_mod_step(31, 1, 11074261478625843323);
    assert((11074261478625843323int * 11074261478625843323 * 7) % 18446744069414584321 == 12148266161370408270);
    lemma_pow_mod_step(63, 1, 12148266161370408270);
    assert((12148266161370408270int * 12148266161370408270 * 7) % 18446744069414584321 == 7007601668316978083);
    lemma_pow_mod_step(127, 1, 7007601668316978083);
    assert((7007601668316978083int * 7007601668316978083 * 7) % 18446744069414584321 == 8125271997680889877);
    lemma_pow_mod_step(255, 1, 8125271997680889877);
    assert((8125271997680889877int * 8125271997680889877 * 7) % 18446744069414584321 == 2624486902016877951);
    lemma_pow_mod_step(511, 1, 2624486902016877951);
    assert((2624486902016877951int * 2624486902016877951 * 7) % 18446744069414584321 == 8253119735826302939);
    lemma_pow_mod_step(1023, 1, 8253119735826302939);
    assert((8253119735826302939int * 8253119735826302939 * 7) % 18446744069414584321 == 3543566522599720475);
    lemma_pow_mod_step(2047, 1, 3543566522599720475);
    assert((3543566522599720475int * 3543566522599720475 * 7) % 18446744069414584321 == 11981551684735969599);
    lemma_pow_mod_step(4095, 1, 11981551684735969599);
    assert((11981551684735969599int * 11981551684735969599 * 7) % 18446744069414584321 == 10062120588441922115);
    lemma_pow_mod_step(8191, 1, 10062120588441922115);
    assert((10062120588441922115int * 10062120588441922115 * 7) % 18446744069414584321 == 10485806445487905393);
    lemma_pow_mod_step(16383, 1, 10485806445487905393);
    assert((10485806445487905393int * 10485806445487905393 * 7) % 18446744069414584321 == 4139485063330164956);
    lemma_pow_mod_step(32767, 1, 4139485063330164956);
    assert((4139485063330164956int * 4139485063330164956 * 7) % 18446744069414584321 == 12134830135347446949);
    lemma_pow_mod_step(65535, 1, 12134830135347446949);
    assert((12134830135347446949int * 12134830135347446949 * 7) % 18446744069414584321 == 4326791766630348883);
    lemma_pow_mod_step(131071, 1, 4326791766630348883);
    assert((4326791766630348883int * 4326791766630348883 * 7) % 18446744069414584321 == 206761543466863628);
    lemma_pow_mod_step(262143, 1, 206761543466863628);
    assert((206761543466863628int * 206761543466863628 * 7) % 18446744069414584321 == 10086585273483141421);
    lemma_pow_mod_step(524287, 1, 10086585273483141421);
    assert((10086585273483141421int * 10086585273483141421 * 7) % 18446744069414584321 == 1855730417186139594);
    lemma_pow_mod_step(1048575, 1, 1855730417186139594);
    assert((1855730417186139594int * 1855730417186139594 * 7) % 18446744069414584321 == 7626447102712710903);
    lemma_pow_mod_step(2097151, 1, 7626447102712710903);
    assert((7626447102712710903int * 7626447102712710903 * 7) % 18446744069414584321 == 7790920094560990216);
    lemma_pow_mod_step(4194303, 1, 7790920094560990216);
    assert((7790920094560990216int * 7790920094560990216 * 7) % 18446744069414584321 == 5901922255895126089);
    lemma_pow_mod_step(8388607, 1, 5901922255895126089);
    assert((5901922255895126089int * 5901922255895126089 * 7) % 18446744069414584321 == 8935258787870022506);
    lemma_pow_mod_step(16777215, 1, 8935258787870022506);
    assert((8935258787870022506int * 8935258787870022506 * 7) % 18446744069414584321 == 13093775858033092690);
    lemma_pow_mod_step(33554431, 1, 13093775858033092690);
    assert((13093775858033092690int * 13093775858033092690 * 7) % 18446744069414584321 == 11243737384857129666);
    lemma_pow_mod_step(67108863, 1, 11243737384857129666);
    assert((11243737384857129666int * 11243737384857129666 * 7) % 18446744069414584321 == 2063617152444052883);
    lemma_pow_mod_step(134217727, 1, 2063617152444052883);
    assert((2063617152444052883int * 2063617152444052883 * 7) % 18446744069414584321 == 13064848991504552222);
    lemma_pow_mod_step(268435455, 1, 13064848991504552222);
    assert((13064848991504552222int * 13064848991504552222 * 7) % 18446744069414584321 == 16593403251012455084);
    lemma_pow_mod_step(536870911, 1, 16593403251012455084);
    assert((16593403251012455084int * 16593403251012455084 * 7) % 18446744069414584321 == 5859133952941131217);
    lemma_pow_mod_step(1073741823, 1, 5859133952941131217);
    assert((5859133952941131217int * 5859133952941131217 * 7) % 18446744069414584321 == 15659105665374529263);
    lemma_pow_mod_step(2147483647, 1, 15659105665374529263);
    assert((15659105665374529263int * 15659105665374529263 * 7) % 18446744069414584321 == 1753635133440165772);
    lemma_pow_mod_step(4294967295, 0, 1753635133440165772);
    assert((1753635133440165772int * 1753635133440165772 * 1) % 18446744069414584321 == 4614640910117430873);
    lemma_pow_mod_step(8589934590, 0, 4614640910117430873);
    assert((4614640910117430873int * 4614640910117430873 * 1) % 18446744069414584321 == 9123114210336311365);
    lemma_pow_mod_step(17179869180, 0, 9123114210336311365);
    assert((9123114210336311365int * 9123114210336311365 * 1) % 18446744069414584321 == 16116352524544190054);
    lemma_pow_mod_step(34359738360, 0, 16116352524544190054);
    assert((16116352524544190054int * 16116352524544190054 * 1) % 18446744069414584321 == 6414415596519834757);
    lemma_pow_mod_step(68719476720, 0, 6414415596519834757);
    assert((6414415596519834757int * 6414415596519834757 * 1) % 18446744069414584321 == 1213594585890690845);
    lemma_pow_mod_step(137438953440, 0, 1213594585890690845);
    assert((1213594585890690845int * 1213594585890690845 * 1) % 18446744069414584321 == 17096174751763063430);
    lemma_pow_mod_step(274877906880, 0, 17096174751763063430);
    assert((17096174751763063430int * 17096174751763063430 * 1) % 18446744069414584321 == 5456943929260765144);
    lemma_pow_mod_step(549755813760, 0, 5456943929260765144);
    assert((5456943929260765144int * 5456943929260765144 * 1) % 18446744069414584321 == 9713644485405565297);
    lemma_pow_mod_step(1099511627520, 0, 9713644485405565297);
    assert((9713644485405565297int * 9713644485405565297 * 1) % 18446744069414584321 == 16905767614792059275);
    lemma_pow_mod_step(2199023255040, 0, 16905767614792059275);
    assert((16905767614792059275int * 16905767614792059275 * 1) % 18446744069414584321 == 5416168637041100469);
    lemma_pow_mod_step(4398046510080, 0, 5416168637041100469);
    assert((5416168637041100469int * 5416168637041100469 * 1) % 18446744069414584321 == 17654865857378133588);
    lemma_pow_mod_step(8796093020160, 0, 17654865857378133588);
    assert((17654865857378133588int * 17654865857378133588 * 1) % 18446744069414584321 == 3511170319078647661);
    lemma_pow_mod_step(17592186040320, 0, 3511170319078647661);
    assert((3511170319078647661int * 3511170319078647661 * 1) % 18446744069414584321 == 18146160046829613826);
    lemma_pow_mod_step(35184372080640, 0, 18146160046829613826);
    assert((18146160046829613826int * 18146160046829613826 * 1) % 18446744069414584321 == 9306717745644682924);
    lemma_pow_mod_step(70368744161280, 0, 9306717745644682924);
    assert((9306717745644682924int * 9306717745644682924 * 1) % 18446744069414584321 == 12380578893860276750);
    lemma_pow_mod_step(140737488322560, 0, 12380578893860276750);
    assert((12380578893860276750int * 12380578893860276750 * 1) % 18446744069414584321 == 6115771955107415310);
    lemma_pow_mod_step(281474976645120, 0, 6115771955107415310);
    assert((6115771955107415310int * 6115771955107415310 * 1) % 18446744069414584321 == 17776499369601055404);
    lemma_pow_mod_step(562949953290240, 0, 17776499369601055404);
    assert((17776499369601055404int * 17776499369601055404 * 1) % 18446744069414584321 == 16207902636198568418);
    lemma_pow_mod_step(1125899906580480, 0, 16207902636198568418);
    assert((16207902636198568418int * 16207902636198568418 * 1) % 18446744069414584321 == 1532612707718625687);
    lemma_pow_mod_step(2251799813160960, 0, 1532612707718625687);
    assert((1532612707718625687int * 1532612707718625687 * 1) % 18446744069414584321 == 17492915097719143606);
    lemma_pow_mod_step(4503599626321920, 0, 17492915097719143606);
    assert((17492915097719143606int * 17492915097719143606 * 1) % 18446744069414584321 == 455906449640507599);
    lemma_pow_mod_step(9007199252643840, 0, 455906449640507599);
    assert((455906449640507599int * 455906449640507599 * 1) % 18446744069414584321 == 11353340290879379826);
    lemma_pow_mod_step(18014398505287680, 0, 11353340290879379826);
    assert((11353340290879379826int * 11353340290879379826 * 1) % 18446744069414584321 == 1803076106186727246);
    lemma_pow_mod_step(36028797010575360, 0, 1803076106186727246);
    assert((1803076106186727246int * 1803076106186727246 * 1) % 18446744069414584321 == 13797081185216407910);
    lemma_pow_mod_step(72057594021150720, 0, 13797081185216407910);
    assert((13797081185216407910int * 13797081185216407910 * 1) % 18446744069414584321 == 17870292113338400769);
    lemma_pow_mod_step(144115188042301440, 0, 17870292113338400769);
    assert((17870292113338400769int * 17870292113338400769 * 1) % 18446744069414584321 == 549755813888);
    lemma_pow_mod_step(288230376084602880, 0, 549755813888);
    assert((549755813888int * 549755813888 * 1) % 18446744069414584321 == 70368744161280);
    lemma_pow_mod_step(576460752169205760, 0, 70368744161280);
    assert((70368744161280int * 70368744161280 * 1) % 18446744069414584321 == 17293822564807737345);
    lemma_pow_mod_step(1152921504338411520, 0, 17293822564807737345);
    assert((17293822564807737345int * 17293822564807737345 * 1) % 18446744069414584321 == 18446744069397807105);
    lemma_pow_mod_step(2305843008676823040, 0, 18446744069397807105);
    assert((18446744069397807105int * 18446744069397807105 * 1) % 18446744069414584321 == 281474976710656);
    lemma_pow_mod_step(4611686017353646080, 0, 281474976710656);
    assert((281474976710656int * 281474976710656 * 1) % 18446744069414584321 == 18446744069414584320);

}

/// The least natural number at or below `n` that satisfies `p`, where `n` does.
proof fn lemma_least(p: spec_fn(nat) -> bool, n: nat) -> (m: nat)
    requires
        p(n),
    ensures
        p(m),
        m <= n,
        forall|k: nat| k < m ==> !#[trigger] p(k),
    decreases n,
{
    if exists|k: nat| k < n && #[trigger] p(k) {
        let k = choose|k: nat| k < n && #[trigger] p(k);
        lemma_least(p, k)
    } else {
        n
    }
}

/// Powers of seven multiply modulo `q`: `7^(i + j) = 7^i * 7^j`.
proof fn lemma_pow_mod_add(q: int, i: nat, j: nat)
    requires
        q > 0,
    ensures
        pow(7, i + j) % q == ((pow(7, i) % q) * (pow(7, j) % q)) % q,
{
    lemma_pow_adds(7, i, j);
    lemma_mul_mod_noop_general(pow(7, i), pow(7, j), q);
}

/// If `7^e` is 1 modulo `q`, so is `7^(e * k)`.
proof fn lemma_pow_mod_multiple(q: int, e: nat, k: nat)
    requires
        q > 1,
        pow(7, e) % q == 1,
    ensures
        pow(7, e * k) % q == 1,
    decreases k,
{
    lemma_small_mod(1, q as nat);
    if k == 0 {
        lemma_pow0(7);
        assert(e * k == 0) by (nonlinear_arith)
            requires
                k == 0,
        ;
    } else {
        let j: nat = (k - 1) as nat;
        lemma_pow_mod_multiple(q, e, j);
        assert(e * k == e * j + e) by (nonlinear_arith)
            requires
                k == j + 1,
        ;
        lemma_pow_mod_add(q, e * j, e);
        assert(pow(7, e * j + e) % q == 1);
    }
}

/// Where `e * t = 2^n * k` and `t` is odd, `2^n` divides `e`.
proof fn lemma_even_part(e: int, t: int, n: nat, k: int)
    requires
        e > 0,
        t > 0,
        t % 2 == 1,
        e * t == pow(2, n) * k,
    ensures
        e % pow(2, n) == 0,
    decreases n,
{
    reveal(pow);
    if n > 0 {
        let p = pow(2, (n - 1) as nat);
        assert(pow(2, n) == 2 * p);
        lemma_pow_positive(2, (n - 1) as nat);
        if e % 2 == 1 {
            let a = e / 2;
            let b = t / 2;
            assert(e == 2 * a + 1 && t == 2 * b + 1);
            assert(e * t == 2 * (2 * a * b + a + b) + 1) by (nonlinear_arith)
                requires
                    e == 2 * a + 1,
                    t == 2 * b + 1,
            ;
            assert(e * t == 2 * (p * k)) by (nonlinear_arith)
                requires
                    e * t == (2 * p) * k,
            ;
            assert(false);
        }
        let e2 = e / 2;
        assert(e == 2 * e2);
        assert(e2 * t == p * k) by (nonlinear_arith)
            requires
                e == 2 * e2,
                e * t == (2 * p) * k,
        ;
        assert(e2 > 0);
        lemma_even_part(e2, t, (n - 1) as nat, k);
        assert(e % (2 * p) == 0) by (nonlinear_arith)
            requires
                e == 2 * e2,
                e2 % p == 0,
                p > 0,
        {
            assert(e2 == p * (e2 / p));
            assert(e == (2 * p) * (e2 / p));
            lemma_mod_multiples_basic(e2 / p, 2 * p);
            assert((e2 / p) * (2 * p) == (2 * p) * (e2 / p));
        }
    }
}

/// Modulo a divisor `q > 1` of the modulus, `7^((N - 1) / 2)` is `-1` and `7^(N - 1)` is 1.
proof fn lemma_seven_modulo_divisor(q: int)
    requires
        q > 1,
        (MODULUS as int) % q == 0,
    ensures
        pow(7, 0x7fff_ffff_8000_0000) % q == q - 1,
        pow(7, 0xffff_ffff_0000_0000) % q == 1,
{
    let m = MODULUS as int;
    let h: nat = 0x7fff_ffff_8000_0000;
    let full: nat = 0xffff_ffff_0000_0000;
    lemma_seven_half_power();
    let x = pow(7, h);
    lemma_fundamental_div_mod(x, m);
    lemma_fundamental_div_mod(m, q);
    let t = x / m;
    let u = m / q;
    assert(x + 1 == q * (u * (t + 1))) by (nonlinear_arith)
        requires
            x == m * t + (m - 1),
            m == q * u,
    ;
    assert(x % q == q - 1) by {
        lemma_mod_multiples_vanish(u * (t + 1), -1, q);
        assert(x == q * (u * (t + 1)) + (-1));
        lemma_mod_multiples_vanish(-1, q - 1, q);
        assert(q * (-1) + (q - 1) == -1);
        lemma_small_mod((q - 1) as nat, q as nat);
    }
    lemma_pow_mod_add(q, h, h);
    assert(h + h == full);
    assert((q - 1) * (q - 1) == q * (q - 2) + 1) by (nonlinear_arith);
    lemma_mod_multiples_vanish(q - 2, 1, q);
    lemma_small_mod(1, q as nat);
    assert(((q - 1) * (q - 1)) % q == 1);
    assert(pow(7, h + h) % q == 1);
}

/// The order `e` of 7 modulo `q`, where `7^(N - 1)` is 1 modulo `q`, divides `N - 1`.
proof fn lemma_order_divides(q: int, e: nat, full: nat)
    requires
        q > 1,
        e > 0,
        pow(7, e) % q == 1,
        forall|k: nat| 0 < k < e ==> #[trigger] pow(7, k) % q != 1,
        pow(7, full) % q == 1,
    ensures
        full % e == 0,
{
    lemma_fundamental_div_mod(full as int, e as int);
    let k: nat = (full / e) as nat;
    let r: nat = (full % e) as nat;
    assert(full == e * k + r);
    lemma_pow_mod_multiple(q, e, k);
    lemma_pow_mod_add(q, e * k, r);
    vstd::arithmetic::div_mod::lemma_mod_twice(pow(7, r), q);
    lemma_small_mod(1, q as nat);
    assert(pow(7, r) % q == 1);
}

/// The order `e` of 7 modulo `q`, where `7^((N - 1) / 2)` is `-1` and `7^(N - 1)` is 1
/// modulo `q`, is a multiple of `2^32`.
proof fn lemma_order_large(q: int, e: nat)
    requires
        q > 1,
        (MODULUS as int) % q == 0,
        e > 0,
        pow(7, e) % q == 1,
        0xffff_ffff_0000_0000nat % e == 0,
        pow(7, 0x7fff_ffff_8000_0000) % q == q - 1,
    ensures
        e >= 0x1_0000_0000,
{
    let m = MODULUS as int;
    let h: nat = 0x7fff_ffff_8000_0000;
    let full: nat = 0xffff_ffff_0000_0000;
    lemma_fundamental_div_mod(full as int, e as int);
    let k: nat = (full / e) as nat;
    assert(full == e * k);
    if k % 2 == 0 {
        let k2: nat = (k / 2) as nat;
        assert(e * k == 2 * (e * k2)) by (nonlinear_arith)
            requires
                k == 2 * k2,
        ;
        lemma_pow_mod_multiple(q, e, k2);
        assert(h == e * k2);
        assert(q == 2);
        assert(m % 2 == 1);
        assert(false);
    }
    reveal_with_fuel(pow, 33);
    assert(pow(2, 32) == 0x1_0000_0000);
    assert(e * k == pow(2, 32) * 0xffff_ffff);
    assert(k > 0);
    lemma_even_part(e as int, k as int, 32, 0xffff_ffff);
}

/// The order `e` of 7 modulo `q` is below `q`: the powers `7^0, ..., 7^(e - 1)` are distinct
/// nonzero residues.
proof fn lemma_order_below(q: int, e: nat)
    requires
        q > 1,
        e > 0,
        pow(7, e) % q == 1,
        forall|k: nat| 0 < k < e ==> #[trigger] pow(7, k) % q != 1,
    ensures
        e < q,
{
    let powers = Seq::new(e, |i: int| pow(7, i as nat) % q);
    assert forall|i: int, j: int| 0 <= i < j < e implies powers[i] != powers[j] by {
        if powers[i] == powers[j] {
            let gap: nat = (e - j) as nat;
            lemma_pow_mod_add(q, i as nat, gap);
            lemma_pow_mod_add(q, j as nat, gap);
            assert(j as nat + gap == e);
            let c: nat = (i as nat + gap) as nat;
            assert(0 < c < e);
            assert(pow(7, c) % q == 1);
        }
    }
    assert forall|i: int| 0 <= i < e implies powers[i] != 0 by {
        if powers[i] == 0 {
            let gap: nat = (e - i) as nat;
            lemma_pow_mod_add(q, i as nat, gap);
            assert(i as nat + gap == e);
            assert(pow(7, i as nat) % q == 0);
            assert(0 * (pow(7, gap) % q) == 0);
            assert(0int % q == 0);
            assert(pow(7, (i as nat) + gap) % q == 0);
            assert(pow(7, (i as nat) + gap) == pow(7, e));
            assert(pow(7, e) % q == 0);
        }
    }
    assert(powers.no_duplicates());
    powers.unique_seq_to_set();
    assert(powers.to_set().subset_of(set_int_range(1, q))) by {
        assert forall|v: int| powers.to_set().contains(v) implies set_int_range(1, q).contains(v) by {
            let i = choose|i: int| 0 <= i < powers.len() && powers[i] == v;
        }
    }
    lemma_int_range(1, q);
    lemma_len_subset(powers.to_set(), set_int_range(1, q));
}

/// Every divisor `q > 1` of the modulus exceeds `2^32`.
proof fn lemma_divisor_exceeds(q: int)
    requires
        q > 1,
        (MODULUS as int) % q == 0,
    ensures
        q > 0x1_0000_0000,
{
    let full: nat = 0xffff_ffff_0000_0000;
    lemma_seven_modulo_divisor(q);
    let holds = |x: nat| x > 0 && pow(7, x) % q == 1;
    assert(holds(full));
    let e = lemma_least(holds, full);
    assert forall|k: nat| 0 < k < e implies #[trigger] pow(7, k) % q != 1 by {
        assert(!holds(k));
    }
    lemma_order_divides(q, e, full);
    lemma_order_large(q, e);
    lemma_order_below(q, e);
}

/// The modulus is prime: no number strictly between 1 and it divides it.
pub proof fn lemma_modulus_is_prime(d: int)
    requires
        1 < d < MODULUS,
    ensures
        (MODULUS as int) % d != 0,
{
    let m = MODULUS as int;
    if m % d == 0 {
        lemma_fundamental_div_mod(m, d);
        let c = m / d;
        assert(m == d * c);
        assert(c > 1) by (nonlinear_arith)
            requires
                m == d * c,
                d < m,
                d > 1,
        ;
        assert(m % c == 0) by {
            lemma_mod_multiples_basic(d, c);
            assert(d * c == c * d) by (nonlinear_arith);
        }
        lemma_divisor_exceeds(d);
        lemma_divisor_exceeds(c);
        assert(d * c > m) by (nonlinear_arith)
            requires
                d > 0x1_0000_0000,
                c > 0x1_0000_0000,
                m < 0x1_0000_0000_0000_0000,
        ;
    }
}

/// Whether `s * y` is a multiple of the modulus.
spec fn annihilates(s: int, y: int) -> bool {
    (s * y) % (MODULUS as int) == 0
}

/// The least positive `s` with `s * y` a multiple of the modulus divides the modulus.
proof fn lemma_least_killer_divides(s: int, y: int)
    requires
        s > 0,
        annihilates(s, y),
        forall|r: int| 0 < r < s ==> !#[trigger] annihilates(r, y),
    ensures
        (MODULUS as int) % s == 0,
{
    let m = MODULUS as int;
    lemma_fundamental_div_mod(m, s);
    let k = m / s;
    let r = m % s;
    assert(0 <= r < s);
    assert(r * y == m * y - k * (s * y)) by (nonlinear_arith)
        requires
            m == s * k + r,
    ;
    lemma_mod_multiples_basic(y, m);
    assert(m * y == y * m) by (nonlinear_arith);
    assert((m * y) % m == 0);
    lemma_mul_mod_noop_general(k, s * y, m);
    assert(k * ((s * y) % m) == 0);
    assert((k * (s * y)) % m == 0);
    lemma_sub_mod_noop(m * y, k * (s * y), m);
    assert((0int - 0) % m == 0);
    assert((r * y) % m == 0);
    if r > 0 {
        assert(annihilates(r, y));
    }
}

/// The field has no zero divisors: a product of two nonzero residues is not a multiple of the
/// modulus.
pub proof fn lemma_no_zero_divisors(x: int, y: int)
    requires
        0 < x < MODULUS,
        0 < y < MODULUS,
    ensures
        (x * y) % (MODULUS as int) != 0,
{
    let m = MODULUS as int;
    if (x * y) % m == 0 {
        let kills = |s: nat| s > 0 && ((s as int) * y) % m == 0;
        assert(kills(x as nat));
        let s = lemma_least(kills, x as nat);
        assert forall|r: int| 0 < r < s implies !#[trigger] annihilates(r, y) by {
            assert(!kills(r as nat));
        }
        lemma_least_killer_divides(s as int, y);
        if s > 1 {
            lemma_modulus_is_prime(s as int);
        }
        assert(s == 1);
        assert((1 * y) % m == 0);
        lemma_small_mod(y as nat, m as nat);
    }
}

} // verus!
