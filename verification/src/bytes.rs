//! Little-endian byte encodings of unsigned integers, as mathematical values.
use vstd::arithmetic::power::pow;
use vstd::prelude::*;

verus! {

/// The `n` least significant bytes of `x`, least significant first.
pub open spec fn le_bytes(x: nat, n: nat) -> Seq<u8>
    decreases n,
{
    if n == 0 {
        Seq::empty()
    } else {
        seq![(x % 256) as u8] + le_bytes(x / 256, (n - 1) as nat)
    }
}

/// The number that `bytes` encodes when read least significant byte first.
pub open spec fn le_value(bytes: Seq<u8>) -> nat
    decreases bytes.len(),
{
    if bytes.len() == 0 {
        0
    } else {
        bytes[0] as nat + 256 * le_value(bytes.drop_first())
    }
}

/// The words laid out one after the other, each as its four little-endian bytes.
pub open spec fn words_le_bytes(words: Seq<u32>) -> Seq<u8>
    decreases words.len(),
{
    if words.len() == 0 {
        Seq::empty()
    } else {
        le_bytes(words[0] as nat, 4) + words_le_bytes(words.drop_first())
    }
}

/// Taking the first byte off an encoding: the low byte, then the encoding of the rest.
pub proof fn lemma_le_bytes_step(b: nat, rest: nat, n: nat)
    requires
        b < 256,
    ensures
        le_bytes(b + 256 * rest, n + 1) == seq![b as u8] + le_bytes(rest, n),
{
    assert((b + 256 * rest) % 256 == b && (b + 256 * rest) / 256 == rest) by (nonlinear_arith)
        requires
            b < 256,
    ;
}

/// The four bytes of a word.
pub proof fn lemma_le_bytes_word(b0: u8, b1: u8, b2: u8, b3: u8)
    ensures
        le_bytes((b0 + 256 * b1 + 65536 * b2 + 16777216 * b3) as nat, 4) == seq![b0, b1, b2, b3],
{
    let r3: nat = b3 as nat;
    let r2: nat = (b2 + 256 * r3) as nat;
    let r1: nat = (b1 + 256 * r2) as nat;
    let r0: nat = (b0 + 256 * r1) as nat;
    assert(r0 == b0 + 256 * b1 + 65536 * b2 + 16777216 * b3);
    lemma_le_bytes_step(b0 as nat, r1, 3);
    lemma_le_bytes_step(b1 as nat, r2, 2);
    lemma_le_bytes_step(b2 as nat, r3, 1);
    lemma_le_bytes_step(b3 as nat, 0, 0);
    assert(le_bytes(0, 0) == Seq::<u8>::empty());
    assert(le_bytes(r0, 4) =~= seq![b0, b1, b2, b3]);
}

/// Splitting an encoding after its first four bytes.
pub proof fn lemma_le_bytes_split_word(x: nat, n: nat)
    ensures
        le_bytes(x, 4 + n) == le_bytes(x % 0x1_0000_0000, 4) + le_bytes(x / 0x1_0000_0000, n),
{
    let w: nat = x % 0x1_0000_0000;
    let hi: nat = x / 0x1_0000_0000;
    let b0: nat = w % 256;
    let b1: nat = (w / 256) % 256;
    let b2: nat = (w / 65536) % 256;
    let b3: nat = w / 16777216;
    assert(w == b0 + 256 * b1 + 65536 * b2 + 16777216 * b3 && b3 < 256 && x == w + 0x1_0000_0000 * hi) by (nonlinear_arith)
        requires
            w == x % 0x1_0000_0000,
            hi == x / 0x1_0000_0000,
            b0 == w % 256,
            b1 == (w / 256) % 256,
            b2 == (w / 65536) % 256,
            b3 == w / 16777216,
    ;
    let r3: nat = b3 + 256 * hi;
    let r2: nat = b2 + 256 * r3;
    let r1: nat = b1 + 256 * r2;
    assert(x == b0 + 256 * r1);
    lemma_le_bytes_step(b0, r1, 3 + n);
    lemma_le_bytes_step(b1, r2, 2 + n);
    lemma_le_bytes_step(b2, r3, 1 + n);
    lemma_le_bytes_step(b3, hi, n);
    lemma_le_bytes_word(b0 as u8, b1 as u8, b2 as u8, b3 as u8);
    assert(le_bytes(x, 4 + n) =~= le_bytes(w, 4) + le_bytes(hi, n));
}

/// Encoding the value that bytes encode gives those bytes back.
pub proof fn lemma_le_bytes_of_le_value(bytes: Seq<u8>)
    ensures
        le_bytes(le_value(bytes), bytes.len()) == bytes,
    decreases bytes.len(),
{
    if bytes.len() > 0 {
        let rest = bytes.drop_first();
        lemma_le_bytes_of_le_value(rest);
        lemma_le_bytes_step(bytes[0] as nat, le_value(rest), rest.len());
        assert(seq![bytes[0]] + rest =~= bytes);
    } else {
        assert(bytes =~= Seq::<u8>::empty());
    }
}

/// Reading back the `n`-byte encoding of a number below `256^n` gives that number.
pub proof fn lemma_le_value_of_le_bytes(x: nat, n: nat)
    requires
        x < pow(256, n),
    ensures
        le_value(le_bytes(x, n)) == x,
        le_bytes(x, n).len() == n,
    decreases n,
{
    reveal(pow);
    if n == 0 {
        assert(x == 0);
    } else {
        let p = pow(256, (n - 1) as nat);
        assert(pow(256, n) == 256 * p);
        assert(x / 256 < p && x == x % 256 + 256 * (x / 256)) by (nonlinear_arith)
            requires
                x < 256 * p,
        ;
        lemma_le_value_of_le_bytes(x / 256, (n - 1) as nat);
        let b = seq![(x % 256) as u8];
        assert((b + le_bytes(x / 256, (n - 1) as nat)).drop_first() =~= le_bytes(x / 256, (n - 1) as nat));
    }
}

/// An encoding of `n` bytes encodes a number below `256^n`.
pub proof fn lemma_le_value_bound(bytes: Seq<u8>)
    ensures
        le_value(bytes) < pow(256, bytes.len()),
    decreases bytes.len(),
{
    reveal(pow);
    if bytes.len() > 0 {
        let rest = bytes.drop_first();
        lemma_le_value_bound(rest);
        let p = pow(256, rest.len());
        assert(pow(256, bytes.len()) == 256 * p);
        let v = le_value(rest);
        let b = bytes[0] as nat;
        assert(b + 256 * v < 256 * p) by (nonlinear_arith)
            requires
                v < p,
                b < 256,
        ;
    }
}

} // verus!
