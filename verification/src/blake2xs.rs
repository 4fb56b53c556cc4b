//! BLAKE2Xs and BLAKE2s over explicit parameter blocks.
//!
//! BLAKE2Xs (section 2 of the BLAKE2X paper) runs BLAKE2s from a parameter block whose
//! fields differ from plain BLAKE2s: the leaf length and inner length are 32, and the node
//! offset and XOF digest length place the output in the extendable output stream.
use blake2::VarBlake2s;
use digest::{Update, VariableOutput};
use vstd::arithmetic::power::{lemma_pow_increases, pow};
use vstd::prelude::*;

use crate::bytes::{le_bytes, le_value, lemma_le_bytes_of_le_value, lemma_le_bytes_split_word, lemma_le_value_bound, lemma_le_bytes_step, lemma_le_bytes_word, words_le_bytes};

verus! {

/// The personalization `"AleoB2Xs"`, read as a little-endian `u64`.
pub const ALEO_PERSONA: u64 = 8311448373230398529u64;

/// Reads a personalization string of exactly eight bytes as a little-endian `u64`, the form in
/// which a parameter block takes it. Written back as eight little-endian bytes, the result
/// gives the string again.
pub fn personalization(persona: &[u8]) -> (p: u64)
    requires
        persona@.len() == 8,
    ensures
        p == le_value(persona@),
        le_bytes(p as nat, 8) == persona@,
{
    let mut p: u64 = 0;
    let mut i: usize = 8;
    while i > 0
        invariant
            persona@.len() == 8,
            i <= 8,
            p == le_value(persona@.subrange(i as int, 8)),
        decreases i,
    {
        i = i - 1;
        let ghost tail = persona@.subrange(i + 1, 8);
        proof {
            lemma_le_value_bound(tail);
            reveal(pow);
            assert(persona@.subrange(i as int, 8).drop_first() =~= tail);
            assert(pow(256, tail.len()) <= 0x100_0000_0000_0000) by {
                lemma_pow_increases(256, tail.len(), 7);
                reveal_with_fuel(pow, 8);
            }
        }
        p = persona[i] as u64 + 0x100 * p;
    }
    proof {
        assert(persona@.subrange(0, 8) =~= persona@);
        lemma_le_bytes_of_le_value(persona@);
    }
    p
}

/// `ALEO_PERSONA` is the personalization string `"AleoB2Xs"` read little-endian: its eight
/// little-endian bytes are the string's characters, each an ASCII byte.
pub proof fn lemma_aleo_persona()
    ensures
        le_bytes(ALEO_PERSONA as nat, 8) == "AleoB2Xs"@.map_values(|c: char| c as u8),
        le_value("AleoB2Xs"@.map_values(|c: char| c as u8)) == ALEO_PERSONA,
{
    reveal_strlit("AleoB2Xs");
    let bytes = "AleoB2Xs"@.map_values(|c: char| c as u8);
    assert(bytes =~= seq![65u8, 108u8, 101u8, 111u8, 66u8, 50u8, 88u8, 115u8]);
    reveal_with_fuel(le_value, 9);
    assert(le_value(bytes) == ALEO_PERSONA);
    lemma_le_bytes_of_le_value(bytes);
}

/// BLAKE2s writes a digest of this many bytes.
const DIGEST_LENGTH: u8 = 32u8;

/// The key length of a BLAKE2Xs node is 0, even where the root hash was keyed.
const KEY_LENGTH: u8 = 0u8;

/// The fanout of a BLAKE2Xs node is 0 (unlimited).
const FANOUT: u8 = 0u8;

/// The maximal depth of a BLAKE2Xs node is 0.
const DEPTH: u8 = 0u8;

/// The leaf maximal byte length of BLAKE2Xs is 32.
const LEAF_LENGTH: u32 = 32u32;

/// BLAKE2Xs nodes are leaves: their node depth is 0.
const NODE_DEPTH: u8 = 0u8;

/// The inner hash byte length of BLAKE2Xs is 32.
const INNER_LENGTH: u8 = 32u8;

/// BLAKE2Xs leaves the salt as BLAKE2s has it: zero.
const SALT: u64 = 0u64;

/// The eight words of a BLAKE2s parameter block, each field placed at its offset.
pub open spec fn parameter_block_words(
    digest_length: u8,
    key_length: u8,
    fanout: u8,
    depth: u8,
    leaf_length: u32,
    node_offset: u32,
    xof_digest_length: u16,
    node_depth: u8,
    inner_length: u8,
    salt: u64,
    personalization: u64,
) -> Seq<u32> {
    seq![
        (digest_length + 0x100 * key_length + 0x1_0000 * fanout + 0x100_0000 * depth) as u32,
        leaf_length,
        node_offset,
        (xof_digest_length + 0x1_0000 * node_depth + 0x100_0000 * inner_length) as u32,
        (salt % 0x1_0000_0000) as u32,
        (salt / 0x1_0000_0000) as u32,
        (personalization % 0x1_0000_0000) as u32,
        (personalization / 0x1_0000_0000) as u32,
    ]
}

/// The 32 bytes of a BLAKE2s parameter block as the BLAKE2 specification lays them out:
/// digest length, key length, fanout, depth, leaf length (4 bytes), node offset (4 bytes),
/// XOF digest length (2 bytes), node depth, inner length, salt (8 bytes), personalization
/// (8 bytes), every multi-byte field little-endian.
pub open spec fn parameter_block_bytes(
    digest_length: u8,
    key_length: u8,
    fanout: u8,
    depth: u8,
    leaf_length: u32,
    node_offset: u32,
    xof_digest_length: u16,
    node_depth: u8,
    inner_length: u8,
    salt: u64,
    personalization: u64,
) -> Seq<u8> {
    seq![digest_length, key_length, fanout, depth]
        + le_bytes(leaf_length as nat, 4)
        + le_bytes(node_offset as nat, 4)
        + le_bytes(xof_digest_length as nat, 2)
        + seq![node_depth, inner_length]
        + le_bytes(salt as nat, 8)
        + le_bytes(personalization as nat, 8)
}

/// Laid out in memory as little-endian words, the parameter block is byte for byte the
/// parameter block of the BLAKE2 specification: every field sits at its offset.
pub proof fn lemma_parameter_block_layout(
    digest_length: u8,
    key_length: u8,
    fanout: u8,
    depth: u8,
    leaf_length: u32,
    node_offset: u32,
    xof_digest_length: u16,
    node_depth: u8,
    inner_length: u8,
    salt: u64,
    personalization: u64,
)
    ensures
        words_le_bytes(
            parameter_block_words(
                digest_length,
                key_length,
                fanout,
                depth,
                leaf_length,
                node_offset,
                xof_digest_length,
                node_depth,
                inner_length,
                salt,
                personalization,
            ),
        ) == parameter_block_bytes(
            digest_length,
            key_length,
            fanout,
            depth,
            leaf_length,
            node_offset,
            xof_digest_length,
            node_depth,
            inner_length,
            salt,
            personalization,
        ),
{
    let words = parameter_block_words(
        digest_length,
        key_length,
        fanout,
        depth,
        leaf_length,
        node_offset,
        xof_digest_length,
        node_depth,
        inner_length,
        salt,
        personalization,
    );
    reveal_with_fuel(words_le_bytes, 9);
    let x0 = (xof_digest_length % 0x100) as u8;
    let x1 = (xof_digest_length / 0x100) as u8;
    assert(xof_digest_length == x0 + 0x100 * x1);
    lemma_le_bytes_word(digest_length, key_length, fanout, depth);
    lemma_le_bytes_word(x0, x1, node_depth, inner_length);
    lemma_le_bytes_step(x0 as nat, x1 as nat, 1);
    lemma_le_bytes_step(x1 as nat, 0, 0);
    lemma_le_bytes_split_word(salt as nat, 4);
    lemma_le_bytes_split_word(personalization as nat, 4);
    assert(le_bytes(xof_digest_length as nat, 2) =~= seq![x0, x1]);
    assert(words_le_bytes(words) =~= parameter_block_bytes(
        digest_length,
        key_length,
        fanout,
        depth,
        leaf_length,
        node_offset,
        xof_digest_length,
        node_depth,
        inner_length,
        salt,
        personalization,
    ));
}

/// The parameter block of a BLAKE2Xs node.
pub open spec fn blake2xs_parameter_words(node_offset: u32, xof_digest_length: u16, personalization: u64) -> Seq<u32> {
    parameter_block_words(32, 0, 0, 0, 32, node_offset, xof_digest_length, 0, 32, 0, personalization)
}

/// Laid out little-endian, the BLAKE2Xs parameter block is the BLAKE2 parameter block with
/// digest length 32, key length 0, fanout 0, depth 0, leaf length 32, node depth 0, inner
/// length 32 and salt 0, whatever the node offset, XOF digest length and personalization.
pub proof fn lemma_blake2xs_parameter_layout(node_offset: u32, xof_digest_length: u16, personalization: u64)
    ensures
        words_le_bytes(blake2xs_parameter_words(node_offset, xof_digest_length, personalization))
            == parameter_block_bytes(
            32,
            0,
            0,
            0,
            32,
            node_offset,
            xof_digest_length,
            0,
            32,
            0,
            personalization,
        ),
{
    lemma_parameter_block_layout(32, 0, 0, 0, 32, node_offset, xof_digest_length, 0, 32, 0, personalization);
}

/// The parameter block of sequential BLAKE2s with a 32-byte digest, no key, no salt and no
/// personalization.
pub open spec fn blake2s_parameter_words() -> Seq<u32> {
    parameter_block_words(32, 0, 1, 1, 0, 0, 0, 0, 0, 0, 0)
}

/// Laid out little-endian, the BLAKE2s parameter block is the BLAKE2 parameter block with
/// digest length 32, fanout 1, depth 1 and every other field zero.
pub proof fn lemma_blake2s_parameter_layout()
    ensures
        words_le_bytes(blake2s_parameter_words()) == parameter_block_bytes(32, 0, 1, 1, 0, 0, 0, 0, 0, 0, 0),
{
    lemma_parameter_block_layout(32, 0, 1, 1, 0, 0, 0, 0, 0, 0, 0);
}

/// The 32-byte digest that BLAKE2s computes over `input` from the parameter block `block`.
pub uninterp spec fn blake2s_digest(block: Seq<u32>, input: Seq<u8>) -> Seq<u8>;

/// Hashes `input` with BLAKE2s started from the parameter block `block`: it calls
/// `blake2::VarBlake2s::with_parameter_block`, then `digest::Update::update` with `input`,
/// then `digest::VariableOutput::finalize_variable`, and copies the digest out. The contract
/// claims only that the digest is a function of `block` and `input` (`blake2s_digest`); that
/// it is the BLAKE2s function is not stated. `with_parameter_block` panics unless the digest
/// length (low byte of the first word) lies in 1..=32 and the key length (next byte) is at
/// most 32, and the copy panics unless the digest length is 32: `requires` keeps those inputs
/// out.
#[verifier::external_body]
fn blake2s_with_parameter_block(block: &[u32; 8], input: &[u8]) -> (digest: [u8; 32])
    requires
        block[0] % 0x100 == 32,
        (block[0] / 0x100) % 0x100 <= 32,
    ensures
        digest@ == blake2s_digest(block@, input@),
{
    let mut h = VarBlake2s::with_parameter_block(block);
    h.update(input);
    let mut output = [0u8; 32];
    h.finalize_variable(|buffer| output.copy_from_slice(buffer));
    output
}

/// BLAKE2Xs and BLAKE2s evaluation, and the parameter blocks they start from.
pub struct Blake2Xs;

impl Blake2Xs {
    /// One 32-byte block of BLAKE2Xs output: BLAKE2s over `input`, started from the BLAKE2Xs
    /// parameter block for `NODE_OFFSET`, `XOF_DIGEST_LENGTH` and `PERSONA`.
    pub fn evaluate<const NODE_OFFSET: u32, const XOF_DIGEST_LENGTH: u16, const PERSONA: u64>(
        input: &[u8],
    ) -> (digest: [u8; 32])
        ensures
            digest@ == blake2s_digest(
                blake2xs_parameter_words(NODE_OFFSET, XOF_DIGEST_LENGTH, PERSONA),
                input@,
            ),
            exists|block: Seq<u32>|
                {
                    &&& #[trigger] words_le_bytes(block) == parameter_block_bytes(
                        32,
                        0,
                        0,
                        0,
                        32,
                        NODE_OFFSET,
                        XOF_DIGEST_LENGTH,
                        0,
                        32,
                        0,
                        PERSONA,
                    )
                    &&& digest@ == blake2s_digest(block, input@)
                },
    {
        let block = Self::blake2xs_parameter_block::<NODE_OFFSET, XOF_DIGEST_LENGTH, PERSONA>();
        let digest = blake2s_with_parameter_block(&block, input);
        assert(words_le_bytes(block@) == parameter_block_bytes(
            32,
            0,
            0,
            0,
            32,
            NODE_OFFSET,
            XOF_DIGEST_LENGTH,
            0,
            32,
            0,
            PERSONA,
        ));
        digest
    }

    /// BLAKE2s with a 32-byte digest, no key, no salt and no personalization, over `input`.
    pub fn evaluate_blake2s(input: &[u8; 32]) -> (digest: [u8; 32])
        ensures
            digest@ == blake2s_digest(blake2s_parameter_words(), input@),
            exists|block: Seq<u32>|
                {
                    &&& #[trigger] words_le_bytes(block) == parameter_block_bytes(
                        32,
                        0,
                        1,
                        1,
                        0,
                        0,
                        0,
                        0,
                        0,
                        0,
                        0,
                    )
                    &&& digest@ == blake2s_digest(block, input@)
                },
    {
        let block = Self::blake2s_parameter_block();
        let digest = blake2s_with_parameter_block(&block, input);
        assert(words_le_bytes(block@) == parameter_block_bytes(32, 0, 1, 1, 0, 0, 0, 0, 0, 0, 0));
        digest
    }

    /// The parameter block of BLAKE2Xs, where `NODE_OFFSET` is the index of the 32-byte block
    /// of output (starting from 0), `XOF_DIGEST_LENGTH` the length in bytes of the whole
    /// output, and `PERSONALIZATION` a personalization string of 8 bytes read little-endian.
    pub fn blake2xs_parameter_block<
        const NODE_OFFSET: u32,
        const XOF_DIGEST_LENGTH: u16,
        const PERSONALIZATION: u64,
    >() -> (block: [u32; 8])
        ensures
            block@ == blake2xs_parameter_words(NODE_OFFSET, XOF_DIGEST_LENGTH, PERSONALIZATION),
            words_le_bytes(block@) == parameter_block_bytes(
                32,
                0,
                0,
                0,
                32,
                NODE_OFFSET,
                XOF_DIGEST_LENGTH,
                0,
                32,
                0,
                PERSONALIZATION,
            ),
    {
        Self::parameter_block::<
            DIGEST_LENGTH,
            KEY_LENGTH,
            FANOUT,
            DEPTH,
            LEAF_LENGTH,
            NODE_OFFSET,
            XOF_DIGEST_LENGTH,
            NODE_DEPTH,
            INNER_LENGTH,
            SALT,
            PERSONALIZATION,
        >()
    }

    /// The parameter block of BLAKE2s.
    pub fn blake2s_parameter_block() -> (block: [u32; 8])
        ensures
            block@ == blake2s_parameter_words(),
            words_le_bytes(block@) == parameter_block_bytes(32, 0, 1, 1, 0, 0, 0, 0, 0, 0, 0),
    {
        Self::parameter_block::<32u8, 0u8, 1u8, 1u8, 0u32, 0u32, 0u16, 0u8, 0u8, 0u64, 0u64>()
    }

    /// The parameter block with the given fields, as eight little-endian words.
    pub fn parameter_block<
        const DIGEST_LENGTH: u8,
        const KEY_LENGTH: u8,
        const FANOUT: u8,
        const DEPTH: u8,
        const LEAF_LENGTH: u32,
        const NODE_OFFSET: u32,
        const XOF_DIGEST_LENGTH: u16,
        const NODE_DEPTH: u8,
        const INNER_LENGTH: u8,
        const SALT: u64,
        const PERSONALIZATION: u64,
    >() -> (block: [u32; 8])
        ensures
            block@ == parameter_block_words(
                DIGEST_LENGTH,
                KEY_LENGTH,
                FANOUT,
                DEPTH,
                LEAF_LENGTH,
                NODE_OFFSET,
                XOF_DIGEST_LENGTH,
                NODE_DEPTH,
                INNER_LENGTH,
                SALT,
                PERSONALIZATION,
            ),
            words_le_bytes(block@) == parameter_block_bytes(
                DIGEST_LENGTH,
                KEY_LENGTH,
                FANOUT,
                DEPTH,
                LEAF_LENGTH,
                NODE_OFFSET,
                XOF_DIGEST_LENGTH,
                NODE_DEPTH,
                INNER_LENGTH,
                SALT,
                PERSONALIZATION,
            ),
    {
        let block = [
            // Offset 0: digest length, key length, fanout, depth.
            DIGEST_LENGTH as u32 + 0x100 * (KEY_LENGTH as u32) + 0x1_0000 * (FANOUT as u32)
                + 0x100_0000 * (DEPTH as u32),
            // Offset 4: leaf length.
            LEAF_LENGTH,
            // Offset 8: node offset.
            NODE_OFFSET,
            // Offset 12: XOF digest length, node depth, inner length.
            XOF_DIGEST_LENGTH as u32 + 0x1_0000 * (NODE_DEPTH as u32) + 0x100_0000 * (
            INNER_LENGTH as u32),
            // Offset 16: salt.
            (SALT % 0x1_0000_0000) as u32,
            (SALT / 0x1_0000_0000) as u32,
            // Offset 24: personalization.
            (PERSONALIZATION % 0x1_0000_0000) as u32,
            (PERSONALIZATION / 0x1_0000_0000) as u32,
        ];
        assert(block@ =~= parameter_block_words(
            DIGEST_LENGTH,
            KEY_LENGTH,
            FANOUT,
            DEPTH,
            LEAF_LENGTH,
            NODE_OFFSET,
            XOF_DIGEST_LENGTH,
            NODE_DEPTH,
            INNER_LENGTH,
            SALT,
            PERSONALIZATION,
        ));
        proof {
            lemma_parameter_block_layout(
                DIGEST_LENGTH,
                KEY_LENGTH,
                FANOUT,
                DEPTH,
                LEAF_LENGTH,
                NODE_OFFSET,
                XOF_DIGEST_LENGTH,
                NODE_DEPTH,
                INNER_LENGTH,
                SALT,
                PERSONALIZATION,
            );
        }
        block
    }
}

} // verus!
