use aleo_primitives::blake2xs::{personalization, Blake2Xs, ALEO_PERSONA};

use blake2::{Blake2s, VarBlake2s};
use core::ops::Div;
use digest::generic_array::typenum::{Unsigned, U32, U4};
use digest::generic_array::GenericArray;
use digest::{Digest, Update, VariableOutput};
use rand::distributions::Uniform;
use rand::{Rng, SeedableRng};
use rand_chacha::ChaChaRng;

const ITERATIONS: usize = 10_000;

/// The salt and personalization of the reference BLAKE2s instances: all zero.
const REFERENCE_SALT: [u8; 8] = [0u8; 8];
const REFERENCE_PERSONA: [u8; 8] = [0u8; 8];

#[test]
fn test_aleo_personalization() {
    assert_eq!(8311448373230398529, ALEO_PERSONA);
    assert_eq!(ALEO_PERSONA, u64::from_le_bytes(ALEO_PERSONA.to_le_bytes()));
    assert_eq!([65, 108, 101, 111, 66, 50, 88, 115], ALEO_PERSONA.to_le_bytes());
    assert_eq!("AleoB2Xs".as_bytes(), ALEO_PERSONA.to_le_bytes());
    assert_eq!("AleoB2Xs", std::str::from_utf8(&ALEO_PERSONA.to_le_bytes()).unwrap());
}

#[test]
fn test_blake2xs() {

    const NODE_OFFSET: u32 = 0u32;
    // 256 bits / 32 bytes
    const XOF_DIGEST_32: u16 = 32u16;

    // Run evaluations and enforce size.
    for input_size in 0..1000 {
        // Sample a new input.
        let input: Vec<u8> = rand::thread_rng()
            .sample_iter(Uniform::from(0..255))
            .take(input_size)
            .collect();

        let digest = Blake2Xs::evaluate::<NODE_OFFSET, XOF_DIGEST_32, ALEO_PERSONA>(&input);
        println!("{} to 32: {:?}\n", input_size, digest);
        assert_eq!(32, digest.len());
    }
}

/// BLAKE2s of `input` under the hashing context `h`.
fn evaluate_varblake2s_input(mut h: VarBlake2s, input: [u8; 32]) -> Vec<u8> {

    let mut output = vec![0u8; digest::VariableOutput::output_size(&h)];
    Update::update(&mut h, input.as_ref());
    h.finalize_variable(|buffer| output.copy_from_slice(buffer));
    assert_eq!(32, output.len());
    output
}

/// BLAKE2s of `input` from the parameter block of `Blake2Xs::blake2s_parameter_block`.
fn evaluate_with_blake2s_parameters(input: [u8; 32]) -> Vec<u8> {

    let mut h = VarBlake2s::with_parameter_block(&Blake2Xs::blake2s_parameter_block());
    let mut output = vec![0u8; digest::VariableOutput::output_size(&h)];
    assert_eq!(32, output.len());

    Update::update(&mut h, input.as_ref());
    h.finalize_variable(|buffer| output.copy_from_slice(buffer));
    assert_eq!(32, output.len());
    output
}

#[test]
fn test_blake2s_correctness() {
    // Initialize a random number generator.
    let rng = &mut ChaChaRng::seed_from_u64(123456789u64);

    // Run evaluations and enforce equality.
    for _ in 0..ITERATIONS {
        // Initialize a reference implementation of VarBlake2s.
        let reference = VarBlake2s::with_params(&[], &REFERENCE_SALT, &REFERENCE_PERSONA, U32::to_usize());

        // Sample a new input.
        let input: [u8; 32] = rng.gen();

        // Compare the evaluation of the implementations.
        assert_eq!(evaluate_varblake2s_input(reference, input), Blake2Xs::evaluate_blake2s(&input));
        assert_eq!(evaluate_with_blake2s_parameters(input), Blake2Xs::evaluate_blake2s(&input));
    }
}

/// BLAKE2s of `seed` followed by `input`, through the fixed-output `Digest` interface.
fn evaluate_blake2s_seeded(mut h: Blake2s, seed: [u8; 32], input: [u8; 32]) -> Vec<u8> {

    Digest::update(&mut h, seed.as_ref());
    Digest::update(&mut h, input.as_ref());

    let mut output = [0u8; 32];
    output.copy_from_slice(&Digest::finalize(h));
    output.to_vec()
}

/// BLAKE2s of `seed` followed by `input`, through the variable-output interface.
fn evaluate_varblake2s_seeded(mut h: VarBlake2s, seed: [u8; 32], input: [u8; 32]) -> Vec<u8> {

    Update::update(&mut h, seed.as_ref());
    Update::update(&mut h, input.as_ref());

    let mut output = vec![0u8; digest::VariableOutput::output_size(&h)];
    h.finalize_variable(|buffer| output.copy_from_slice(buffer));
    assert_eq!(32, output.len());
    output
}

/// The parameter block that `VarBlake2s::with_params` builds for a 32-byte digest.
fn u32_params_to_parameter_block(key: &[u8], salt: &[u8], persona: &[u8]) -> [u32; 8] {

    let kk = key.len();
    assert!(kk <= U32::to_usize());
    assert!(32 <= U32::to_usize());

    // The number of bytes needed to express two words.
    let length = U32::to_usize() / 4;
    assert!(salt.len() <= length);
    assert!(persona.len() <= length);

    // Build a parameter block
    let mut p = [0u32; 8];
    p[0] = 0x0101_0000 ^ ((kk as u32) << 8) ^ 32u32;

    // salt is two words long
    if salt.len() < length {
        let mut padded_salt = GenericArray::<u8, <U32 as Div<U4>>::Output>::default();
        for i in 0..salt.len() {
            padded_salt[i] = salt[i];
        }
        p[4] = u32::from_le_bytes(padded_salt[0..length / 2].try_into().unwrap());
        p[5] = u32::from_le_bytes(padded_salt[length / 2..padded_salt.len()].try_into().unwrap());
    } else {
        p[4] = u32::from_le_bytes(salt[0..salt.len() / 2].try_into().unwrap());
        p[5] = u32::from_le_bytes(salt[salt.len() / 2..salt.len()].try_into().unwrap());
    }

    // persona is also two words long
    if persona.len() < length {
        let mut padded_persona = GenericArray::<u8, <U32 as Div<U4>>::Output>::default();
        for i in 0..persona.len() {
            padded_persona[i] = persona[i];
        }
        p[6] = u32::from_le_bytes(padded_persona[0..length / 2].try_into().unwrap());
        p[7] = u32::from_le_bytes(padded_persona[length / 2..padded_persona.len()].try_into().unwrap());
    } else {
        p[6] = u32::from_le_bytes(persona[0..length / 2].try_into().unwrap());
        p[7] = u32::from_le_bytes(persona[length / 2..persona.len()].try_into().unwrap());
    }
    p
}

#[test]
fn test_blake2s_parameter_block_correctness() {
    // Initialize a random number generator.
    let rng = &mut ChaChaRng::seed_from_u64(123456789u64);

    // Run evaluations and enforce equality.
    for _ in 0..ITERATIONS {
        // Initialize a reference implementation of Blake2s.
        let reference_a = Blake2s::with_params(&[], &REFERENCE_SALT, &REFERENCE_PERSONA);

        // Initialize a reference implementation of VarBlake2s.
        let reference_b = VarBlake2s::with_params(&[], &REFERENCE_SALT, &REFERENCE_PERSONA, U32::to_usize());

        // Initialize a reference implementation of VarBlake2s from a parameter block.
        let reference_c = VarBlake2s::with_parameter_block(&u32_params_to_parameter_block(&[], &REFERENCE_SALT, &REFERENCE_PERSONA));

        // Initialize a candidate implementation of Blake2s from the parameter block.
        let candidate = VarBlake2s::with_parameter_block(&Blake2Xs::blake2s_parameter_block());

        // Sample a new seed and input.
        let seed: [u8; 32] = rng.gen();
        let input: [u8; 32] = rng.gen();

        // Compare the evaluation of the implementations.
        assert_eq!(evaluate_blake2s_seeded(reference_a, seed, input), evaluate_varblake2s_seeded(reference_b.clone(), seed, input));
        assert_eq!(evaluate_varblake2s_seeded(reference_b, seed, input), evaluate_varblake2s_seeded(reference_c.clone(), seed, input));
        assert_eq!(evaluate_varblake2s_seeded(reference_c, seed, input), evaluate_varblake2s_seeded(candidate, seed, input));
    }
}

#[test]
fn blake2s_parameter_block_matches_with_params() {
    assert_eq!(u32_params_to_parameter_block(&[], &REFERENCE_SALT, &REFERENCE_PERSONA), Blake2Xs::blake2s_parameter_block());
    assert_eq!([0x0101_0020, 0, 0, 0, 0, 0, 0, 0], Blake2Xs::blake2s_parameter_block());
}

#[test]
fn blake2xs_parameter_block_words() {
    let block = Blake2Xs::blake2xs_parameter_block::<3u32, 0x1234u16, ALEO_PERSONA>();
    assert_eq!(
        [0x0000_0020, 32, 3, 0x2000_1234, 0, 0, 0x6f65_6c41, 0x7358_3242],
        block
    );
}

#[test]
fn parameter_block_places_every_field() {
    let block = Blake2Xs::parameter_block::<
        0x11u8,
        0x22u8,
        0x33u8,
        0x44u8,
        0x5566_7788u32,
        0x99aa_bbccu32,
        0xddeeu16,
        0xf1u8,
        0xf2u8,
        0x0102_0304_0506_0708u64,
        0x1112_1314_1516_1718u64,
    >();
    assert_eq!(
        [0x4433_2211, 0x5566_7788, 0x99aa_bbcc, 0xf2f1_ddee, 0x0506_0708, 0x0102_0304, 0x1516_1718, 0x1112_1314],
        block
    );
    // Laid out little-endian, the words are the byte layout of the BLAKE2 parameter block.
    let bytes: Vec<u8> = block.iter().flat_map(|w| w.to_le_bytes()).collect();
    let mut expected = vec![0x11u8, 0x22, 0x33, 0x44];
    expected.extend_from_slice(&0x5566_7788u32.to_le_bytes());
    expected.extend_from_slice(&0x99aa_bbccu32.to_le_bytes());
    expected.extend_from_slice(&0xddeeu16.to_le_bytes());
    expected.extend_from_slice(&[0xf1, 0xf2]);
    expected.extend_from_slice(&0x0102_0304_0506_0708u64.to_le_bytes());
    expected.extend_from_slice(&0x1112_1314_1516_1718u64.to_le_bytes());
    assert_eq!(expected, bytes);
}

#[test]
fn personalization_reads_little_endian() {
    assert_eq!(ALEO_PERSONA, personalization("AleoB2Xs".as_bytes()));
    assert_eq!(0x0807_0605_0403_0201, personalization(&[1, 2, 3, 4, 5, 6, 7, 8]));
    assert_eq!(0, personalization(&[0; 8]));
    assert_eq!(u64::MAX, personalization(&[0xff; 8]));
    let p = personalization(b"Persona!");
    assert_eq!(b"Persona!", &p.to_le_bytes());
}

#[test]
fn evaluate_matches_the_reference_blake2s() {

    let input = [7u8; 32];
    let reference = <Blake2s as Digest>::digest(&input);
    assert_eq!(reference.as_slice(), &Blake2Xs::evaluate_blake2s(&input)[..]);
    assert_ne!(input, Blake2Xs::evaluate_blake2s(&input));
}

#[test]
fn evaluate_depends_on_every_parameter() {
    let input = b"hello world";
    let base = Blake2Xs::evaluate::<0u32, 64u16, ALEO_PERSONA>(input);
    assert_ne!(base, Blake2Xs::evaluate::<1u32, 64u16, ALEO_PERSONA>(input));
    assert_ne!(base, Blake2Xs::evaluate::<0u32, 32u16, ALEO_PERSONA>(input));
    assert_ne!(base, Blake2Xs::evaluate::<0u32, 64u16, 0u64>(input));
    assert_ne!(base, Blake2Xs::evaluate::<0u32, 64u16, ALEO_PERSONA>(b"hello worle"));
    assert_eq!(base, Blake2Xs::evaluate::<0u32, 64u16, ALEO_PERSONA>(input));
}

#[test]
fn evaluate_starts_from_the_blake2xs_parameter_block() {

    let input = b"parameter block";
    let mut h = VarBlake2s::with_parameter_block(&Blake2Xs::blake2xs_parameter_block::<2u32, 96u16, ALEO_PERSONA>());
    Update::update(&mut h, &input[..]);
    let mut expected = [0u8; 32];
    h.finalize_variable(|buffer| expected.copy_from_slice(buffer));
    assert_eq!(expected, Blake2Xs::evaluate::<2u32, 96u16, ALEO_PERSONA>(input));
}
