//! The permutation pads and the generators behind them.

use kcptun::qpp::cipher::shuffle_pad;
use kcptun::qpp::pad::{decrypt_with_pads, encrypt_with_pads, QuantumPermutationPad};
use kcptun::qpp::prng::{create_prng, xoshiro256ss};
use kcptun::qpp::seed::{qpp_minimum_seed_length_inner, seed_to_chunks};

#[test]
fn qpp_roundtrip() {
    let key = b"test-key-12345-test-key-67890";
    let mut qpp = QuantumPermutationPad::new(key, 61);
    let mut data = vec![0xAB, 0xCD, 0xEF, 0x12, 0x34, 0x56, 0x78, 0x90];
    let original = data.clone();
    qpp.encrypt(&mut data);
    assert_ne!(data, original);
    qpp.decrypt(&mut data);
    assert_eq!(data, original);
}

#[test]
fn qpp_empty() {
    let mut qpp = QuantumPermutationPad::new(b"key", 10);
    let mut empty: Vec<u8> = vec![];
    qpp.encrypt(&mut empty);
    assert!(empty.is_empty());
    qpp.decrypt(&mut empty);
    assert!(empty.is_empty());
}

#[test]
fn qpp_pad_count() {
    assert_eq!(QuantumPermutationPad::new(b"key", 61).count(), 61);
}

#[test]
fn qpp_count_zero_becomes_one() {
    assert_eq!(QuantumPermutationPad::new(b"key", 0).count(), 1);
}

#[test]
fn qpp_deterministic() {
    let key = b"deterministic-test-key-for-qpp";
    let data = b"hello qpp world!";
    let mut qpp1 = QuantumPermutationPad::new(key, 10);
    let mut qpp2 = QuantumPermutationPad::new(key, 10);
    let mut d1 = data.to_vec();
    let mut d2 = data.to_vec();
    qpp1.encrypt(&mut d1);
    qpp2.encrypt(&mut d2);
    assert_eq!(d1, d2);
}

#[test]
fn qpp_known_ciphertext() {
    let mut qpp = QuantumPermutationPad::new(b"deterministic-test-key-for-qpp", 10);
    let mut first = b"hello qpp world!".to_vec();
    qpp.encrypt(&mut first);
    assert_eq!(
        first,
        vec![248, 205, 134, 67, 99, 246, 247, 224, 252, 147, 246, 199, 243, 92, 50, 234]
    );
    let mut second = b"abc".to_vec();
    qpp.encrypt(&mut second);
    assert_eq!(second, vec![48, 179, 193]);
}

#[test]
fn qpp_peers_understand_in_pieces() {
    let mut sender = QuantumPermutationPad::new(b"shared", 7);
    let mut receiver = QuantumPermutationPad::new(b"shared", 7);
    let original: Vec<u8> = (0..100u8).collect();
    let mut data = original.clone();
    sender.encrypt(&mut data[..3]);
    sender.encrypt(&mut data[3..50]);
    sender.encrypt(&mut data[50..]);
    receiver.decrypt(&mut data[..40]);
    receiver.decrypt(&mut data[40..41]);
    receiver.decrypt(&mut data[41..]);
    assert_eq!(data, original);
}

#[test]
fn pads_in_one_piece_or_two() {
    let pads: Vec<u8> = (0..512usize).map(|i| (255 - i % 256) as u8).collect();
    let mut whole: Vec<u8> = (0..21u8).collect();
    let mut halves = whole.clone();
    let mut r1 = create_prng(b"seed");
    let mut r2 = create_prng(b"seed");
    encrypt_with_pads(&pads, &mut whole, &mut r1, 2);
    encrypt_with_pads(&pads, &mut halves[..5], &mut r2, 2);
    encrypt_with_pads(&pads, &mut halves[5..], &mut r2, 2);
    assert_eq!(whole, halves);
    let mut r3 = create_prng(b"seed");
    decrypt_with_pads(&pads, &mut whole, &mut r3, 2);
    assert_eq!(whole, (0..21u8).collect::<Vec<u8>>());
}

#[test]
fn nothing_to_encrypt_needs_no_pads() {
    let mut r = create_prng(b"seed");
    let mut fresh = create_prng(b"seed");
    let mut none: [u8; 0] = [];
    encrypt_with_pads(&[], &mut none, &mut r, 3);
    decrypt_with_pads(&[], &mut none, &mut r, 3);
    let pads: Vec<u8> = (0..512usize).map(|i| (255 - i % 256) as u8).collect();
    let mut a = b"as before".to_vec();
    let mut b = a.clone();
    encrypt_with_pads(&pads, &mut a, &mut r, 2);
    encrypt_with_pads(&pads, &mut b, &mut fresh, 2);
    assert_eq!(a, b);
}

#[test]
fn shuffled_pad_is_known_and_a_permutation() {
    let chunks = seed_to_chunks(b"key");
    let mut qpp_pad: Vec<u8> = (0..=255u8).collect();
    let before = qpp_pad.clone();
    let keys: Vec<Vec<u8>> = vec![vec![7u8; 32], vec![9u8; 32]];
    shuffle_pad(&chunks[0], &mut qpp_pad, 3, &keys);
    assert_ne!(qpp_pad, before);
    let mut sorted = qpp_pad.clone();
    sorted.sort();
    assert_eq!(sorted, before);
}

#[test]
fn seed_chunks_are_known() {
    let chunks = seed_to_chunks(b"key");
    assert_eq!(chunks.len(), 7);
    assert_eq!(chunks[0][..4], [0xc8, 0xd1, 0xee, 0x89]);
    assert_eq!(chunks[0][28..], [0x8d, 0xe6, 0x1f, 0xf6]);
}

#[test]
fn minimum_seed_lengths() {
    assert_eq!(qpp_minimum_seed_length_inner(8), 211);
    assert_eq!(qpp_minimum_seed_length_inner(1), 1);
    assert_eq!(qpp_minimum_seed_length_inner(2), 1);
    assert_eq!(qpp_minimum_seed_length_inner(3), 2);
    assert_eq!(qpp_minimum_seed_length_inner(4), 6);
}

#[test]
fn prng_deterministic() {
    let seed = b"test-seed-for-prng";
    let mut rng1 = create_prng(seed);
    let mut rng2 = create_prng(seed);
    for _ in 0..100 {
        assert_eq!(rng1.next_u64(), rng2.next_u64());
    }
}

#[test]
fn prng_known_numbers() {
    let mut rng = create_prng(b"test-seed-for-prng");
    assert_eq!(rng.next_u64(), 0x7bb64f854e8ddb8f);
    assert_eq!(rng.next_u64(), 0xff69e837bf2829ff);
}

#[test]
fn xoshiro_works() {
    let mut state = [1u64, 2, 3, 4];
    assert!(xoshiro256ss(&mut state) != 0);
}

#[test]
fn xoshiro_known_numbers() {
    let mut state = [1u64, 2, 3, 4];
    assert_eq!(xoshiro256ss(&mut state), 11520);
    assert_eq!(xoshiro256ss(&mut state), 0);
    assert_eq!(state, [211106232532999, 262149, 262149, 402653184]);
}

#[test]
fn long_data_roundtrip() {
    let key = b"test-long-data-key";
    let mut qpp = QuantumPermutationPad::new(key, 31);
    let mut data: Vec<u8> = (0..1000).map(|i| (i & 0xFF) as u8).collect();
    let original = data.clone();
    qpp.encrypt(&mut data);
    assert_ne!(data, original);
    qpp.decrypt(&mut data);
    assert_eq!(data, original);
}

#[test]
fn every_byte_comes_back_at_every_place() {
    let mut sender = QuantumPermutationPad::new(b"all bytes", 3);
    let mut receiver = QuantumPermutationPad::new(b"all bytes", 3);
    for b in 0..=255u8 {
        let mut data = vec![b; 9];
        sender.encrypt(&mut data);
        receiver.decrypt(&mut data);
        assert_eq!(data, vec![b; 9]);
    }
}
