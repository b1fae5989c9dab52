use parity_scale_codec::Encode;
use swap_engine::common::{encode_seed_account_nonce, generate_did, Event, Module};
use swap_engine::utilities::{Did, ValueStruct};

fn preimage(seed: &[u8; 32], from: u64, nonce: u64) -> Vec<u8> {
    let mut bytes = seed.to_vec();
    bytes.extend_from_slice(&from.to_le_bytes());
    bytes.extend_from_slice(&nonce.to_le_bytes());
    bytes
}

#[test]
fn generate_did_hashes_seed_account_and_nonce() {
    let seed = [7u8; 32];
    let did = generate_did(&seed, 1, 2);
    assert_eq!(did.did, sp_io::hashing::blake2_256(&preimage(&seed, 1, 2)));
    assert_ne!(did.did, seed);
}

#[test]
fn generate_did_known_digest() {
    let did = generate_did(&[0u8; 32], 1, 0);
    let expected: [u8; 32] = [236, 171, 19, 26, 39, 166, 157, 70, 73, 152, 178, 140, 139, 11, 104, 52, 229, 166, 204, 5, 228, 91, 177, 96, 152, 9, 170, 52, 95, 25, 106, 190];
    assert_eq!(did, Did { did: expected });
}

#[test]
fn generate_did_depends_on_every_part() {
    let a = generate_did(&[0u8; 32], 1, 0);
    assert_ne!(a, generate_did(&[1u8; 32], 1, 0));
    assert_ne!(a, generate_did(&[0u8; 32], 2, 0));
    assert_ne!(a, generate_did(&[0u8; 32], 1, 1));
    assert_eq!(a, generate_did(&[0u8; 32], 1, 0));
}

#[test]
fn module_keeps_the_identifier_generated_last() {
    let mut module = Module::new();
    assert_eq!(module.gen_did(), Did { did: [0u8; 32] });
    let event = module.generate_did(&[3u8; 32], 9, 4);
    let did = generate_did(&[3u8; 32], 9, 4);
    assert_eq!(event, Event::GenerateDid(9, 4, did));
    assert_eq!(module.gen_did(), did);
}

#[test]
fn queue_is_first_in_first_out() {
    let mut module = Module::new();
    assert_eq!(module.get_buffer_range(0), (0, 0));
    module.add_to_queue(0, 10, true);
    module.add_multiple(0, vec![11, 12], false);
    assert_eq!(module.get_buffer_range(0), (0, 3));
    assert_eq!(module.get_buffer_value(0, 0), ValueStruct { integer: 10, boolean: true });
    assert_eq!(module.get_buffer_value(0, 2), ValueStruct { integer: 12, boolean: false });
    assert_eq!(module.get_buffer_value(0, 3), ValueStruct { integer: 0, boolean: false });
    assert_eq!(module.pop_from_queue(0), Some(Event::Popped(10, true)));
    assert_eq!(module.pop_from_queue(0), Some(Event::Popped(11, false)));
    assert_eq!(module.get_buffer_range(0), (2, 3));
    assert_eq!(module.pop_from_queue(0), Some(Event::Popped(12, false)));
    assert_eq!(module.pop_from_queue(0), None);
    assert_eq!(module.get_buffer_range(0), (3, 3));
}

#[test]
fn encoding_is_that_of_the_tuple() {
    let seed = [9u8; 32];
    assert_eq!(encode_seed_account_nonce(&seed, 7, u64::MAX - 1), (seed, 7u64, u64::MAX - 1).encode());
    assert_eq!(encode_seed_account_nonce(&seed, 7, 2), preimage(&seed, 7, 2));
    let mut other = [0u8; 32];
    other[31] = 1;
    let encoded = encode_seed_account_nonce(&other, 0x0102_0304_0506_0708, 1);
    assert_eq!(encoded.len(), 48);
    assert_eq!(encoded[31], 1);
    assert_eq!(&encoded[32..40], &[8, 7, 6, 5, 4, 3, 2, 1]);
    assert_eq!(&encoded[40..48], &[1, 0, 0, 0, 0, 0, 0, 0]);
    assert_eq!(encoded, (other, 0x0102_0304_0506_0708u64, 1u64).encode());
}
