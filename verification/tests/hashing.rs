use hashbench::hashing::hash_reply;

fn reply_of(hash: u64) -> Vec<u8> {
    hash.to_le_bytes().to_vec()
}

#[test]
fn reply_of_empty_body_is_offset_basis() {
    assert_eq!(hash_reply(b""), reply_of(0xcbf29ce484222325));
}

#[test]
fn reply_of_single_bytes() {
    assert_eq!(hash_reply(b"a"), reply_of(0xaf63dc4c8601ec8c));
    assert_eq!(hash_reply(b"\0"), reply_of(0xaf63bd4c8601b7df));
}

#[test]
fn reply_of_longer_bodies() {
    assert_eq!(hash_reply(b"foobar"), reply_of(0x85944171f73967e8));
    assert_eq!(hash_reply(b"a\0"), reply_of(0x089be207b544f1e4));
}

#[test]
fn reply_has_eight_bytes_and_decodes_to_hash() {
    let body: Vec<u8> = (0..100u8).collect();
    let reply = hash_reply(&body);
    assert_eq!(reply.len(), 8);
    let mut bytes = [0u8; 8];
    bytes.copy_from_slice(&reply);
    let mut hasher = fnv::FnvHasher::default();
    std::hash::Hasher::write(&mut hasher, &body);
    assert_eq!(u64::from_le_bytes(bytes), std::hash::Hasher::finish(&hasher));
}

#[test]
fn reply_is_not_the_body() {
    assert_ne!(hash_reply(b"12345678"), b"12345678".to_vec());
}
