use requers::hash::{digest_text, hash_bytes, FileHasher, HASH_LIMIT};

const EMPTY: &str = "e3b0c44298fc1c149afbf4c8996fb92427ae41e4649b934ca495991b7852b855";
const ABC: &str = "ba7816bf8f01cfea414140de5dae2223b00361a396177a9cb410ff61f20015ad";

#[test]
fn digest_of_nothing() {
    assert_eq!(hash_bytes(b""), EMPTY);
    assert_eq!(FileHasher::new().finish(), EMPTY);
}

#[test]
fn digest_of_known_bytes() {
    assert_eq!(hash_bytes(b"abc"), ABC);
    assert_eq!(
        hash_bytes(b"abcdbcdecdefdefgefghfghighijhijkijkljklmklmnlmnomnopnopq"),
        "248d6a61d20638b8e5c026930c3e6039a33ce45964ff2167f6ecedd419db06c1"
    );
}

#[test]
fn only_the_chunk_in_the_buffer_is_hashed() {
    let mut file = FileHasher::new();
    assert!(file.feed(b"abXXXX", 2));
    assert!(file.feed(b"cbXXXX", 1));
    assert!(!file.feed(b"cbXXXX", 0));
    assert_eq!(file.finish(), ABC);
}

#[test]
fn chunks_do_not_matter() {
    let content: Vec<u8> = (0..5000u32).map(|i| (i * 7 % 251) as u8).collect();
    for size in [1, 63, 64, 65, 4999, 5000, 8192] {
        let mut file = FileHasher::new();
        for chunk in content.chunks(size) {
            assert!(file.feed(chunk, chunk.len()));
        }
        assert_eq!(file.finish(), hash_bytes(&content));
    }
}

#[test]
fn room_runs_out_at_the_limit() {
    let mut file = FileHasher::new();
    assert!(file.has_room(HASH_LIMIT as usize - 1));
    assert!(!file.has_room(HASH_LIMIT as usize));
    file.feed(b"abc", 3);
    assert!(file.has_room(HASH_LIMIT as usize - 4));
    assert!(!file.has_room(HASH_LIMIT as usize - 3));
}

#[test]
fn digests_are_written_in_lower_case() {
    assert_eq!(digest_text(&[1, 2, 3, 15, 16, 0xab, 0xff, 0]), "0102030f10abff00");
    assert_eq!(digest_text(&[]), "");
}

#[test]
fn different_digests_have_different_texts() {
    assert_ne!(digest_text(&[0x01, 0x23]), digest_text(&[0x12, 0x30]));
    assert_ne!(digest_text(&[0]), digest_text(&[0, 0]));
}

#[test]
fn equal_data_have_equal_digests() {
    let first = hash_bytes(b"data");
    assert_ne!(hash_bytes(b"other"), first);
    assert_eq!(hash_bytes(&b"data".to_vec()), first);
}

#[test]
fn equal_files_have_equal_digests() {
    let mut first = FileHasher::new();
    first.feed(b"some ", 5);
    first.feed(b"data", 4);
    let mut second = FileHasher::new();
    second.feed(b"some data and more", 9);
    let digest = first.finish();
    assert_eq!(second.finish(), digest);
    assert_eq!(hash_bytes(b"some data"), digest);
    assert_eq!(digest.len(), 64);
    assert!(digest.chars().all(|c| matches!(c, '0'..='9' | 'a'..='f')));
}
