use blockxor::classify::{check_candidate_name, classify, signature, sidecar_name, Classification};
use blockxor::key::{check_key_bytes, generate_live_key, load_or_create, Key, KeyError, KeyLoadAction, KeyStatus};
use blockxor::transform::xor_chunk;
use blockxor::walker::{process_file, run_pass, FileOutcome, ModelFile, RunResult};

fn key_of(bytes: [u8; 8]) -> Key {
    Key { bytes: bytes.to_vec() }
}

#[test]
fn signature_bytes() {
    assert_eq!(signature(), vec![0xf9, 0xbe, 0xb4, 0xd9]);
    assert_eq!(sidecar_name(), b"xor.dat".to_vec());
}

#[test]
fn xor_exact_values() {
    let key = key_of([1, 2, 3, 4, 5, 6, 7, 8]);
    let mut data: Vec<u8> = vec![0x10, 0x20, 0x30, 0x40, 0x50, 0x60, 0x70, 0x80, 0x90, 0xa0];
    xor_chunk(&mut data, &key, 0);
    let expected: Vec<u8> = (0..10u8)
        .map(|i| [0x10, 0x20, 0x30, 0x40, 0x50, 0x60, 0x70, 0x80, 0x90, 0xa0][i as usize] ^ [1u8, 2, 3, 4, 5, 6, 7, 8][(i % 8) as usize])
        .collect();
    assert_eq!(data, expected);
}

#[test]
fn xor_phase_offset() {
    // A chunk beginning at stream position 3 uses key bytes from phase 3 on.
    let key = key_of([1, 2, 3, 4, 5, 6, 7, 8]);
    let mut data: Vec<u8> = vec![0, 0, 0, 0, 0, 0, 0];
    xor_chunk(&mut data, &key, 3);
    assert_eq!(data, vec![4, 5, 6, 7, 8, 1, 2]);
}

#[test]
fn xor_round_trip_restores_bytes() {
    let key = key_of([0xaa, 0x55, 1, 2, 3, 4, 5, 6]);
    let original: Vec<u8> = (0u8..=255).collect();
    let mut data = original.clone();
    xor_chunk(&mut data, &key, 0);
    assert_ne!(data, original);
    xor_chunk(&mut data, &key, 0);
    assert_eq!(data, original);
}

#[test]
fn xor_round_trip_empty() {
    let key = key_of([9, 9, 9, 9, 9, 9, 9, 9]);
    let mut data: Vec<u8> = vec![];
    xor_chunk(&mut data, &key, 0);
    assert_eq!(data, Vec::<u8>::new());
}

#[test]
fn xor_chunked_equals_whole() {
    // Transforming in chunks with the running offset matches one whole pass.
    let key = key_of([7, 1, 0, 255, 3, 9, 17, 33]);
    let bytes: Vec<u8> = (0..100u8).map(|i| i.wrapping_mul(37)).collect();

    let mut whole = bytes.clone();
    xor_chunk(&mut whole, &key, 0);

    let mut chunked: Vec<u8> = Vec::new();
    let mut offset: u64 = 0;
    for chunk in bytes.chunks(13) {
        let mut c = chunk.to_vec();
        xor_chunk(&mut c, &key, offset);
        offset += c.len() as u64;
        chunked.extend_from_slice(&c);
    }
    assert_eq!(chunked, whole);
}

#[test]
fn candidate_names() {
    assert!(check_candidate_name(&b"blk00000.dat".to_vec()));
    assert!(check_candidate_name(&b"a.dat".to_vec()));
    assert!(!check_candidate_name(&b"xor.dat".to_vec()));
    assert!(!check_candidate_name(&b"blk00000.txt".to_vec()));
    assert!(!check_candidate_name(&b"blk00000dat".to_vec()));
    assert!(!check_candidate_name(&b".dat".to_vec()));
    assert!(!check_candidate_name(&b"".to_vec()));
}

#[test]
fn classify_raw_header_transforms() {
    let name = b"blk00000.dat".to_vec();
    let header = Some(vec![0xf9, 0xbe, 0xb4, 0xd9]);
    assert_eq!(classify(&name, &header), Classification::Transform);
}

#[test]
fn classify_obfuscated_header_skips() {
    // Header equal to Signature XOR key[0..4] is already obfuscated.
    let key = [0x11u8, 0x22, 0x33, 0x44, 0, 0, 0, 0x99];
    let name = b"blk00000.dat".to_vec();
    let header = Some(vec![0xf9 ^ key[0], 0xbe ^ key[1], 0xb4 ^ key[2], 0xd9 ^ key[3]]);
    assert_eq!(classify(&name, &header), Classification::Skip);
}

#[test]
fn classify_short_file_skips() {
    let name = b"blk00000.dat".to_vec();
    assert_eq!(classify(&name, &None), Classification::Skip);
    assert_eq!(classify(&name, &Some(vec![0xf9, 0xbe])), Classification::Skip);
}

#[test]
fn classify_wrong_name_skips() {
    let header = Some(vec![0xf9, 0xbe, 0xb4, 0xd9]);
    assert_eq!(classify(&b"notes.txt".to_vec(), &header), Classification::Skip);
    assert_eq!(classify(&b"xor.dat".to_vec(), &header), Classification::Skip);
}

#[test]
fn key_invalid_state_rejected() {
    let r = check_key_bytes(&vec![0, 0, 0, 0, 1, 2, 3, 4]);
    assert!(matches!(r, Err(KeyError::InvalidKeyState)));
}

#[test]
fn key_wrong_length_rejected() {
    assert!(matches!(check_key_bytes(&vec![]), Err(KeyError::MalformedKeyFile)));
    assert!(matches!(check_key_bytes(&vec![1; 7]), Err(KeyError::MalformedKeyFile)));
    assert!(matches!(check_key_bytes(&vec![1; 9]), Err(KeyError::MalformedKeyFile)));
}

#[test]
fn key_sentinel_recognised() {
    assert!(matches!(check_key_bytes(&vec![0; 8]), Ok(KeyStatus::Sentinel)));
}

#[test]
fn key_live_used_as_is() {
    let bytes = vec![1, 2, 3, 4, 5, 6, 7, 8];
    match check_key_bytes(&bytes) {
        Ok(KeyStatus::Live(k)) => assert_eq!(k.bytes, bytes),
        _ => panic!("expected a live key"),
    }
}

#[test]
fn key_live_with_zero_tail_used_as_is() {
    // Only the first 4 bytes decide liveness.
    let bytes = vec![0, 0, 0, 1, 0, 0, 0, 0];
    match check_key_bytes(&bytes) {
        Ok(KeyStatus::Live(k)) => assert_eq!(k.bytes, bytes),
        _ => panic!("expected a live key"),
    }
}

#[test]
fn generated_key_is_live() {
    for _ in 0..32 {
        let k = generate_live_key();
        assert_eq!(k.bytes.len(), 8);
        assert!(k.bytes[..4] != [0u8; 4]);
    }
}

#[test]
fn missing_sidecar_aborts() {
    assert!(matches!(load_or_create(None), Err(KeyError::MissingSidecar)));
}

#[test]
fn sentinel_sidecar_gets_new_key() {
    match load_or_create(Some(&vec![0; 8])) {
        Ok(KeyLoadAction::WriteNew(k)) => {
            assert_eq!(k.bytes.len(), 8);
            assert!(k.bytes[..4] != [0u8; 4]);
        }
        _ => panic!("expected a fresh key to write"),
    }
}

#[test]
fn existing_key_not_rewritten() {
    let bytes = vec![9, 8, 7, 6, 5, 4, 3, 2];
    match load_or_create(Some(&bytes)) {
        Ok(KeyLoadAction::UseExisting(k)) => assert_eq!(k.bytes, bytes),
        _ => panic!("expected the existing key to be reused"),
    }
}

#[test]
fn counters_add_up() {
    let mut r = RunResult::new();
    r.record(FileOutcome::Transformed);
    r.record(FileOutcome::Skipped);
    r.record(FileOutcome::Skipped);
    r.record(FileOutcome::Failed);
    assert_eq!(r.seen, 4);
    assert_eq!(r.transformed, 1);
    assert_eq!(r.skipped, 2);
    assert_eq!(r.failed, 1);
}

#[test]
fn process_transforms_raw_file() {
    let key = key_of([1, 2, 3, 4, 5, 6, 7, 8]);
    let name = b"blk00000.dat".to_vec();
    let mut data = vec![0xf9, 0xbe, 0xb4, 0xd9, 0x00, 0xff];
    let o = process_file(&name, &mut data, &key);
    assert_eq!(o, FileOutcome::Transformed);
    assert_eq!(data, vec![0xf9 ^ 1, 0xbe ^ 2, 0xb4 ^ 3, 0xd9 ^ 4, 0x00 ^ 5, 0xff ^ 6]);
}

#[test]
fn zero_length_file_counted_skipped() {
    let key = key_of([1, 2, 3, 4, 5, 6, 7, 8]);
    let files = vec![ModelFile { name: b"blk00000.dat".to_vec(), data: vec![] }];
    let (files, result) = run_pass(files, &key);
    assert_eq!(files[0].data, Vec::<u8>::new());
    assert_eq!(result.seen, 1);
    assert_eq!(result.skipped, 1);
    assert_eq!(result.transformed, 0);
    assert_eq!(result.failed, 0);
}

#[test]
fn sidecar_file_never_modified() {
    // A file named xor.dat is untouched whatever its contents hold.
    let key = key_of([1, 2, 3, 4, 5, 6, 7, 8]);
    let raw_signature_contents = vec![0xf9, 0xbe, 0xb4, 0xd9, 1, 2, 3, 4];
    let files = vec![ModelFile { name: b"xor.dat".to_vec(), data: raw_signature_contents.clone() }];
    let (files, result) = run_pass(files, &key);
    assert_eq!(files[0].data, raw_signature_contents);
    assert_eq!(result.transformed, 0);
    assert_eq!(result.skipped, 1);
}

#[test]
fn fresh_directory_scenario() {
    // Sidecar holds the sentinel; one 100-byte raw block file. After one run
    // the sidecar gets a live key, the block file's header is the signature
    // XOR-ed with the key's first 4 bytes, and a second run changes nothing.
    let sidecar = vec![0u8; 8];
    let key = match load_or_create(Some(&sidecar)) {
        Ok(KeyLoadAction::WriteNew(k)) => k,
        _ => panic!("sentinel sidecar must yield a fresh key"),
    };
    assert!(key.bytes[..4] != [0u8; 4]);

    let mut block = vec![0xf9, 0xbe, 0xb4, 0xd9];
    block.extend((0..96u8).map(|i| i.wrapping_mul(11)));
    assert_eq!(block.len(), 100);
    let files = vec![ModelFile { name: b"blk00000.dat".to_vec(), data: block.clone() }];

    let (after_first, first) = run_pass(files, &key);
    assert_eq!(first.seen, 1);
    assert_eq!(first.transformed, 1);
    assert_eq!(first.failed, 0);
    for i in 0..4 {
        assert_eq!(after_first[0].data[i], block[i] ^ key.bytes[i]);
    }
    for i in 0..100 {
        assert_eq!(after_first[0].data[i], block[i] ^ key.bytes[i % 8]);
    }

    let snapshot: Vec<Vec<u8>> = after_first.iter().map(|f| f.data.clone()).collect();
    let (after_second, second) = run_pass(after_first, &key);
    assert_eq!(second.seen, 1);
    assert_eq!(second.transformed, 0);
    assert_eq!(second.skipped, 1);
    assert_eq!(after_second[0].data, snapshot[0]);
}

#[test]
fn mixed_directory_run() {
    let key = key_of([0xde, 0xad, 0xbe, 0xef, 1, 2, 3, 4]);
    let files = vec![
        ModelFile { name: b"blk00000.dat".to_vec(), data: vec![0xf9, 0xbe, 0xb4, 0xd9, 7] },
        ModelFile { name: b"xor.dat".to_vec(), data: vec![0xde, 0xad, 0xbe, 0xef, 1, 2, 3, 4] },
        ModelFile { name: b"peers.json".to_vec(), data: vec![0xf9, 0xbe, 0xb4, 0xd9] },
        ModelFile { name: b"blk00001.dat".to_vec(), data: vec![1, 2, 3, 4, 5] },
        ModelFile { name: b"short.dat".to_vec(), data: vec![0xf9] },
    ];
    let (after, result) = run_pass(files, &key);
    assert_eq!(result.seen, 5);
    assert_eq!(result.transformed, 1);
    assert_eq!(result.skipped, 4);
    assert_eq!(result.failed, 0);
    assert_eq!(after[0].data, vec![0xf9 ^ 0xde, 0xbe ^ 0xad, 0xb4 ^ 0xbe, 0xd9 ^ 0xef, 7 ^ 1]);
    assert_eq!(after[1].data, vec![0xde, 0xad, 0xbe, 0xef, 1, 2, 3, 4]);
    assert_eq!(after[2].data, vec![0xf9, 0xbe, 0xb4, 0xd9]);
    assert_eq!(after[3].data, vec![1, 2, 3, 4, 5]);
    assert_eq!(after[4].data, vec![0xf9]);
}
