use std::io::Write;

use memdbstash::xz::decompress_artifact;
use memdbstash::error::Error;

fn xz_compress(data: &[u8]) -> Vec<u8> {
    let mut enc = xz2::write::XzEncoder::new(Vec::new(), 6);
    enc.write_all(data).unwrap();
    enc.finish().unwrap()
}

#[test]
fn decompress_round_trips() {
    let payload = b"memdb artifact payload, decompressed bytes".to_vec();
    let compressed = xz_compress(&payload);
    assert_ne!(compressed, payload);
    let restored = decompress_artifact(&compressed).unwrap();
    assert_eq!(restored, payload);
}

#[test]
fn decompress_empty_payload() {
    let payload: Vec<u8> = Vec::new();
    let compressed = xz_compress(&payload);
    let restored = decompress_artifact(&compressed).unwrap();
    assert_eq!(restored, payload);
}

#[test]
fn corrupt_stream_is_rejected() {
    let garbage = vec![1u8, 2, 3, 4, 5];
    match decompress_artifact(&garbage) {
        Ok(_) => panic!("garbage must not decompress"),
        Err(e) => {
            assert_eq!(e, Error::Decompress);
            assert_eq!(e.describe(), "artifact is not a valid xz stream");
        }
    }
}

#[test]
fn truncated_stream_is_rejected() {
    let payload = b"a longer payload so that truncation actually cuts data".to_vec();
    let mut compressed = xz_compress(&payload);
    compressed.truncate(compressed.len() / 2);
    assert!(decompress_artifact(&compressed).is_err());
}
