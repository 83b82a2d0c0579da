use orb::config::OrbConfig;
use orb::program::OrbProgram;
use orb::readback::{decode_count, read_le_word, Corner, ReadbackError};

fn program(max_features: u32, max_matches: u32) -> OrbProgram {
    let c = OrbConfig { width: 64, height: 64, max_features, max_matches, corner_threshold: 0, match_threshold: 0 };
    OrbProgram::init(c).ok().unwrap()
}

fn words(ws: &[u32]) -> Vec<u8> {
    let mut v = Vec::new();
    for w in ws {
        v.extend_from_slice(&w.to_le_bytes());
    }
    v
}

#[test]
fn le_word_reads_little_endian() {
    assert_eq!(read_le_word(&vec![0x78, 0x56, 0x34, 0x12], 0), 0x12345678);
    assert_eq!(read_le_word(&vec![0, 0xff, 0xff, 0xff, 0xff], 1), u32::MAX);
}

#[test]
fn count_is_clamped_to_capacity() {
    assert_eq!(decode_count(&words(&[7]), 10), Ok(7));
    assert_eq!(decode_count(&words(&[70]), 10), Ok(10));
    assert_eq!(decode_count(&vec![1, 2, 3], 10), Err(ReadbackError::ShortBuffer));
}

#[test]
fn read_corners_clamps_counter() {
    let p = program(3, 5);
    let corners = words(&[1, 2, 3, 4, 5, 6]);
    let got = p.read_corners(&words(&[9]), &corners).unwrap();
    assert_eq!(got, vec![Corner { x: 1, y: 2 }, Corner { x: 3, y: 4 }, Corner { x: 5, y: 6 }]);
    let got = p.read_corners(&words(&[1]), &corners).unwrap();
    assert_eq!(got, vec![Corner { x: 1, y: 2 }]);
    assert_eq!(p.read_corners(&words(&[0]), &vec![]).unwrap().len(), 0);
}

#[test]
fn read_corners_short_buffers() {
    let p = program(3, 5);
    assert_eq!(p.read_corners(&vec![0, 0], &words(&[1, 2])).err(), Some(ReadbackError::ShortBuffer));
    assert_eq!(p.read_corners(&words(&[2]), &words(&[1, 2, 3])).err(), Some(ReadbackError::ShortBuffer));
}

#[test]
fn read_matches_unpacks_pairs() {
    let p = program(10, 2);
    let records = words(&[3 + 65536 * 7, 0 + 65536 * 1, 5]);
    let got = p.read_matches(&words(&[3]), &records).unwrap();
    assert_eq!(got, vec![(3, 7), (0, 1)]);
    assert_eq!(p.read_matches(&words(&[1]), &vec![1]).err(), Some(ReadbackError::ShortBuffer));
}

#[test]
fn read_descriptors_words() {
    let p = program(10, 2);
    let bytes = words(&[1, 2, 3, 4, 5, 6, 7, 8, 9, 10, 11, 12, 13, 14, 15, 16]);
    let got = p.read_descriptors(2, &bytes).unwrap();
    assert_eq!(got, vec![[1, 2, 3, 4, 5, 6, 7, 8], [9, 10, 11, 12, 13, 14, 15, 16]]);
    assert_eq!(p.read_descriptors(0, &vec![]).unwrap().len(), 0);
    assert_eq!(p.read_descriptors(3, &bytes).err(), Some(ReadbackError::ShortBuffer));
    let small = program(1, 2);
    assert_eq!(small.read_descriptors(5, &bytes).unwrap(), vec![[1, 2, 3, 4, 5, 6, 7, 8]]);
}
