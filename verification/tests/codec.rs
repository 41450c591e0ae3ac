use openingexplorer::lichess::{LichessHeader, RatingGroup};
use openingexplorer::model::{read_uint, write_uint, DecodeError, Speed};

fn group(speed: Speed, rating_group: RatingGroup, num_games: u64) -> LichessHeader {
    LichessHeader::Group { speed, rating_group, num_games }
}

fn encode(h: &LichessHeader) -> Vec<u8> {
    let mut buf = Vec::new();
    h.write(&mut buf);
    buf
}

fn round_trip(h: LichessHeader) {
    let buf = encode(&h);
    let (decoded, used) = LichessHeader::read(&buf, 0).expect("valid encoding");
    assert_eq!(decoded, h);
    assert_eq!(used, buf.len());
}

#[test]
fn round_trip_small_counts() {
    for num_games in [0u64, 1, 2] {
        round_trip(group(Speed::Blitz, RatingGroup::Group2000, num_games));
        round_trip(group(Speed::UltraBullet, RatingGroup::Group1600, num_games));
        round_trip(group(Speed::Correspondence, RatingGroup::Group3200, num_games));
    }
}

#[test]
fn round_trip_extended_counts() {
    for num_games in [3u64, 4, 255, 256, 100000, u64::MAX] {
        round_trip(group(Speed::Rapid, RatingGroup::Group2500, num_games));
        round_trip(group(Speed::Classical, RatingGroup::Group1800, num_games));
    }
}

#[test]
fn round_trip_all_cells() {
    let speeds = [
        Speed::UltraBullet,
        Speed::Bullet,
        Speed::Blitz,
        Speed::Rapid,
        Speed::Classical,
        Speed::Correspondence,
    ];
    let rating_groups = [
        RatingGroup::Group1600,
        RatingGroup::Group1800,
        RatingGroup::Group2000,
        RatingGroup::Group2200,
        RatingGroup::Group2500,
        RatingGroup::Group2800,
        RatingGroup::Group3200,
    ];
    for &speed in &speeds {
        for &rating_group in &rating_groups {
            round_trip(group(speed, rating_group, 2));
            round_trip(group(speed, rating_group, 777));
        }
    }
}

#[test]
fn exact_marker_bytes() {
    // speed code 3 | rating code 2 << 3 | literal count 1 << 6
    assert_eq!(encode(&group(Speed::Blitz, RatingGroup::Group2000, 1)), vec![0x53]);
    // speed code 4 | rating code 4 << 3 | saturated marker 3 << 6, then varint 5
    assert_eq!(encode(&group(Speed::Rapid, RatingGroup::Group2500, 5)), vec![0xe4, 0x05]);
    // count 255 needs two varint bytes: 127 + 1 * 128
    assert_eq!(
        encode(&group(Speed::UltraBullet, RatingGroup::Group1600, 255)),
        vec![0xc1, 0xff, 0x01]
    );
    // 100000 = 32 + 128 * (13 + 128 * 6)
    assert_eq!(
        encode(&group(Speed::UltraBullet, RatingGroup::Group1600, 100000)),
        vec![0xc1, 0xa0, 0x8d, 0x06]
    );
}

#[test]
fn terminator_encodes_as_single_zero_byte() {
    assert_eq!(encode(&LichessHeader::End), vec![0x00]);
}

#[test]
fn terminator_decodes_from_zero_byte() {
    let (decoded, used) = LichessHeader::read(&vec![0x00], 0).expect("terminator");
    assert_eq!(decoded, LichessHeader::End);
    assert_eq!(used, 1);
}

#[test]
fn terminator_decided_by_low_bits_alone() {
    // Any leading byte with zero in its low three bits is the terminator,
    // no matter the remaining bits, and no further byte is consumed.
    for byte in [0x08u8, 0x38, 0x40, 0xc0, 0xf8] {
        let (decoded, used) = LichessHeader::read(&vec![byte, 0xaa], 0).expect("terminator");
        assert_eq!(decoded, LichessHeader::End);
        assert_eq!(used, 1);
    }
}

#[test]
fn rejects_reserved_speed_code() {
    // Low three bits 7 is reserved, whatever the other bits hold.
    for byte in [0x07u8, 0x0f, 0x3f, 0x7f, 0xbf, 0xff] {
        assert_eq!(
            LichessHeader::read(&vec![byte], 0),
            Err(DecodeError::InvalidData)
        );
    }
}

#[test]
fn rejects_reserved_rating_code() {
    // Bits 3-5 all set is reserved whenever the speed code is nonzero.
    for byte in [0x39u8, 0x3a, 0x3e, 0x79, 0xbd, 0xfe] {
        assert_eq!(
            LichessHeader::read(&vec![byte], 0),
            Err(DecodeError::InvalidData)
        );
    }
}

#[test]
fn saturation_boundary() {
    assert_eq!(encode(&group(Speed::Blitz, RatingGroup::Group2200, 2)).len(), 1);
    assert!(encode(&group(Speed::Blitz, RatingGroup::Group2200, 3)).len() > 1);
    assert_eq!(encode(&group(Speed::Blitz, RatingGroup::Group2200, 3)), vec![0xdb, 0x03]);
}

#[test]
fn truncated_input_is_unexpected_end() {
    assert_eq!(LichessHeader::read(&vec![], 0), Err(DecodeError::UnexpectedEnd));
    // A saturated marker whose extension bytes are missing.
    assert_eq!(LichessHeader::read(&vec![0xe4], 0), Err(DecodeError::UnexpectedEnd));
    // An extension that never ends.
    assert_eq!(
        LichessHeader::read(&vec![0xe4, 0x80, 0x80], 0),
        Err(DecodeError::UnexpectedEnd)
    );
}

#[test]
fn end_to_end_sequence() {
    let records = [
        group(Speed::Blitz, RatingGroup::Group2000, 1),
        group(Speed::Rapid, RatingGroup::Group2500, 5),
        LichessHeader::End,
    ];
    let mut buf = Vec::new();
    for record in &records {
        record.write(&mut buf);
    }
    assert_eq!(buf, vec![0x53, 0xe4, 0x05, 0x00]);

    let mut pos = 0;
    let mut decoded = Vec::new();
    loop {
        let (record, used) = LichessHeader::read(&buf, pos).expect("valid stream");
        pos += used;
        let done = record == LichessHeader::End;
        decoded.push(record);
        if done {
            break;
        }
    }
    assert_eq!(pos, buf.len());
    assert_eq!(decoded.as_slice(), &records);
    // The second record's count really came from its extension byte.
    assert_eq!(
        decoded[1],
        LichessHeader::Group {
            speed: Speed::Rapid,
            rating_group: RatingGroup::Group2500,
            num_games: 5
        }
    );
}

#[test]
fn uint_exact_bytes() {
    let mut buf = Vec::new();
    write_uint(&mut buf, 0);
    assert_eq!(buf, vec![0x00]);
    buf.clear();
    write_uint(&mut buf, 127);
    assert_eq!(buf, vec![0x7f]);
    buf.clear();
    write_uint(&mut buf, 128);
    assert_eq!(buf, vec![0x80, 0x01]);
    buf.clear();
    write_uint(&mut buf, 100000);
    assert_eq!(buf, vec![0xa0, 0x8d, 0x06]);
}

#[test]
fn uint_round_trip() {
    for n in [0u64, 1, 127, 128, 255, 256, 16383, 16384, 100000, u64::MAX] {
        let mut buf = Vec::new();
        write_uint(&mut buf, n);
        assert_eq!(read_uint(&buf, 0), Ok((n, buf.len())));
    }
}

#[test]
fn uint_rejects_overflow_and_truncation() {
    // 2 * 128^9 == 2^64 does not fit in 64 bits.
    let mut overflowing = vec![0x80u8; 9];
    overflowing.push(0x02);
    assert_eq!(read_uint(&overflowing, 0), Err(DecodeError::InvalidData));
    assert_eq!(read_uint(&vec![0x80], 0), Err(DecodeError::UnexpectedEnd));
    assert_eq!(read_uint(&vec![], 0), Err(DecodeError::UnexpectedEnd));
}
