use resym::decoder::{frame_records, DecodeError, RawRecord};

#[test]
fn empty_stream_holds_no_record() {
    assert_eq!(frame_records(&[]), Ok(Vec::new()));
}

#[test]
fn records_lie_one_behind_the_other() {
    let stream = [3, 0, 10, 11, 12, 0, 0, 1, 0, 99];
    assert_eq!(
        frame_records(&stream),
        Ok(vec![
            RawRecord { start: 2, end: 5 },
            RawRecord { start: 7, end: 7 },
            RawRecord { start: 9, end: 10 },
        ])
    );
}

#[test]
fn length_is_read_low_byte_first() {
    let mut stream = vec![2u8, 1];
    stream.extend(std::iter::repeat(7u8).take(258));
    assert_eq!(frame_records(&stream), Ok(vec![RawRecord { start: 2, end: 260 }]));
    stream.pop();
    assert_eq!(frame_records(&stream), Err(DecodeError::Truncated));
}

#[test]
fn stream_that_ends_inside_a_length_is_truncated() {
    assert_eq!(frame_records(&[0]), Err(DecodeError::Truncated));
    assert_eq!(frame_records(&[1, 0, 5, 2]), Err(DecodeError::Truncated));
}

#[test]
fn stream_that_ends_inside_a_payload_is_truncated() {
    assert_eq!(frame_records(&[1, 0]), Err(DecodeError::Truncated));
    assert_eq!(frame_records(&[0, 0, 4, 0, 1, 2, 3]), Err(DecodeError::Truncated));
    assert_eq!(frame_records(&[255, 255, 0]), Err(DecodeError::Truncated));
}

#[test]
fn payloads_can_be_sliced_out() {
    let stream = [2, 0, 0xaa, 0xbb, 1, 0, 0xcc];
    let records = frame_records(&stream).unwrap();
    let payloads: Vec<&[u8]> =
        records.iter().map(|record| &stream[record.start..record.end]).collect();
    assert_eq!(payloads, vec![&[0xaa, 0xbb][..], &[0xcc][..]]);
}
