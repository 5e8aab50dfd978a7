use vesc::{self, CommandReply, Error, Values};

fn frame_around(payload: &[u8]) -> Vec<u8> {
    let crc = crc::Crc::<u16>::new(&crc::CRC_16_XMODEM).checksum(payload);
    let mut frame = vec![2u8, payload.len() as u8];
    frame.extend_from_slice(payload);
    frame.push((crc >> 8) as u8);
    frame.push((crc & 0xFF) as u8);
    frame.push(3);
    frame
}

#[test]
fn decode_selective_reply() {
    let frame = [2, 7, 50, 0, 0, 1, 128, 0, 0, 4, 210, 1, 176, 254, 22, 3];
    let (consumed, reply) = vesc::decode(&frame).unwrap();
    assert_eq!(consumed, 16);
    match reply {
        CommandReply::GetValuesSelective(values) => {
            assert_eq!(values.rpm, 1234);
            assert_eq!(values.voltage_in, 432);
            assert_eq!(values.temp_mosfet, 0);
            assert_eq!(values.duty_cycle, 0);
            assert_eq!(values.controller_id, 0);
            assert_eq!(values.status, 0);
        }
        other => panic!("wrong reply kind: {:?}", other),
    }
}

#[test]
fn decode_full_reply() {
    let mut payload = vec![4u8];
    let mut fields = vec![0u8; 73];
    fields[0] = 0;
    fields[1] = 123;
    fields[24] = 4;
    fields[25] = 210;
    fields[72] = 9;
    payload.extend_from_slice(&fields);
    let frame = frame_around(&payload);
    let (consumed, reply) = vesc::decode(&frame).unwrap();
    assert_eq!(consumed, 79);
    match reply {
        CommandReply::GetValues(values) => {
            assert_eq!(values.temp_mosfet, 123);
            assert_eq!(values.rpm, 1234);
            assert_eq!(values.status, 9);
            assert_eq!(values.temp_motor, 0);
            assert_eq!(values.watt_hours, 0);
        }
        other => panic!("wrong reply kind: {:?}", other),
    }
}

#[test]
fn decode_checksum_sensitivity() {
    let mut payload = vec![4u8];
    payload.extend_from_slice(&[0u8; 73]);
    payload[2] = 55;
    payload[40] = 7;
    let frame = frame_around(&payload);
    assert!(vesc::decode(&frame).is_ok());
    for byte in 3..76 {
        for bit in 0..8 {
            let mut corrupted = frame.clone();
            corrupted[byte] ^= 1 << bit;
            match vesc::decode(&corrupted) {
                Err(Error::ChecksumMismatch { .. }) => {}
                other => panic!("flip of byte {} bit {} gave {:?}", byte, bit, other),
            }
        }
    }
    for bit in 0..8 {
        let mut corrupted = frame.clone();
        corrupted[2] ^= 1 << bit;
        match vesc::decode(&corrupted) {
            Err(Error::UnknownPacket { .. }) => {}
            other => panic!("flip of the identifier byte gave {:?}", other),
        }
    }
}

#[test]
fn decode_frame_errors() {
    assert_eq!(vesc::decode(&[]), Err(Error::IncompleteData));
    assert_eq!(vesc::decode(&[2]), Err(Error::IncompleteData));
    assert_eq!(vesc::decode(&[7, 1, 4, 64, 132, 3]), Err(Error::InvalidFrame));
    assert_eq!(vesc::decode(&[2, 1, 4, 64]), Err(Error::IncompleteData));
    assert_eq!(
        vesc::decode(&[2, 1, 99, 0, 0, 3]),
        Err(Error::UnknownPacket { id: 99 })
    );
    // end marker wrong
    let frame = [2, 7, 50, 0, 0, 1, 128, 0, 0, 4, 210, 1, 176, 254, 22, 9];
    assert_eq!(vesc::decode(&frame), Err(Error::InvalidFrame));
    // a declared payload length reaching back past the start of the buffer
    let frame = [2, 255, 50, 0, 0, 1, 128, 0, 0, 4, 210, 1, 176, 254, 22, 3];
    assert_eq!(vesc::decode(&frame), Err(Error::InvalidFrame));
    // stored checksum wrong
    let frame = [2, 7, 50, 0, 0, 1, 128, 0, 0, 4, 210, 1, 176, 0, 0, 3];
    assert_eq!(
        vesc::decode(&frame),
        Err(Error::ChecksumMismatch {
            expected: 0x0000,
            actual: 0xFE16,
        })
    );
}

#[test]
fn decode_selective_empty_mask() {
    let frame = frame_around(&[50, 0, 0, 0, 0]);
    let (consumed, reply) = vesc::decode(&frame).unwrap();
    assert_eq!(consumed, 10);
    match reply {
        CommandReply::GetValuesSelective(values) => {
            assert_eq!(values, Values::default());
        }
        other => panic!("wrong reply kind: {:?}", other),
    }
}

#[test]
fn decode_selective_unknown_bits_retained() {
    // a mask bit above the defined groups adds no fields
    let frame = frame_around(&[50, 128, 0, 0, 0]);
    let (consumed, reply) = vesc::decode(&frame).unwrap();
    assert_eq!(consumed, 10);
    match reply {
        CommandReply::GetValuesSelective(values) => {
            assert_eq!(values, Values::default());
        }
        other => panic!("wrong reply kind: {:?}", other),
    }
}

#[test]
fn decode_selective_mosfet_group() {
    // TEMP_MOSFET_ALL gates all three per-MOSFET temperatures together
    let mask = 1u32 << 18;
    let payload = [50, 0, 4, 0, 0, 0, 11, 0, 22, 0, 33];
    assert_eq!(mask.to_be_bytes(), [0, 4, 0, 0]);
    let frame = frame_around(&payload);
    let (_, reply) = vesc::decode(&frame).unwrap();
    match reply {
        CommandReply::GetValuesSelective(values) => {
            assert_eq!(values.temp_mosfet1, 11);
            assert_eq!(values.temp_mosfet2, 22);
            assert_eq!(values.temp_mosfet3, 33);
            assert_eq!(values.temp_mosfet, 0);
        }
        other => panic!("wrong reply kind: {:?}", other),
    }
}

#[test]
fn encode_exact_capacity_boundary() {
    // every size short of the frame fails, the exact size succeeds
    let command = vesc::Command::ForwardCan(1, Box::new(vesc::Command::SetRpm(1234)));
    for n in 0..12 {
        let mut buf = vec![0u8; n];
        assert_eq!(vesc::encode(&command, &mut buf), Err(Error::BufferTooSmall));
        assert_eq!(buf.len(), n);
    }
    let mut buf = vec![0u8; 12];
    assert_eq!(vesc::encode(&command, &mut buf), Ok(12));
}
