use vesc::{self, Command, Error, ValuesMask};

#[test]
fn encode_get_values() {
    let mut buf = vec![0u8; 16];

    let size = vesc::encode(&Command::GetValues, &mut buf).unwrap();
    assert_eq!(&buf[..size], &[2, 1, 4, 64, 132, 3]);
}

#[test]
fn encode_set_current() {
    let mut buf = vec![0u8; 16];

    let size = vesc::encode(&Command::SetCurrent(0), &mut buf).unwrap();
    assert_eq!(&buf[..size], &[2, 5, 6, 0, 0, 0, 0, 205, 133, 3]);

    let size = vesc::encode(&Command::SetCurrent(1000), &mut buf).unwrap();
    assert_eq!(&buf[..size], &[2, 5, 6, 0, 0, 3, 232, 228, 240, 3]);

    let size = vesc::encode(&Command::SetCurrent(57123), &mut buf).unwrap();
    assert_eq!(&buf[..size], &[2, 5, 6, 0, 0, 223, 35, 220, 157, 3]);

    let size = vesc::encode(&Command::SetCurrent(-1000), &mut buf).unwrap();
    assert_eq!(&buf[..size], &[2, 5, 6, 255, 255, 252, 24, 140, 208, 3]);

    let size = vesc::encode(&Command::SetCurrent(-57123), &mut buf).unwrap();
    assert_eq!(&buf[..size], &[2, 5, 6, 255, 255, 32, 221, 85, 115, 3]);
}

#[test]
fn encode_set_rpm() {
    let mut buf = vec![0u8; 16];

    let size = vesc::encode(&Command::SetRpm(0), &mut buf).unwrap();
    assert_eq!(&buf[..size], &[2, 5, 8, 0, 0, 0, 0, 2, 45, 3]);

    let size = vesc::encode(&Command::SetRpm(1), &mut buf).unwrap();
    assert_eq!(&buf[..size], &[2, 5, 8, 0, 0, 0, 1, 18, 12, 3]);

    let size = vesc::encode(&Command::SetRpm(1234), &mut buf).unwrap();
    assert_eq!(&buf[..size], &[2, 5, 8, 0, 0, 4, 210, 37, 214, 3]);

    let size = vesc::encode(&Command::SetRpm(-1), &mut buf).unwrap();
    assert_eq!(&buf[..size], &[2, 5, 8, 255, 255, 255, 255, 155, 226, 3]);

    let size = vesc::encode(&Command::SetRpm(-1234), &mut buf).unwrap();
    assert_eq!(&buf[..size], &[2, 5, 8, 255, 255, 251, 46, 140, 122, 3]);
}

#[test]
fn encode_forward_can() {
    let mut buf = vec![0u8; 16];

    let command = Command::ForwardCan(1, Box::new(Command::SetRpm(1234)));
    let size = vesc::encode(&command, &mut buf).unwrap();
    assert_eq!(&buf[..size], &[2, 7, 34, 1, 8, 0, 0, 4, 210, 110, 99, 3]);

    let command = Command::ForwardCan(7, Box::new(Command::SetCurrent(57123)));
    let size = vesc::encode(&command, &mut buf).unwrap();
    assert_eq!(&buf[..size], &[2, 7, 34, 7, 6, 0, 0, 223, 35, 26, 201, 3]);
}

#[test]
fn encode_get_values_selective() {
    let mut buf = vec![0u8; 16];

    let mask = ValuesMask::from_bits_retain(ValuesMask::TEMP_MOSFET);
    let size = vesc::encode(&Command::GetValuesSelective(mask), &mut buf).unwrap();
    assert_eq!(&buf[..size], &[2, 5, 50, 0, 0, 0, 1, 88, 76, 3]);

    let mask = ValuesMask::from_bits_retain(ValuesMask::VOLTAGE_IN);
    let size = vesc::encode(&Command::GetValuesSelective(mask), &mut buf).unwrap();
    assert_eq!(&buf[..size], &[2, 5, 50, 0, 0, 1, 0, 123, 92, 3]);

    let mask = ValuesMask::from_bits_retain(ValuesMask::TEMP_MOSFET | ValuesMask::VOLTAGE_IN);
    let size = vesc::encode(&Command::GetValuesSelective(mask), &mut buf).unwrap();
    assert_eq!(&buf[..size], &[2, 5, 50, 0, 0, 1, 1, 107, 125, 3]);

    let mask = ValuesMask::from_bits_retain(
        ValuesMask::RPM | ValuesMask::WATT_HOURS | ValuesMask::CONTROLLER_ID,
    );
    let size = vesc::encode(&Command::GetValuesSelective(mask), &mut buf).unwrap();
    assert_eq!(&buf[..size], &[2, 5, 50, 0, 2, 8, 128, 62, 44, 3]);
}

#[test]
fn encode_buf_perfect_fit() {
    let mut buf = vec![0u8; 10];

    let size = vesc::encode(&Command::SetRpm(0), &mut buf).unwrap();
    assert_eq!(size, buf.len());
    assert_eq!(&buf[..size], &[2, 5, 8, 0, 0, 0, 0, 2, 45, 3]);
}

#[test]
fn encode_buffer_too_small() {
    for n in 0..10 {
        let mut buf = vec![0u8; n];
        let result = vesc::encode(&Command::SetRpm(0), &mut buf);
        assert_eq!(result, Err(Error::BufferTooSmall));
    }
}

#[test]
fn mask_operations() {
    let a = ValuesMask::from_bits_retain(ValuesMask::RPM);
    let b = ValuesMask::from_bits_retain(ValuesMask::VOLTAGE_IN);
    let both = a.union(b);
    assert_eq!(both.bits(), ValuesMask::RPM | ValuesMask::VOLTAGE_IN);
    assert!(both.contains(a));
    assert!(both.contains(b));
    assert!(!a.contains(b));
    assert_eq!(ValuesMask::empty().bits(), 0);
    let unknown = ValuesMask::from_bits_retain(0x8000_0000);
    assert_eq!(unknown.bits(), 0x8000_0000);
}
