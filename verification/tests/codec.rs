use escrow::error::UnpackError;
use escrow::state::Escrow;

fn sample() -> Escrow {
    Escrow {
        is_initialized: true,
        initializer_pubkey: [0x01; 32],
        temp_token_account_pubkey: [0x02; 32],
        initializer_token_to_receive_account_pubkey: [0x03; 32],
        expected_amount: 1000,
    }
}

fn counting_key(start: u8) -> [u8; 32] {
    let mut key = [0u8; 32];
    for (i, byte) in key.iter_mut().enumerate() {
        *byte = start.wrapping_add(i as u8);
    }
    key
}

fn packed(escrow: &Escrow) -> [u8; 105] {
    let mut buffer = [0xAAu8; 105];
    escrow.pack_into_slice(&mut buffer);
    buffer
}

#[test]
fn record_length_is_105() {
    assert_eq!(Escrow::LEN, 105);
}

#[test]
fn pack_lays_the_fields_out_at_their_offsets() {
    let buffer = packed(&sample());
    assert_eq!(buffer[0], 0x01);
    assert!(buffer[1..33].iter().all(|&b| b == 0x01));
    assert!(buffer[33..65].iter().all(|&b| b == 0x02));
    assert!(buffer[65..97].iter().all(|&b| b == 0x03));
    assert_eq!(
        buffer[97..105],
        [0xE8, 0x03, 0x00, 0x00, 0x00, 0x00, 0x00, 0x00]
    );
}

#[test]
fn unpack_reads_the_fields_at_their_offsets() {
    let mut buffer = [0u8; 105];
    buffer[0] = 0x01;
    buffer[1..33].fill(0x01);
    buffer[33..65].fill(0x02);
    buffer[65..97].fill(0x03);
    buffer[97..105].copy_from_slice(&[0xE8, 0x03, 0x00, 0x00, 0x00, 0x00, 0x00, 0x00]);
    assert_eq!(Escrow::unpack_from_slice(&buffer), Ok(sample()));
}

#[test]
fn unpack_after_pack_gives_the_record_back() {
    let records = [
        sample(),
        Escrow {
            is_initialized: false,
            initializer_pubkey: [0; 32],
            temp_token_account_pubkey: [0; 32],
            initializer_token_to_receive_account_pubkey: [0; 32],
            expected_amount: 0,
        },
        Escrow {
            is_initialized: true,
            initializer_pubkey: [0xFF; 32],
            temp_token_account_pubkey: [0xFF; 32],
            initializer_token_to_receive_account_pubkey: [0xFF; 32],
            expected_amount: u64::MAX,
        },
        Escrow {
            is_initialized: false,
            initializer_pubkey: counting_key(0),
            temp_token_account_pubkey: counting_key(100),
            initializer_token_to_receive_account_pubkey: counting_key(200),
            expected_amount: 0x0102_0304_0506_0708,
        },
    ];
    for record in records {
        let buffer = packed(&record);
        assert_eq!(Escrow::unpack_from_slice(&buffer), Ok(record));
    }
}

#[test]
fn pack_after_unpack_gives_the_bytes_back() {
    let mut buffer = [0u8; 105];
    for (i, byte) in buffer.iter_mut().enumerate() {
        *byte = (i as u8).wrapping_mul(7).wrapping_add(3);
    }
    buffer[0] = 1;
    let record = Escrow::unpack_from_slice(&buffer).unwrap();
    assert_eq!(packed(&record), buffer);
}

#[test]
fn identities_keep_their_byte_order() {
    let record = Escrow {
        is_initialized: true,
        initializer_pubkey: counting_key(10),
        temp_token_account_pubkey: counting_key(50),
        initializer_token_to_receive_account_pubkey: counting_key(90),
        expected_amount: 7,
    };
    let buffer = packed(&record);
    for i in 0..32 {
        assert_eq!(buffer[1 + i], 10 + i as u8);
        assert_eq!(buffer[33 + i], 50 + i as u8);
        assert_eq!(buffer[65 + i], 90 + i as u8);
    }
    let back = Escrow::unpack_from_slice(&buffer).unwrap();
    assert_eq!(back.initializer_pubkey, counting_key(10));
    assert_eq!(back.temp_token_account_pubkey, counting_key(50));
    assert_eq!(back.initializer_token_to_receive_account_pubkey, counting_key(90));
}

#[test]
fn amount_is_stored_least_significant_byte_first() {
    let cases: [(u64, [u8; 8]); 6] = [
        (0, [0, 0, 0, 0, 0, 0, 0, 0]),
        (1, [1, 0, 0, 0, 0, 0, 0, 0]),
        (256, [0, 1, 0, 0, 0, 0, 0, 0]),
        (0x0102_0304_0506_0708, [8, 7, 6, 5, 4, 3, 2, 1]),
        (1 << 63, [0, 0, 0, 0, 0, 0, 0, 0x80]),
        (u64::MAX, [0xFF; 8]),
    ];
    for (amount, bytes) in cases {
        let mut record = sample();
        record.expected_amount = amount;
        let buffer = packed(&record);
        assert_eq!(buffer[97..105], bytes);
        assert_eq!(buffer[97..105], amount.to_le_bytes());

        let mut source = [0u8; 105];
        source[97..105].copy_from_slice(&bytes);
        let back = Escrow::unpack_from_slice(&source).unwrap();
        assert_eq!(back.expected_amount, amount);
        assert_eq!(back.expected_amount, u64::from_le_bytes(bytes));
    }
}

#[test]
fn flag_byte_is_zero_or_one() {
    let mut record = sample();
    assert_eq!(packed(&record)[0], 1);
    record.is_initialized = false;
    assert_eq!(packed(&record)[0], 0);

    let mut buffer = [0u8; 105];
    assert!(!Escrow::unpack_from_slice(&buffer).unwrap().is_initialized);
    buffer[0] = 1;
    assert!(Escrow::unpack_from_slice(&buffer).unwrap().is_initialized);
}

#[test]
fn unpack_rejects_any_other_flag_byte() {
    let mut buffer = packed(&sample());
    for flag in 2..=255u8 {
        buffer[0] = flag;
        assert_eq!(
            Escrow::unpack_from_slice(&buffer),
            Err(UnpackError::InvalidAccountData)
        );
    }
}

#[test]
fn unpack_rejects_a_short_buffer() {
    let full = packed(&sample());
    for len in 0..105 {
        assert_eq!(
            Escrow::unpack_from_slice(&full[..len]),
            Err(UnpackError::BufferTooShort)
        );
    }
    assert!(Escrow::unpack_from_slice(&full[..105]).is_ok());
}

#[test]
fn short_buffer_is_reported_before_a_bad_flag() {
    let buffer = [7u8; 104];
    assert_eq!(
        Escrow::unpack_from_slice(&buffer),
        Err(UnpackError::BufferTooShort)
    );
    let buffer = [7u8; 105];
    assert_eq!(
        Escrow::unpack_from_slice(&buffer),
        Err(UnpackError::InvalidAccountData)
    );
}

#[test]
fn unpack_ignores_bytes_after_the_record() {
    let mut buffer = vec![0x5Au8; 200];
    sample().pack_into_slice(&mut buffer);
    assert_eq!(Escrow::unpack_from_slice(&buffer), Ok(sample()));
    for byte in buffer[105..].iter_mut() {
        *byte = 0xC3;
    }
    assert_eq!(Escrow::unpack_from_slice(&buffer), Ok(sample()));
}

#[test]
fn pack_leaves_bytes_after_the_record_alone() {
    let mut buffer = vec![0x5Au8; 130];
    sample().pack_into_slice(&mut buffer);
    assert_eq!(buffer.len(), 130);
    assert_eq!(buffer[..105], packed(&sample()));
    assert!(buffer[105..].iter().all(|&b| b == 0x5A));
}

#[test]
fn pack_does_not_depend_on_what_the_buffer_held() {
    let mut zeros = [0u8; 105];
    let mut ones = [0xFFu8; 105];
    sample().pack_into_slice(&mut zeros);
    sample().pack_into_slice(&mut ones);
    assert_eq!(zeros, ones);

    let copy = sample();
    assert_eq!(packed(&copy), packed(&sample()));
}

#[test]
fn different_records_pack_differently() {
    let base = sample();
    let mut flag = base;
    flag.is_initialized = false;
    let mut first = base;
    first.initializer_pubkey[31] ^= 1;
    let mut second = base;
    second.temp_token_account_pubkey[0] ^= 1;
    let mut third = base;
    third.initializer_token_to_receive_account_pubkey[15] ^= 1;
    let mut amount = base;
    amount.expected_amount += 1 << 56;
    for other in [flag, first, second, third, amount] {
        assert_ne!(other, base);
        assert_ne!(packed(&other), packed(&base));
    }
}

#[test]
fn is_initialized_reads_the_flag() {
    let mut record = sample();
    assert!(record.is_initialized());
    record.is_initialized = false;
    assert!(!record.is_initialized());
}
