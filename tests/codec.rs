use balance_wallet::codec::{AccountData, AccountInfo, DecodeError};

fn record_bytes(counters: [u32; 4], balances: [u128; 4]) -> Vec<u8> {
    let mut out = Vec::new();
    for c in counters {
        out.extend_from_slice(&c.to_le_bytes());
    }
    for b in balances {
        out.extend_from_slice(&b.to_le_bytes());
    }
    out
}

#[test]
fn decodes_free_balance_of_record() {
    let bytes = record_bytes([1, 0, 0, 0], [2_000_000_000_000, 0, 0, 0]);
    assert_eq!(bytes.len(), 80);
    let info = AccountInfo::decode(&bytes).unwrap();
    assert_eq!(info.nonce, 1);
    assert_eq!(info.consumers, 0);
    assert_eq!(info.providers, 0);
    assert_eq!(info.sufficients, 0);
    assert_eq!(info.data.free, 2_000_000_000_000);
    assert_eq!(info.data.reserved, 0);
    assert_eq!(info.data.frozen, 0);
    assert_eq!(info.data.flags, 0);
}

#[test]
fn decodes_every_field_in_order() {
    let bytes = record_bytes(
        [7, 0x0102_0304, u32::MAX, 9],
        [u128::MAX, 1, 0x0102_0304_0506_0708_090a_0b0c_0d0e_0f10, 256],
    );
    let info = AccountInfo::decode(&bytes).unwrap();
    assert_eq!(info.nonce, 7);
    assert_eq!(info.consumers, 0x0102_0304);
    assert_eq!(info.providers, u32::MAX);
    assert_eq!(info.sufficients, 9);
    assert_eq!(info.data.free, u128::MAX);
    assert_eq!(info.data.reserved, 1);
    assert_eq!(info.data.frozen, 0x0102_0304_0506_0708_090a_0b0c_0d0e_0f10);
    assert_eq!(info.data.flags, 256);
}

#[test]
fn decode_then_encode_gives_the_bytes_back() {
    let bytes: Vec<u8> = (0..80u32).map(|i| (i * 37 + 11) as u8).collect();
    let info = AccountInfo::decode(&bytes).unwrap();
    assert_eq!(info.encode(), bytes);
}

#[test]
fn encode_then_decode_gives_the_record_back() {
    let info = AccountInfo {
        nonce: 3,
        consumers: 4,
        providers: 5,
        sufficients: 6,
        data: AccountData { free: 10, reserved: 20, frozen: 30, flags: 1 << 127 },
    };
    let bytes = info.encode();
    assert_eq!(bytes.len(), 80);
    assert_eq!(AccountInfo::decode(&bytes), Ok(info));
}

#[test]
fn short_input_is_a_decode_error() {
    for len in 0..80usize {
        let bytes = vec![0xffu8; len];
        assert_eq!(AccountInfo::decode(&bytes), Err(DecodeError));
    }
}

#[test]
fn trailing_bytes_are_left_unread() {
    let mut bytes = record_bytes([1, 2, 3, 4], [5, 6, 7, 8]);
    let exact = AccountInfo::decode(&bytes).unwrap();
    bytes.extend_from_slice(&[0xaa; 100]);
    assert_eq!(AccountInfo::decode(&bytes), Ok(exact));
}
