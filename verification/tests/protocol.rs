use bytes::BytesMut;
use l2companion::companion_protocol::crypto::L2Cryptor as WordCryptor;
use l2companion::sniffer_protocol::codec::{FrameError, L2FrameCodec};
use l2companion::sniffer_protocol::crypto::L2Cryptor;
use l2companion::sniffer_protocol::items::item_type_to_name;
use l2companion::sniffer_protocol::packet::{read_ascii_string, read_l2_string, L2Packet, WarehouseType};
use l2companion::text::ReadError;
use l2companion::wire::WireReader;

#[test]
fn crypto_test_cryptor_init_and_decrypt() {
    let mut cryptor = L2Cryptor::new();
    let key_seed = [0x34, 0x67, 0xc4, 0x56, 0xe8, 0x76, 0x22, 0xd9];
    cryptor.set_key(&key_seed);

    let mut data = vec![
        0xca, 0xa0, 0x67, 0x31, 0xd8, 0xba, 0x98, 0x41, 0x89, 0xae, 0xc3, 0x3d, 0x63, 0xf0,
    ];
    cryptor.decrypt(&mut data).unwrap();
    assert_eq!(data[0], 0xfe);
}

#[test]
fn test_cryptor_init_and_decrypt() {
    let mut cryptor = WordCryptor::new();
    assert!(!cryptor.is_initialized());

    let key = [0x12, 0x34, 0x56, 0x78, 0x9a, 0xbc, 0xde, 0xf0, 0x11, 0x22, 0x33, 0x44, 0x55, 0x66, 0x77, 0x88];
    cryptor.set_key(&key);
    assert!(cryptor.is_initialized());

    let mut data = [0x01, 0x02, 0x03, 0x04, 0x05, 0x06, 0x07, 0x08];
    let before = data;
    cryptor.decrypt(&mut data).unwrap();
    assert_ne!(data, before);
}

#[test]
fn test_codec_frame_extraction() {
    let mut codec = L2FrameCodec::default();
    let mut buffer = BytesMut::new();

    buffer.extend_from_slice(&[0x06, 0x00, 0x04, 0x01, 0x02, 0x03]);

    let frame = codec.decode(&mut buffer).unwrap();
    assert!(frame.is_some());
    assert_eq!(frame.unwrap(), vec![0x04, 0x01, 0x02, 0x03]);
    assert!(buffer.is_empty());
}

#[test]
fn test_parse_skill_list() {
    let mut data = Vec::new();
    data.extend_from_slice(&(1u32).to_le_bytes());
    data.extend_from_slice(&(0u32).to_le_bytes());
    data.extend_from_slice(&(15u32).to_le_bytes());
    data.extend_from_slice(&(1069u32).to_le_bytes());
    data.push(0);
    data.extend_from_slice(&(0u32).to_le_bytes());

    let packet = L2Packet::parse(0x58, &data);
    match packet {
        L2Packet::SkillList(sl) => {
            assert_eq!(sl.skills.len(), 1);
            assert_eq!(sl.skills[0].skill_id, 1069);
            assert_eq!(sl.skills[0].level, 15);
            assert!(!sl.skills[0].is_passive);
        }
        _ => panic!("Expected SkillList packet"),
    }
}

#[test]
fn test_parse_abnormal_status_update() {
    let mut data = Vec::new();
    data.extend_from_slice(&(1u16).to_le_bytes());
    data.extend_from_slice(&(1068u32).to_le_bytes());
    data.extend_from_slice(&(3u16).to_le_bytes());
    data.extend_from_slice(&(0u32).to_le_bytes());
    data.extend_from_slice(&(0u32).to_le_bytes());
    data.extend_from_slice(&(1200u32).to_le_bytes());

    let packet = L2Packet::parse(0x85, &data);
    match packet {
        L2Packet::AbnormalStatusUpdate(ab) => {
            assert_eq!(ab.buffs.len(), 1);
            assert_eq!(ab.buffs[0].skill_id, 1068);
            assert_eq!(ab.buffs[0].level, 3);
            assert_eq!(ab.buffs[0].duration_secs, 1200);
        }
        _ => panic!("Expected AbnormalStatusUpdate packet"),
    }
}

#[test]
fn test_parse_warehouse_list() {
    let mut data = Vec::new();
    data.extend_from_slice(&(1u16).to_le_bytes());
    data.extend_from_slice(&(1u16).to_le_bytes());
    data.extend_from_slice(&(0u16).to_le_bytes());
    data.extend_from_slice(&(1001u32).to_le_bytes());
    data.extend_from_slice(&(57u32).to_le_bytes());
    data.extend_from_slice(&(0u32).to_le_bytes());
    data.extend_from_slice(&(50000u64).to_le_bytes());

    let packet = L2Packet::parse(0x41, &data);
    match packet {
        L2Packet::WarehouseList(wh) => {
            assert_eq!(wh.wh_type, WarehouseType::Private);
            assert_eq!(wh.items.len(), 1);
            assert_eq!(wh.items[0].item_id, 57);
            assert_eq!(wh.items[0].count, 50000);
        }
        _ => panic!("Expected WarehouseList packet"),
    }
}

#[test]
fn test_parse_auth_login_standard() {
    let mut data = Vec::new();
    for ch in "my_account".encode_utf16() {
        data.extend_from_slice(&ch.to_le_bytes());
    }
    data.extend_from_slice(&(0u16).to_le_bytes());
    data.extend_from_slice(&(12345u32).to_le_bytes());
    data.extend_from_slice(&(67890u32).to_le_bytes());

    let packet = L2Packet::parse_client(0x2b, &data);
    match packet {
        L2Packet::AuthLogin(auth) => {
            assert_eq!(auth.account_name, "my_account");
            assert_eq!(auth.session_key1, 12345);
            assert_eq!(auth.session_key2, 67890);
        }
        _ => panic!("Expected AuthLogin packet"),
    }
}

#[test]
fn test_parse_auth_login_retail() {
    let mut data = Vec::new();
    data.extend_from_slice(&(99999u32).to_le_bytes());
    data.extend_from_slice(&(10u16).to_le_bytes());
    data.extend_from_slice(b"retail_acc\0");
    data.extend_from_slice(&(88888u32).to_le_bytes());

    let packet = L2Packet::parse_client(0x08, &data);
    match packet {
        L2Packet::AuthLogin(auth) => {
            assert_eq!(auth.account_name, "retail_acc");
            assert_eq!(auth.session_key1, 99999);
            assert_eq!(auth.session_key2, 88888);
        }
        _ => panic!("Expected AuthLogin packet"),
    }
}

#[test]
fn test_parse_item_list_modern() {
    let mut data = Vec::new();
    data.push(1);
    data.push(0);
    data.extend_from_slice(&(2u16).to_le_bytes());

    let mut item1 = vec![0u8; 64];
    item1[0..4].copy_from_slice(&(268435456u32).to_le_bytes());
    item1[4..8].copy_from_slice(&(57u32).to_le_bytes());
    item1[8..12].copy_from_slice(&(0u32).to_le_bytes());
    item1[12..20].copy_from_slice(&(15000000u64).to_le_bytes());
    data.extend_from_slice(&item1);

    let mut item2 = vec![0u8; 64];
    item2[0..4].copy_from_slice(&(268435457u32).to_le_bytes());
    item2[4..8].copy_from_slice(&(72u32).to_le_bytes());
    item2[8..12].copy_from_slice(&(128u32).to_le_bytes());
    item2[12..20].copy_from_slice(&(1u64).to_le_bytes());
    item2[24..26].copy_from_slice(&(1u16).to_le_bytes());
    item2[30..32].copy_from_slice(&(4u16).to_le_bytes());
    data.extend_from_slice(&item2);

    let packet = L2Packet::parse(0x11, &data);
    match packet {
        L2Packet::ItemList(il) => {
            assert_eq!(il.items.len(), 2);
            assert_eq!(il.items[0].object_id, 268435456);
            assert_eq!(il.items[0].item_id, 57);
            assert_eq!(il.items[0].count, 15000000);
            assert!(!il.items[0].equipped);

            assert_eq!(il.items[1].object_id, 268435457);
            assert_eq!(il.items[1].item_id, 72);
            assert_eq!(il.items[1].count, 1);
            assert_eq!(il.items[1].enchant_level, 4);
            assert!(il.items[1].equipped);
        }
        _ => panic!("Expected ItemList packet"),
    }
}

/// Encrypts the way the game server does, byte by byte.
fn encrypt_bytes(plain: &[u8], key: &[u8; 16]) -> Vec<u8> {
    let mut out = Vec::new();
    let mut prev = 0u8;
    for (i, p) in plain.iter().enumerate() {
        let c = p ^ key[i % 16] ^ prev;
        out.push(c);
        prev = c;
    }
    out
}

#[test]
fn byte_cryptor_undoes_server_encryption() {
    let seed = [0x34u8, 0x67, 0xc4, 0x56, 0xe8, 0x76, 0x22, 0xd9];
    let key: [u8; 16] = [
        0x34, 0x67, 0xc4, 0x56, 0xe8, 0x76, 0x22, 0xd9, 0xc8, 0x27, 0x93, 0x01, 0xa1, 0x6c, 0x31, 0x97,
    ];
    let plain: Vec<u8> = (0u8..40).map(|b| b.wrapping_mul(7).wrapping_add(3)).collect();
    let mut data = encrypt_bytes(&plain, &key);
    let mut cryptor = L2Cryptor::new();
    cryptor.set_key(&seed);
    cryptor.decrypt(&mut data).unwrap();
    assert_eq!(data, plain);
}

#[test]
fn byte_cryptor_installs_sixteen_byte_seed_whole() {
    let key: [u8; 16] = [
        0x10, 0x32, 0x54, 0x76, 0x98, 0xba, 0xdc, 0xfe, 0x01, 0x23, 0x45, 0x67, 0x89, 0xab, 0xcd, 0xef,
    ];
    let plain: Vec<u8> = (0u8..20).map(|b| b.wrapping_mul(13).wrapping_add(1)).collect();
    let mut data = encrypt_bytes(&plain, &key);
    let mut cryptor = L2Cryptor::new();
    cryptor.set_key(&key);
    assert!(cryptor.is_initialized());
    cryptor.decrypt(&mut data).unwrap();
    assert_eq!(data, plain);
}

#[test]
fn byte_cryptor_twelve_byte_seed_keeps_first_eight() {
    let seed = [1u8, 2, 3, 4, 5, 6, 7, 8, 9, 10, 11, 12];
    let key: [u8; 16] = [1, 2, 3, 4, 5, 6, 7, 8, 0xc8, 0x27, 0x93, 0x01, 0xa1, 0x6c, 0x31, 0x97];
    let plain: Vec<u8> = vec![4, 8, 15, 16, 23, 42];
    let mut data = encrypt_bytes(&plain, &key);
    let mut cryptor = L2Cryptor::new();
    cryptor.set_key(&seed);
    cryptor.decrypt(&mut data).unwrap();
    assert_eq!(data, plain);
}

#[test]
fn byte_cryptor_advances_counter_between_payloads() {
    let seed = [1u8, 2, 3, 4, 5, 6, 7, 8];
    let mut key: [u8; 16] = [1, 2, 3, 4, 5, 6, 7, 8, 0xc8, 0x27, 0x93, 0x01, 0xa1, 0x6c, 0x31, 0x97];
    let first: Vec<u8> = vec![10, 20, 30, 40, 50];
    let second: Vec<u8> = vec![60, 70, 80];
    let mut cryptor = L2Cryptor::new();
    cryptor.set_key(&seed);

    let mut a = encrypt_bytes(&first, &key);
    cryptor.decrypt(&mut a).unwrap();
    assert_eq!(a, first);

    let counter = u32::from_le_bytes([key[8], key[9], key[10], key[11]]).wrapping_add(5);
    key[8..12].copy_from_slice(&counter.to_le_bytes());
    let mut b = encrypt_bytes(&second, &key);
    cryptor.decrypt(&mut b).unwrap();
    assert_eq!(b, second);
}

#[test]
fn byte_cryptor_without_key_leaves_data() {
    let mut cryptor = L2Cryptor::new();
    assert!(!cryptor.is_initialized());
    let mut data = vec![1u8, 2, 3];
    cryptor.decrypt(&mut data).unwrap();
    assert_eq!(data, vec![1, 2, 3]);
}

#[test]
fn byte_cryptor_short_seed_is_ignored() {
    let mut cryptor = L2Cryptor::new();
    cryptor.set_key(&[1, 2, 3]);
    assert!(!cryptor.is_initialized());
}

#[test]
fn word_cryptor_keeps_trailing_bytes() {
    let key = [0x11u8; 16];
    let mut cryptor = WordCryptor::new();
    cryptor.set_key(&key);
    let mut data = [0x11u8, 0x11, 0x11, 0x11, 0xaa, 0xbb];
    cryptor.decrypt(&mut data).unwrap();
    assert_eq!(data, [0, 0, 0, 0, 0xaa, 0xbb]);
}

#[test]
fn word_cryptor_undoes_server_encryption() {
    let key: [u8; 16] = [3, 1, 4, 1, 5, 9, 2, 6, 5, 3, 5, 8, 9, 7, 9, 3];
    let plain: [u8; 10] = [10, 20, 30, 40, 50, 60, 70, 80, 90, 100];
    let mut cipher = plain;
    let mut prev = 0u32;
    for w in 0..2 {
        let p = u32::from_le_bytes([plain[4 * w], plain[4 * w + 1], plain[4 * w + 2], plain[4 * w + 3]]);
        let k = u32::from_le_bytes([key[(4 * w) % 16], key[(4 * w + 1) % 16], key[(4 * w + 2) % 16], key[(4 * w + 3) % 16]]);
        let c = p ^ k ^ prev;
        cipher[4 * w..4 * w + 4].copy_from_slice(&c.to_le_bytes());
        prev = c;
    }
    let mut cryptor = WordCryptor::new();
    cryptor.set_key(&key);
    cryptor.decrypt(&mut cipher).unwrap();
    assert_eq!(cipher, plain);
}

#[test]
fn blowfish_block_refuses_short_key() {
    let cryptor = L2Cryptor::new();
    let mut block = [1u8, 2, 3, 4, 5, 6, 7, 8];
    let r = cryptor.decrypt_blowfish_block(&mut block, &[1, 2, 3]);
    assert_eq!(r, Err("Failed to create Blowfish cipher: Invalid Length".to_string()));
    assert_eq!(block, [1, 2, 3, 4, 5, 6, 7, 8]);
}

#[test]
fn blowfish_block_changes_block_under_valid_key() {
    let cryptor = L2Cryptor::new();
    let mut block = [1u8, 2, 3, 4, 5, 6, 7, 8];
    let r = cryptor.decrypt_blowfish_block(&mut block, b"sixteen byte key");
    assert!(r.is_ok());
    assert_ne!(block, [1, 2, 3, 4, 5, 6, 7, 8]);
}

#[test]
fn codec_waits_for_partial_frame() {
    let mut codec = L2FrameCodec::default();
    let mut buffer = BytesMut::new();
    buffer.extend_from_slice(&[0x06, 0x00, 0x04, 0x01]);
    assert_eq!(codec.decode(&mut buffer).unwrap(), None);
    assert_eq!(buffer.len(), 4);
    buffer.extend_from_slice(&[0x02, 0x03, 0x03, 0x00, 0x09]);
    assert_eq!(codec.decode(&mut buffer).unwrap(), Some(vec![0x04, 0x01, 0x02, 0x03]));
    assert_eq!(codec.decode(&mut buffer).unwrap(), Some(vec![0x09]));
    assert!(buffer.is_empty());
}

#[test]
fn codec_refuses_bad_lengths() {
    let mut codec = L2FrameCodec::default();
    let mut buffer = BytesMut::new();
    buffer.extend_from_slice(&[0x01, 0x00, 0x00]);
    assert_eq!(codec.decode(&mut buffer), Err(FrameError::TooSmall(1)));
    assert_eq!(buffer.len(), 3);

    let mut small = L2FrameCodec::new(10);
    let mut buffer = BytesMut::new();
    buffer.extend_from_slice(&[0x0b, 0x00]);
    assert_eq!(small.decode(&mut buffer), Err(FrameError::TooLarge { actual: 11, max: 10 }));
}

#[test]
fn item_type_names() {
    assert_eq!(item_type_to_name(0), "Weapon");
    assert_eq!(item_type_to_name(1), "Armor");
    assert_eq!(item_type_to_name(5), "EtcItem");
    assert_eq!(item_type_to_name(99), "Item");
}

#[test]
fn l2_string_reads_to_terminator() {
    let mut data = Vec::new();
    for ch in "Hero".encode_utf16() {
        data.extend_from_slice(&ch.to_le_bytes());
    }
    data.extend_from_slice(&[0, 0, 7, 7]);
    let mut r = WireReader::new(&data);
    assert_eq!(read_l2_string(&mut r), Ok("Hero".to_string()));
    assert_eq!(r.pos, 10);

    let empty: [u8; 0] = [];
    let mut r = WireReader::new(&empty);
    assert_eq!(read_l2_string(&mut r), Err(ReadError::UnexpectedEof));
}

#[test]
fn l2_string_reads_back_what_was_written() {
    let texts = ["Hero", "Ωmega \u{1D11E} 龍", ""];
    let mut data = vec![9u8, 9];
    let mut ends = Vec::new();
    for t in texts.iter() {
        for ch in t.encode_utf16() {
            data.extend_from_slice(&ch.to_le_bytes());
        }
        data.extend_from_slice(&[0, 0]);
        ends.push(data.len());
    }
    data.extend_from_slice(&[5, 5, 5]);
    let mut r = WireReader::at(&data, 2);
    for (t, end) in texts.iter().zip(ends.iter()) {
        assert_eq!(read_l2_string(&mut r), Ok(t.to_string()));
        assert_eq!(r.pos, *end);
    }
}

#[test]
fn ascii_string_reads_to_terminator() {
    let data = b"abc\0def";
    let mut r = WireReader::new(data);
    assert_eq!(read_ascii_string(&mut r), Ok("abc".to_string()));
    assert_eq!(r.pos, 4);
    assert_eq!(read_ascii_string(&mut r), Ok("def".to_string()));
    let bad = [0xffu8, 0];
    let mut r = WireReader::new(&bad);
    assert_eq!(read_ascii_string(&mut r), Err(ReadError::InvalidData));
}

fn char_selected_payload(name: &str) -> Vec<u8> {
    let mut data = Vec::new();
    for ch in name.encode_utf16() {
        data.extend_from_slice(&ch.to_le_bytes());
    }
    data.extend_from_slice(&[0, 0]);
    let mut rest = vec![0u8; 82];
    rest[0..4].copy_from_slice(&5u32.to_le_bytes());
    rest[26..30].copy_from_slice(&88u32.to_le_bytes());
    rest[46..54].copy_from_slice(&1234.0f64.to_bits().to_le_bytes());
    rest[78..82].copy_from_slice(&10u32.to_le_bytes());
    data.extend_from_slice(&rest);
    data
}

#[test]
fn selected_character_names_allow_unicode_letters() {
    match L2Packet::parse(0x0b, &char_selected_payload("Hé")) {
        L2Packet::UserInfo(u) => {
            assert_eq!(u.name, "Hé");
            assert_eq!(u.object_id, 5);
            assert_eq!(u.class_id, 88);
            assert_eq!(u.level, 10);
            assert_eq!(u.cur_hp, 1234);
        }
        other => panic!("unexpected {:?}", other),
    }
    let bad = char_selected_payload("H!");
    assert_eq!(L2Packet::parse(0x0b, &bad), L2Packet::Raw { opcode: 0x0b, payload: bad.clone() });
}
