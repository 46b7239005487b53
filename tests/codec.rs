use vmm_serde::records::{KvmMemoryAlias, KvmMsrs};
use vmm_serde::{deserialize_ffi, deserialize_ffi_fam, serialize_ffi, ByteBuf, SizeofFamStruct};

fn alias() -> KvmMemoryAlias {
    KvmMemoryAlias {
        slot: 0x0403_0201,
        flags: 7,
        guest_phys_addr: 0x1122_3344_5566_7788,
        memory_size: 0x1000,
        target_phys_addr: u64::MAX,
    }
}

fn bytes(n: usize) -> ByteBuf {
    ByteBuf::from(vec![0u8; n])
}

#[test]
fn memory_alias_encodes_little_endian() {
    let out = serialize_ffi(&[alias()]).into_vec();
    let mut expected = vec![1u8, 2, 3, 4, 7, 0, 0, 0];
    expected.extend_from_slice(&[0x88, 0x77, 0x66, 0x55, 0x44, 0x33, 0x22, 0x11]);
    expected.extend_from_slice(&[0, 0x10, 0, 0, 0, 0, 0, 0]);
    expected.extend_from_slice(&[0xff; 8]);
    assert_eq!(out, expected);
}

#[test]
fn fixed_round_trip() {
    let x = alias();
    let decoded: KvmMemoryAlias = deserialize_ffi(serialize_ffi(&[x])).unwrap();
    assert_eq!(decoded, x);
}

#[test]
fn fixed_decode_reads_fields() {
    let mut raw = vec![0u8; 32];
    raw[0] = 9;
    raw[8] = 1;
    raw[15] = 0x80;
    let decoded: KvmMemoryAlias = deserialize_ffi(ByteBuf::from(raw)).unwrap();
    assert_eq!(decoded.slot, 9);
    assert_eq!(decoded.guest_phys_addr, 0x8000_0000_0000_0001);
}

#[test]
fn fixed_decode_rejects_one_byte_short_or_long() {
    assert_eq!(deserialize_ffi::<KvmMemoryAlias>(bytes(31)).unwrap_err(), (32, 31));
    assert_eq!(deserialize_ffi::<KvmMemoryAlias>(bytes(33)).unwrap_err(), (32, 33));
    assert_eq!(deserialize_ffi::<KvmMemoryAlias>(bytes(0)).unwrap_err(), (32, 0));
}

#[test]
fn msrs_size_formula() {
    assert_eq!(KvmMsrs { nmsrs: 0, pad: 5 }.size_of(), 8);
    assert_eq!(KvmMsrs { nmsrs: 2, pad: 0 }.size_of(), 24);
    assert_eq!(KvmMsrs { nmsrs: u32::MAX, pad: 0 }.size_of(), 8 + 8 * (u32::MAX as usize));
    assert_eq!(alias().size_of(), 32);
    assert_eq!(KvmMsrs::struct_size(), 8);
    assert_eq!(KvmMemoryAlias::struct_size(), 32);
}

#[test]
fn fam_scenario_count_two() {
    let record = [
        KvmMsrs { nmsrs: 2, pad: 0 },
        KvmMsrs { nmsrs: 0xaa, pad: 0xbb },
        KvmMsrs { nmsrs: 0xcc, pad: 0xdd },
        KvmMsrs { nmsrs: 0xee, pad: 0xff },
    ];
    let encoded = serialize_ffi(&record).into_vec();
    assert_eq!(encoded.len(), 24);
    assert_eq!(&encoded[..8], &[2, 0, 0, 0, 0, 0, 0, 0]);
    assert_eq!(&encoded[8..12], &[0xaa, 0, 0, 0]);

    let decoded = deserialize_ffi_fam::<KvmMsrs>(ByteBuf::from(encoded.clone())).unwrap();
    assert_eq!(decoded.len(), 3);
    assert_eq!(decoded[0], KvmMsrs { nmsrs: 2, pad: 0 });
    assert_eq!(decoded[1], KvmMsrs { nmsrs: 0xaa, pad: 0xbb });
    assert_eq!(decoded[2], KvmMsrs { nmsrs: 0xcc, pad: 0xdd });
    assert_eq!(serialize_ffi(&decoded).into_vec(), encoded);

    let truncated = ByteBuf::from(encoded[..23].to_vec());
    assert_eq!(deserialize_ffi_fam::<KvmMsrs>(truncated).unwrap_err(), (24, 23));
}

#[test]
fn fam_decode_rejects_buffer_shorter_than_header() {
    let short = ByteBuf::from(vec![2u8, 0, 0, 0]);
    assert_eq!(deserialize_ffi_fam::<KvmMsrs>(short).unwrap_err(), (8, 4));
    assert_eq!(deserialize_ffi_fam::<KvmMsrs>(bytes(0)).unwrap_err(), (8, 0));
}

#[test]
fn fam_zero_count_matches_fixed_decode() {
    let x = KvmMsrs { nmsrs: 0, pad: 0x1234 };
    let encoded = serialize_ffi(&[x]).into_vec();
    assert_eq!(encoded, vec![0, 0, 0, 0, 0x34, 0x12, 0, 0]);
    let as_fam = deserialize_ffi_fam::<KvmMsrs>(ByteBuf::from(encoded.clone())).unwrap();
    let as_fixed: KvmMsrs = deserialize_ffi(ByteBuf::from(encoded.clone())).unwrap();
    assert_eq!(as_fam, vec![as_fixed]);
    assert_eq!(as_fixed, x);

    let mut longer = encoded;
    longer.push(0);
    assert_eq!(deserialize_ffi_fam::<KvmMsrs>(ByteBuf::from(longer)).unwrap_err(), (8, 9));
}

#[test]
fn fam_count_one_element_short() {
    // The header claims three entries; the buffer holds two.
    let mut raw = vec![0u8; 8 + 2 * 8];
    raw[0] = 3;
    assert_eq!(deserialize_ffi_fam::<KvmMsrs>(ByteBuf::from(raw)).unwrap_err(), (32, 24));

    // The header claims one entry; the buffer holds none.
    let raw = vec![1u8, 0, 0, 0, 0, 0, 0, 0];
    assert_eq!(deserialize_ffi_fam::<KvmMsrs>(ByteBuf::from(raw)).unwrap_err(), (16, 8));
}

#[test]
fn fam_decode_one_element_longer_than_declared() {
    let mut raw = vec![0u8; 8 + 3 * 8];
    raw[0] = 2;
    assert_eq!(deserialize_ffi_fam::<KvmMsrs>(ByteBuf::from(raw)).unwrap_err(), (24, 32));
}

#[test]
fn fam_huge_count_fails_closed() {
    let raw = vec![0xffu8, 0xff, 0xff, 0xff, 0, 0, 0, 0];
    let expected = 8 + 8 * (u32::MAX as usize);
    assert_eq!(deserialize_ffi_fam::<KvmMsrs>(ByteBuf::from(raw)).unwrap_err(), (expected, 8));
}

#[test]
fn serialize_copies_only_declared_bytes() {
    let record = [KvmMsrs { nmsrs: 1, pad: 9 }, KvmMsrs { nmsrs: 5, pad: 6 }, KvmMsrs { nmsrs: 7, pad: 8 }];
    let out = serialize_ffi(&record).into_vec();
    assert_eq!(out, vec![1, 0, 0, 0, 9, 0, 0, 0, 5, 0, 0, 0, 6, 0, 0, 0]);
}

#[test]
fn default_instances_declare_static_size() {
    assert_eq!(KvmMsrs::default().size_of(), KvmMsrs::struct_size());
    assert_eq!(KvmMemoryAlias::default().size_of(), KvmMemoryAlias::struct_size());
}
