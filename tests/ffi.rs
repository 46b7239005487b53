use vmm_serde::records::{KvmMemoryAlias, KvmMsrs};
use vmm_serde::{deserialize_ffi, deserialize_ffi_fam, serialize_ffi, ByteBuf, SizeofFamStruct};

#[allow(dead_code)]
#[test]
fn ffi_test_serde() {
    #[derive(Default, Clone)]
    pub struct FfiStruct1 {
        f1: u32,
    }

    let s = FfiStruct1::default();
    assert_eq!(s.clone().f1, 0);
}

#[test]
fn ffi_test_ffi_struct() {
    let mem_slot = KvmMemoryAlias {
        slot: 1,
        flags: 2,
        guest_phys_addr: 3,
        memory_size: 4,
        target_phys_addr: 5,
    };

    let serialized = serde_json::to_string(&serialize_ffi(&[mem_slot])).unwrap();
    let buf: ByteBuf = serde_json::from_str(&serialized).unwrap();
    let decoded: KvmMemoryAlias = deserialize_ffi(buf).unwrap();
    assert_eq!(decoded.slot, 1);
    assert_eq!(decoded.flags, 2);
    assert_eq!(decoded.guest_phys_addr, 3);
    assert_eq!(decoded.memory_size, 4);
    assert_eq!(decoded.target_phys_addr, 5);
}

#[test]
fn ffi_test_ffi_fam_struct() {
    let data = vec![
        KvmMsrs { nmsrs: 1, pad: 0 },
        KvmMsrs {
            nmsrs: 0x1,
            pad: 0x2,
        },
    ];
    let ser = serde_json::to_string(&serialize_ffi(&data)).unwrap();
    let buf: ByteBuf = serde_json::from_str(&ser).unwrap();
    let content: Vec<KvmMsrs> = deserialize_ffi_fam(buf).unwrap();

    assert_eq!(content[0].nmsrs, 1);
    assert_eq!(content[0].pad, 0);
}
