//! Foreign structures of the KVM interface, laid out as on a little-endian
//! target.
use crate::layout::SizeofFamStruct;
use vstd::prelude::*;

verus! {

/// The value of four little-endian bytes.
pub open spec fn u32_of(b0: u8, b1: u8, b2: u8, b3: u8) -> u32 {
    (b0 as u32) | ((b1 as u32) << 8u32) | ((b2 as u32) << 16u32) | ((b3 as u32) << 24u32)
}

/// The four little-endian bytes of `v`.
pub open spec fn u32_le(v: u32) -> Seq<u8> {
    seq![
        (v & 0xff) as u8,
        ((v >> 8u32) & 0xff) as u8,
        ((v >> 16u32) & 0xff) as u8,
        ((v >> 24u32) & 0xff) as u8,
    ]
}

/// The eight little-endian bytes of `v`.
pub open spec fn u64_le(v: u64) -> Seq<u8> {
    seq![
        (v & 0xff) as u8,
        ((v >> 8u64) & 0xff) as u8,
        ((v >> 16u64) & 0xff) as u8,
        ((v >> 24u64) & 0xff) as u8,
        ((v >> 32u64) & 0xff) as u8,
        ((v >> 40u64) & 0xff) as u8,
        ((v >> 48u64) & 0xff) as u8,
        ((v >> 56u64) & 0xff) as u8,
    ]
}

/// A byte length, or `usize::MAX` where it does not fit.
pub open spec fn capped(len: nat) -> nat {
    if len > usize::MAX {
        usize::MAX as nat
    } else {
        len
    }
}

proof fn lemma_u32_round_trip(v: u32)
    ensures
        u32_of(u32_le(v)[0], u32_le(v)[1], u32_le(v)[2], u32_le(v)[3]) == v,
{
    let b0 = (v & 0xff) as u8;
    let b1 = ((v >> 8u32) & 0xff) as u8;
    let b2 = ((v >> 16u32) & 0xff) as u8;
    let b3 = ((v >> 24u32) & 0xff) as u8;
    assert(u32_of(b0, b1, b2, b3) == v) by (bit_vector)
        requires
            b0 == (v & 0xff) as u8,
            b1 == ((v >> 8u32) & 0xff) as u8,
            b2 == ((v >> 16u32) & 0xff) as u8,
            b3 == ((v >> 24u32) & 0xff) as u8,
    ;
}

/// Appends the little-endian bytes of `v`.
fn put_u32(out: &mut Vec<u8>, v: u32)
    ensures
        final(out)@ == old(out)@ + u32_le(v),
{
    out.push((v & 0xff) as u8);
    out.push(((v >> 8u32) & 0xff) as u8);
    out.push(((v >> 16u32) & 0xff) as u8);
    out.push(((v >> 24u32) & 0xff) as u8);
    assert(final(out)@ =~= old(out)@ + u32_le(v));
}

/// Appends the little-endian bytes of `v`.
fn put_u64(out: &mut Vec<u8>, v: u64)
    ensures
        final(out)@ == old(out)@ + u64_le(v),
{
    out.push((v & 0xff) as u8);
    out.push(((v >> 8u64) & 0xff) as u8);
    out.push(((v >> 16u64) & 0xff) as u8);
    out.push(((v >> 24u64) & 0xff) as u8);
    out.push(((v >> 32u64) & 0xff) as u8);
    out.push(((v >> 40u64) & 0xff) as u8);
    out.push(((v >> 48u64) & 0xff) as u8);
    out.push(((v >> 56u64) & 0xff) as u8);
    assert(final(out)@ =~= old(out)@ + u64_le(v));
}

/// The `u32` held little-endian in the four bytes at `at`.
fn get_u32(b: &[u8], at: usize) -> (r: u32)
    requires
        at + 4 <= b@.len(),
    ensures
        u32_le(r) == b@.subrange(at as int, at + 4),
        r == u32_of(b@[at as int], b@[at + 1], b@[at + 2], b@[at + 3]),
{
    let b0 = b[at];
    let b1 = b[at + 1];
    let b2 = b[at + 2];
    let b3 = b[at + 3];
    let r = (b0 as u32) | ((b1 as u32) << 8u32) | ((b2 as u32) << 16u32) | ((b3 as u32) << 24u32);
    assert(u32_le(r) =~= seq![b0, b1, b2, b3]) by {
        assert((r & 0xff) as u8 == b0 && ((r >> 8u32) & 0xff) as u8 == b1 && ((r >> 16u32) & 0xff)
            as u8 == b2 && ((r >> 24u32) & 0xff) as u8 == b3) by (bit_vector)
            requires
                r == (b0 as u32) | ((b1 as u32) << 8u32) | ((b2 as u32) << 16u32) | ((b3 as u32)
                    << 24u32),
        ;
    }
    assert(b@.subrange(at as int, at + 4) =~= seq![b0, b1, b2, b3]);
    r
}

/// The `u64` held little-endian in the eight bytes at `at`.
fn get_u64(b: &[u8], at: usize) -> (r: u64)
    requires
        at + 8 <= b@.len(),
    ensures
        u64_le(r) == b@.subrange(at as int, at + 8),
{
    let b0 = b[at] as u64;
    let b1 = b[at + 1] as u64;
    let b2 = b[at + 2] as u64;
    let b3 = b[at + 3] as u64;
    let b4 = b[at + 4] as u64;
    let b5 = b[at + 5] as u64;
    let b6 = b[at + 6] as u64;
    let b7 = b[at + 7] as u64;
    let r = b0 | (b1 << 8u64) | (b2 << 16u64) | (b3 << 24u64) | (b4 << 32u64) | (b5 << 40u64) | (b6
        << 48u64) | (b7 << 56u64);
    assert((r & 0xff) == b0 && ((r >> 8u64) & 0xff) == b1 && ((r >> 16u64) & 0xff) == b2 && ((r
        >> 24u64) & 0xff) == b3 && ((r >> 32u64) & 0xff) == b4 && ((r >> 40u64) & 0xff) == b5 && ((r
        >> 48u64) & 0xff) == b6 && ((r >> 56u64) & 0xff) == b7) by (bit_vector)
        requires
            b0 < 256 && b1 < 256 && b2 < 256 && b3 < 256 && b4 < 256 && b5 < 256 && b6 < 256 && b7
                < 256,
            r == b0 | (b1 << 8u64) | (b2 << 16u64) | (b3 << 24u64) | (b4 << 32u64) | (b5 << 40u64)
                | (b6 << 48u64) | (b7 << 56u64),
    ;
    assert(u64_le(r) =~= b@.subrange(at as int, at + 8));
    r
}

/// Byte length of the fixed portion of [`KvmMsrs`].
pub const MSRS_HEADER_SIZE: usize = 8;

/// Byte length of one entry of the trailing array of [`KvmMsrs`].
pub const MSR_ENTRY_SIZE: usize = 8;

/// Byte length of [`KvmMemoryAlias`].
pub const MEMORY_ALIAS_SIZE: usize = 32;

/// The header of a list of model-specific registers: `nmsrs` 64-bit entries
/// follow the two 32-bit words of the fixed portion.
#[derive(Debug, Default, Copy, Clone, PartialEq, Eq)]
pub struct KvmMsrs {
    pub nmsrs: u32,
    pub pad: u32,
}

impl SizeofFamStruct for KvmMsrs {
    open spec fn static_size() -> nat {
        MSRS_HEADER_SIZE as nat
    }

    open spec fn spec_image(&self) -> Seq<u8> {
        u32_le(self.nmsrs) + u32_le(self.pad)
    }

    open spec fn declared_len(header: Seq<u8>) -> nat {
        capped(
            MSRS_HEADER_SIZE as nat + MSR_ENTRY_SIZE as nat * u32_of(
                header[0],
                header[1],
                header[2],
                header[3],
            ) as nat,
        )
    }

    fn struct_size() -> (r: usize) {
        MSRS_HEADER_SIZE
    }

    fn size_of(&self) -> (r: usize) {
        proof {
            lemma_u32_round_trip(self.nmsrs);
            assert(self.spec_image()[0] == u32_le(self.nmsrs)[0]);
            assert(self.spec_image()[1] == u32_le(self.nmsrs)[1]);
            assert(self.spec_image()[2] == u32_le(self.nmsrs)[2]);
            assert(self.spec_image()[3] == u32_le(self.nmsrs)[3]);
        }
        let n = self.nmsrs as usize;
        if n > (usize::MAX - MSRS_HEADER_SIZE) / MSR_ENTRY_SIZE {
            assert(MSRS_HEADER_SIZE + MSR_ENTRY_SIZE * n > usize::MAX) by (nonlinear_arith)
                requires
                    n > (usize::MAX - 8) / 8,
                    MSRS_HEADER_SIZE == 8,
                    MSR_ENTRY_SIZE == 8,
            ;
            usize::MAX
        } else {
            assert(MSRS_HEADER_SIZE + MSR_ENTRY_SIZE * n <= usize::MAX) by (nonlinear_arith)
                requires
                    n <= (usize::MAX - 8) / 8,
                    MSRS_HEADER_SIZE == 8,
                    MSR_ENTRY_SIZE == 8,
            ;
            MSRS_HEADER_SIZE + MSR_ENTRY_SIZE * n
        }
    }

    fn to_image(&self) -> (r: Vec<u8>) {
        let mut r: Vec<u8> = Vec::with_capacity(MSRS_HEADER_SIZE);
        put_u32(&mut r, self.nmsrs);
        put_u32(&mut r, self.pad);
        assert(r@ =~= self.spec_image());
        r
    }

    fn from_image(bytes: &[u8]) -> (r: Self) {
        let r = KvmMsrs { nmsrs: get_u32(bytes, 0), pad: get_u32(bytes, 4) };
        assert(r.spec_image() =~= bytes@);
        r
    }

    proof fn lemma_image_len(&self) {
    }

    proof fn lemma_declared_len_bounds(header: Seq<u8>) {
    }
}

/// An alias of a guest memory range: a structure without a trailing array.
#[derive(Debug, Default, Copy, Clone, PartialEq, Eq)]
pub struct KvmMemoryAlias {
    pub slot: u32,
    pub flags: u32,
    pub guest_phys_addr: u64,
    pub memory_size: u64,
    pub target_phys_addr: u64,
}

impl SizeofFamStruct for KvmMemoryAlias {
    open spec fn static_size() -> nat {
        MEMORY_ALIAS_SIZE as nat
    }

    open spec fn spec_image(&self) -> Seq<u8> {
        u32_le(self.slot) + u32_le(self.flags) + u64_le(self.guest_phys_addr) + u64_le(
            self.memory_size,
        ) + u64_le(self.target_phys_addr)
    }

    open spec fn declared_len(header: Seq<u8>) -> nat {
        MEMORY_ALIAS_SIZE as nat
    }

    fn struct_size() -> (r: usize) {
        MEMORY_ALIAS_SIZE
    }

    fn size_of(&self) -> (r: usize) {
        MEMORY_ALIAS_SIZE
    }

    fn to_image(&self) -> (r: Vec<u8>) {
        let mut r: Vec<u8> = Vec::with_capacity(MEMORY_ALIAS_SIZE);
        put_u32(&mut r, self.slot);
        put_u32(&mut r, self.flags);
        put_u64(&mut r, self.guest_phys_addr);
        put_u64(&mut r, self.memory_size);
        put_u64(&mut r, self.target_phys_addr);
        r
    }

    fn from_image(bytes: &[u8]) -> (r: Self) {
        let r = KvmMemoryAlias {
            slot: get_u32(bytes, 0),
            flags: get_u32(bytes, 4),
            guest_phys_addr: get_u64(bytes, 8),
            memory_size: get_u64(bytes, 16),
            target_phys_addr: get_u64(bytes, 24),
        };
        assert(r.spec_image() =~= bytes@);
        r
    }

    proof fn lemma_image_len(&self) {
    }

    proof fn lemma_declared_len_bounds(header: Seq<u8>) {
    }
}

} // verus!
