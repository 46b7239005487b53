//! The layout of a foreign structure as this library sees it, and the byte
//! images of runs of structure-sized slots.
use vstd::prelude::*;

verus! {

/// Size and byte layout of an FFI object.
///
/// An implementing type mirrors a foreign structure with a fixed binary
/// layout of `static_size()` bytes. A structure that ends in a flexible array
/// member declares, through a count field in its fixed portion, how many bytes
/// the whole record takes: `declared_len` of its fixed bytes. For a structure
/// without such a member this is `static_size()` itself; for one with it, it
/// is `static_size()` plus count times the element size. A count of zero must
/// declare `static_size()`: the decoders read that as "no trailing array".
pub trait SizeofFamStruct: Sized {
    /// Byte length of the fixed portion of the structure.
    spec fn static_size() -> nat;

    /// The raw bytes of the fixed portion of this instance.
    spec fn spec_image(&self) -> Seq<u8>;

    /// The byte length of the whole record whose fixed portion holds `header`.
    spec fn declared_len(header: Seq<u8>) -> nat;

    /// Byte length of the fixed portion; a foreign structure is never empty.
    fn struct_size() -> (r: usize)
        ensures
            r as nat == Self::static_size(),
            r > 0,
    ;

    /// Get actual size of an FFI object.
    fn size_of(&self) -> (r: usize)
        ensures
            r as nat == Self::declared_len(self.spec_image()),
    ;

    /// The raw bytes of the fixed portion of this instance.
    fn to_image(&self) -> (r: Vec<u8>)
        ensures
            r@ == self.spec_image(),
    ;

    /// The instance whose fixed portion holds exactly `bytes`.
    fn from_image(bytes: &[u8]) -> (r: Self)
        requires
            bytes@.len() == Self::static_size(),
        ensures
            r.spec_image() == bytes@,
    ;

    /// The fixed portion of every instance is `static_size()` bytes long.
    proof fn lemma_image_len(&self)
        ensures
            self.spec_image().len() == Self::static_size(),
    ;

    /// Every fixed portion declares a record at least as long as itself, and
    /// one whose length a `usize` can hold.
    proof fn lemma_declared_len_bounds(header: Seq<u8>)
        requires
            header.len() == Self::static_size(),
        ensures
            Self::static_size() <= Self::declared_len(header) <= usize::MAX,
    ;
}

/// The fixed-portion images of `slots`, one after another, as they lie in
/// memory when the slots are contiguous.
pub open spec fn slot_bytes<T: SizeofFamStruct>(slots: Seq<T>) -> Seq<u8>
    decreases slots.len(),
{
    if slots.len() == 0 {
        Seq::empty()
    } else {
        slot_bytes(slots.drop_last()) + slots.last().spec_image()
    }
}

/// The bytes of the record that starts at the first of `slots`: as many of
/// the slots' bytes as that record's fixed portion declares.
pub open spec fn record_bytes<T: SizeofFamStruct>(slots: Seq<T>) -> Seq<u8>
    recommends
        slots.len() > 0,
{
    slot_bytes(slots).take(T::declared_len(slots[0].spec_image()) as int)
}

/// How many slots of `size` bytes it takes to hold `len` bytes.
pub open spec fn slot_count(len: nat, size: nat) -> nat
    recommends
        size > 0,
{
    if len % size == 0 {
        len / size
    } else {
        len / size + 1
    }
}

/// `data` cut or filled up with zero bytes to exactly `len` bytes.
pub open spec fn zero_padded(data: Seq<u8>, len: nat) -> Seq<u8> {
    Seq::new(len, |k: int| if k < data.len() { data[k] } else { 0u8 })
}

/// The images of `slots` take `static_size()` bytes each.
pub proof fn lemma_slot_bytes_len<T: SizeofFamStruct>(slots: Seq<T>)
    ensures
        slot_bytes(slots).len() == slots.len() * T::static_size(),
    decreases slots.len(),
{
    if slots.len() > 0 {
        lemma_slot_bytes_len(slots.drop_last());
        slots.last().lemma_image_len();
        assert(slots.len() * T::static_size() == (slots.len() - 1) * T::static_size()
            + T::static_size()) by (nonlinear_arith);
    }
}

/// Appending a slot appends its image.
pub proof fn lemma_slot_bytes_push<T: SizeofFamStruct>(slots: Seq<T>, x: T)
    ensures
        slot_bytes(slots.push(x)) == slot_bytes(slots) + x.spec_image(),
{
    assert(slots.push(x).drop_last() =~= slots);
}

/// The images of the first `i` slots are the first `i * static_size()` bytes
/// of the images of all of them.
pub proof fn lemma_slot_bytes_take<T: SizeofFamStruct>(slots: Seq<T>, i: int)
    requires
        0 <= i <= slots.len(),
    ensures
        slot_bytes(slots.take(i)) == slot_bytes(slots).take(i * T::static_size()),
    decreases slots.len(),
{
    lemma_slot_bytes_len(slots);
    if i == slots.len() {
        assert(slots.take(i) =~= slots);
        assert(slot_bytes(slots).take(i * T::static_size()) =~= slot_bytes(slots));
    } else {
        let rest = slots.drop_last();
        lemma_slot_bytes_take(rest, i);
        lemma_slot_bytes_len(rest);
        assert(rest.take(i) =~= slots.take(i));
        assert(i * T::static_size() <= rest.len() * T::static_size()) by (nonlinear_arith)
            requires
                i <= rest.len(),
        ;
        assert(slot_bytes(slots).take(i * T::static_size()) =~= slot_bytes(rest).take(
            i * T::static_size(),
        ));
    }
}

} // verus!
