//! Encoding a record to bytes, and rebuilding records from bytes.
use crate::bytes::{buf_bytes, unwrap_bytes, wrap_bytes};
use crate::layout::{
    lemma_slot_bytes_len, lemma_slot_bytes_push, lemma_slot_bytes_take, record_bytes, slot_bytes,
    slot_count, zero_padded, SizeofFamStruct,
};
use serde_bytes::ByteBuf;
use vstd::arithmetic::div_mod::{lemma_fundamental_div_mod, lemma_mod_pos_bound};
use vstd::prelude::*;

verus! {

/// What decoding `data` as one fixed-size `T` gives: the fixed-portion bytes
/// of the decoded instance, or the pair (expected length, actual length).
pub open spec fn fixed_outcome<T: SizeofFamStruct>(data: Seq<u8>) -> Result<Seq<u8>, (nat, nat)> {
    if data.len() == T::static_size() {
        Ok(data)
    } else {
        Err((T::static_size(), data.len()))
    }
}

/// What decoding `data` as one record of `T` with a trailing array gives: the
/// bytes of the rebuilt run of slots, or the pair (expected length, actual
/// length).
///
/// A buffer shorter than the fixed portion is refused against the static
/// size. A fixed portion that declares no trailing array must be the whole
/// buffer. Otherwise the buffer must be exactly as long as declared; the
/// record then fills whole slots, the last one padded with zeros.
pub open spec fn fam_outcome<T: SizeofFamStruct>(data: Seq<u8>) -> Result<Seq<u8>, (nat, nat)> {
    let size = T::static_size();
    if data.len() < size {
        Err((size, data.len()))
    } else {
        let declared = T::declared_len(data.take(size as int));
        if declared == size {
            if data.len() == size {
                Ok(data)
            } else {
                Err((size, data.len()))
            }
        } else if declared != data.len() {
            Err((declared, data.len()))
        } else {
            Ok(zero_padded(data, slot_count(declared, size) * size))
        }
    }
}

/// The `width` bytes of `data` that start at `start`, with zeros past its end.
fn padded_window(data: &Vec<u8>, start: usize, width: usize) -> (r: Vec<u8>)
    requires
        start <= data@.len(),
    ensures
        r@ == Seq::new(
            width as nat,
            |k: int| if start + k < data@.len() { data@[start + k] } else { 0u8 },
        ),
{
    let avail = data.len() - start;
    let mut r: Vec<u8> = Vec::with_capacity(width);
    let mut k: usize = 0;
    while k < width
        invariant
            k <= width,
            start <= data@.len() <= usize::MAX,
            avail == data@.len() - start,
            r@ =~= Seq::new(
                k as nat,
                |j: int| if start + j < data@.len() { data@[start + j] } else { 0u8 },
            ),
        decreases width - k,
    {
        if k < avail {
            r.push(data[start + k]);
        } else {
            r.push(0u8);
        }
        k = k + 1;
    }
    r
}

/// Deserialize an FFI object from `ByteBuf`.
///
/// The buffer must hold exactly the fixed portion of `T`; otherwise the
/// result is `Err((static size, buffer length))`.
pub fn deserialize_ffi<T>(serialized: ByteBuf) -> (r: Result<T, (usize, usize)>) where
    T: SizeofFamStruct + Default + Clone,

    ensures
        match r {
            Ok(v) => fixed_outcome::<T>(buf_bytes(serialized)) == Ok::<Seq<u8>, (nat, nat)>(
                v.spec_image(),
            ),
            Err(e) => fixed_outcome::<T>(buf_bytes(serialized)) == Err::<Seq<u8>, (nat, nat)>(
                (e.0 as nat, e.1 as nat),
            ),
        },
{
    let data = unwrap_bytes(serialized);
    let size = T::struct_size();
    if data.len() != size {
        Err((size, data.len()))
    } else {
        Ok(T::from_image(data.as_slice()))
    }
}

/// A slot that starts a record's run of slots begins inside the record, and
/// the run covers the record.
proof fn lemma_slot_bounds(len: nat, size: nat)
    requires
        size > 0,
    ensures
        slot_count(len, size) * size >= len,
        len > 0 ==> (slot_count(len, size) - 1) * size < len,
        len % size != 0 ==> len / size < len,
{
    lemma_fundamental_div_mod(len as int, size as int);
    lemma_mod_pos_bound(len as int, size as int);
    let q = len / size;
    let r = len % size;
    assert(q * size == size * q) by (nonlinear_arith);
    assert(q <= q * size) by (nonlinear_arith)
        requires
            size > 0,
    ;
    if r == 0 {
        assert(slot_count(len, size) == q);
        if len > 0 {
            assert((q - 1) * size == q * size - size) by (nonlinear_arith);
        }
    } else {
        assert(slot_count(len, size) == q + 1);
        assert((q + 1) * size == q * size + size) by (nonlinear_arith);
    }
}

/// Serialize an FFI object into `ByteBuf`.
///
/// `something` is the run of contiguous slots that begins with the object:
/// for a structure without a trailing array, the object alone; for one with
/// it, the object followed by the slots that hold the array, as
/// [`deserialize_ffi_fam`] returns them. Exactly as many bytes as the object
/// declares are copied out, never more.
pub fn serialize_ffi<T: SizeofFamStruct>(something: &[T]) -> (r: ByteBuf)
    requires
        something@.len() > 0,
        T::declared_len(something@[0].spec_image()) <= something@.len() * T::static_size(),
    ensures
        buf_bytes(r) == record_bytes(something@),
{
    let size = something[0].size_of();
    let width = T::struct_size();
    let mut out: Vec<u8> = Vec::with_capacity(size);
    let mut i: usize = 0;
    while out.len() < size
        invariant
            size as nat == T::declared_len(something@[0].spec_image()),
            width as nat == T::static_size(),
            width > 0,
            size <= something@.len() * width,
            i <= something@.len(),
            out@ == slot_bytes(something@.take(i as int)),
            out@.len() == i * width,
        decreases something@.len() - i,
    {
        assert(i < something@.len()) by (nonlinear_arith)
            requires
                i * width < size,
                size <= something@.len() * width,
                width > 0,
        ;
        let mut image = something[i].to_image();
        proof {
            something@[i as int].lemma_image_len();
            lemma_slot_bytes_push(something@.take(i as int), something@[i as int]);
            assert(something@.take(i + 1) =~= something@.take(i as int).push(something@[i as int]));
            assert((i + 1) * width == i * width + width) by (nonlinear_arith);
        }
        out.append(&mut image);
        i = i + 1;
    }
    proof {
        lemma_slot_bytes_take(something@, i as int);
        lemma_slot_bytes_len(something@);
        assert(i * width <= something@.len() * width) by (nonlinear_arith)
            requires
                i <= something@.len(),
        ;
    }
    out.truncate(size);
    assert(out@ =~= record_bytes(something@));
    wrap_bytes(out)
}

/// Deserialize an FFI object with flexible array as the last field from `ByteBuf`.
///
/// The first slot of the result holds the fixed portion read from the front
/// of the buffer. Where that portion declares a trailing array, the buffer
/// must be exactly as long as declared, and the result is the run of slots
/// whose bytes are the buffer, the last slot padded with zeros. Each refusal
/// is `Err((expected length, buffer length))`, as [`fam_outcome`] states.
pub fn deserialize_ffi_fam<T>(serialized: ByteBuf) -> (r: Result<Vec<T>, (usize, usize)>) where
    T: SizeofFamStruct + Default,

    ensures
        match r {
            Ok(v) => {
                &&& fam_outcome::<T>(buf_bytes(serialized)) == Ok::<Seq<u8>, (nat, nat)>(
                    slot_bytes(v@),
                )
                &&& v@.len() > 0
                &&& v@[0].spec_image() == buf_bytes(serialized).take(T::static_size() as int)
            },
            Err(e) => fam_outcome::<T>(buf_bytes(serialized)) == Err::<Seq<u8>, (nat, nat)>(
                (e.0 as nat, e.1 as nat),
            ),
        },
{
    let data = unwrap_bytes(serialized);
    let width = T::struct_size();
    if data.len() < width {
        return Err((width, data.len()));
    }
    let head = padded_window(&data, 0, width);
    assert(head@ =~= data@.take(width as int));
    let obj = T::from_image(head.as_slice());
    let declared = obj.size_of();
    if declared == width {
        if data.len() != width {
            Err((width, data.len()))
        } else {
            let mut slots: Vec<T> = Vec::new();
            slots.push(obj);
            proof {
                lemma_slot_bytes_push(Seq::<T>::empty(), obj);
                assert(Seq::<T>::empty().push(obj) =~= slots@);
                assert(data@.take(width as int) =~= data@);
            }
            Ok(slots)
        }
    } else if declared != data.len() {
        Err((declared, data.len()))
    } else {
        proof {
            lemma_slot_bounds(declared as nat, width as nat);
        }
        let whole = declared / width;
        let count = if declared % width == 0 {
            whole
        } else {
            whole + 1
        };
        let mut slots: Vec<T> = Vec::with_capacity(count);
        let mut j: usize = 0;
        let mut start: usize = 0;
        while j < count
            invariant
                width as nat == T::static_size(),
                width > 0,
                width <= declared,
                declared == data@.len(),
                count as nat == slot_count(declared as nat, width as nat),
                count * width >= declared,
                (count - 1) * width < declared,
                j <= count,
                j < count ==> start == j * width,
                slots@.len() == j,
                slot_bytes(slots@) == zero_padded(data@, (j * width) as nat),
                j > 0 ==> slots@[0].spec_image() == data@.take(width as int),
            decreases count - j,
        {
            assert(start < declared) by (nonlinear_arith)
                requires
                    start == j * width,
                    j < count,
                    (count - 1) * width < declared,
            ;
            let window = padded_window(&data, start, width);
            let item = T::from_image(window.as_slice());
            proof {
                lemma_slot_bytes_push(slots@, item);
                assert((j + 1) * width == j * width + width) by (nonlinear_arith);
                assert(zero_padded(data@, (j * width) as nat) + item.spec_image() =~= zero_padded(
                    data@,
                    ((j + 1) * width) as nat,
                ));
                if j == 0 {
                    assert(item.spec_image() =~= data@.take(width as int));
                }
            }
            slots.push(item);
            j = j + 1;
            if j < count {
                assert(j * width < declared) by (nonlinear_arith)
                    requires
                        j < count,
                        (count - 1) * width < declared,
                ;
                start = start + width;
            }
        }
        Ok(slots)
    }
}

/// A run of one slot has that slot's fixed-portion bytes as its image.
proof fn lemma_single_slot<T: SizeofFamStruct>(x: T)
    ensures
        slot_bytes(seq![x]) == x.spec_image(),
{
    lemma_slot_bytes_push(Seq::<T>::empty(), x);
    assert(Seq::<T>::empty().push(x) =~= seq![x]);
    assert(Seq::<u8>::empty() + x.spec_image() =~= x.spec_image());
}

/// An instance that declares no trailing array encodes to its fixed-portion
/// bytes, and decoding those bytes as a fixed-size structure gives an
/// instance with the same bytes back.
pub proof fn lemma_fixed_round_trip<T: SizeofFamStruct>(x: T)
    requires
        T::declared_len(x.spec_image()) == T::static_size(),
    ensures
        record_bytes(seq![x]) == x.spec_image(),
        fixed_outcome::<T>(record_bytes(seq![x])) == Ok::<Seq<u8>, (nat, nat)>(x.spec_image()),
{
    lemma_single_slot(x);
    x.lemma_image_len();
    assert(x.spec_image().take(T::static_size() as int) =~= x.spec_image());
}

/// Encoding a record held in a run of slots and decoding the bytes as a
/// record with a trailing array succeeds; the first rebuilt slot has the
/// record's fixed portion, and the rebuilt bytes begin with the encoding.
pub proof fn lemma_fam_round_trip<T: SizeofFamStruct>(slots: Seq<T>)
    requires
        slots.len() > 0,
        T::declared_len(slots[0].spec_image()) <= slots.len() * T::static_size(),
    ensures
        fam_outcome::<T>(record_bytes(slots)) is Ok,
        fam_outcome::<T>(record_bytes(slots))->Ok_0.take(record_bytes(slots).len() as int)
            == record_bytes(slots),
        record_bytes(slots).take(T::static_size() as int) == slots[0].spec_image(),
{
    let size = T::static_size();
    let head = slots[0].spec_image();
    let n = T::declared_len(head);
    let e = record_bytes(slots);
    slots[0].lemma_image_len();
    T::lemma_declared_len_bounds(head);
    lemma_slot_bytes_len(slots);
    lemma_slot_bytes_take(slots, 1);
    assert(slots.take(1) =~= seq![slots[0]]);
    lemma_single_slot(slots[0]);
    assert(1 * size == size);
    assert(e.len() == n);
    assert(e.take(size as int) =~= head);
    if n != size {
        lemma_slot_bounds(n, size);
        assert(zero_padded(e, slot_count(n, size) * size).take(n as int) =~= e);
    } else {
        assert(e.take(n as int) =~= e);
    }
}

/// A buffer one byte shorter or one byte longer than the fixed portion is
/// refused by the fixed-size decoder with (static size, buffer length).
pub proof fn lemma_fixed_exact_length<T: SizeofFamStruct>(data: Seq<u8>)
    requires
        data.len() + 1 == T::static_size() || data.len() == T::static_size() + 1,
    ensures
        fixed_outcome::<T>(data) == Err::<Seq<u8>, (nat, nat)>((T::static_size(), data.len())),
{
}

/// An instance that declares no trailing array decodes through the
/// trailing-array decoder exactly as through the fixed-size one, to a single
/// slot; one extra byte after it is refused with (static size, buffer length).
pub proof fn lemma_zero_count_fam<T: SizeofFamStruct>(x: T, extra: u8)
    requires
        T::declared_len(x.spec_image()) == T::static_size(),
    ensures
        fam_outcome::<T>(record_bytes(seq![x])) == Ok::<Seq<u8>, (nat, nat)>(x.spec_image()),
        fam_outcome::<T>(record_bytes(seq![x])) == fixed_outcome::<T>(record_bytes(seq![x])),
        slot_bytes(seq![x]) == x.spec_image(),
        fam_outcome::<T>(x.spec_image().push(extra)) == Err::<Seq<u8>, (nat, nat)>(
            (T::static_size(), T::static_size() + 1),
        ),
{
    lemma_fixed_round_trip(x);
    lemma_single_slot(x);
    x.lemma_image_len();
    assert(x.spec_image().take(T::static_size() as int) =~= x.spec_image());
    let longer = x.spec_image().push(extra);
    assert(longer.take(T::static_size() as int) =~= x.spec_image());
}

/// A buffer whose fixed portion declares a trailing array but whose length
/// differs from the declared length is refused by the trailing-array decoder
/// with (declared length, buffer length).
pub proof fn lemma_declared_mismatch<T: SizeofFamStruct>(data: Seq<u8>)
    requires
        data.len() >= T::static_size(),
        T::declared_len(data.take(T::static_size() as int)) != T::static_size(),
        T::declared_len(data.take(T::static_size() as int)) != data.len(),
    ensures
        fam_outcome::<T>(data) == Err::<Seq<u8>, (nat, nat)>(
            (T::declared_len(data.take(T::static_size() as int)), data.len()),
        ),
{
}

} // verus!
