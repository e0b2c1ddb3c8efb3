//! Bounds-checked, endianness-aware typed access to a raw byte buffer.
//!
//! Every read or write takes a guest-supplied byte offset that is never
//! trusted: the range is checked against the buffer first, element counts
//! are multiplied with explicit overflow checking, and a failed operation
//! reports a distinct error and leaves the buffer untouched — never a
//! truncation, a wraparound or a partial write.

use vstd::prelude::*;

use crate::error::GuestError;
use crate::le::Endian;

verus! {

/// `b` with the bytes at `off ..` replaced by `patch`.
pub open spec fn spliced(b: Seq<u8>, off: int, patch: Seq<u8>) -> Seq<u8> {
    Seq::new(
        b.len(),
        |i: int|
            if off <= i < off + patch.len() {
                patch[i - off]
            } else {
                b[i]
            },
    )
}

/// The access range of one `T` at byte offset `offset` lies inside `b`.
pub open spec fn fits<T: Endian>(b: Seq<u8>, offset: i32) -> bool {
    0 <= offset && offset + T::size_spec() <= b.len()
}

/// The wire bytes of `vals`, one encoding after another.
pub open spec fn encoded_prefix<T: Endian>(vals: Seq<T>, n: int) -> Seq<u8>
    decreases n,
{
    if n <= 0 {
        Seq::empty()
    } else {
        encoded_prefix(vals, n - 1) + vals[n - 1].to_le_spec()
    }
}

/// The wire bytes of a whole run of values.
pub open spec fn encoded<T: Endian>(vals: Seq<T>) -> Seq<u8> {
    encoded_prefix(vals, vals.len() as int)
}

/// The values decoded from `count` consecutive encodings starting at
/// byte offset `base` of `b`.
pub open spec fn decoded<T: Endian>(b: Seq<u8>, base: int, count: int) -> Seq<T> {
    Seq::new(
        if count <= 0 {
            0
        } else {
            count as nat
        },
        |i: int|
            T::from_le_spec(
                b.subrange(base + i * T::size_spec(), base + (i + 1) * T::size_spec()),
            ),
    )
}

proof fn lemma_encoded_prefix_len<T: Endian>(vals: Seq<T>, n: int)
    requires
        0 <= n <= vals.len(),
    ensures
        encoded_prefix(vals, n).len() == n * T::size_spec(),
    decreases n,
{
    if n > 0 {
        lemma_encoded_prefix_len(vals, n - 1);
        vals[n - 1].lemma_to_le_len();
        let sz = T::size_spec() as int;
        assert((n - 1) * sz + sz == n * sz) by (nonlinear_arith);
        assert(encoded_prefix(vals, n).len() == (n - 1) * sz + sz);
        assert(encoded_prefix(vals, n).len() == n * T::size_spec());
    } else {
        assert(n == 0);
        assert(encoded_prefix(vals, n).len() == 0);
        assert(n * T::size_spec() == 0) by (nonlinear_arith)
            requires
                n == 0,
        ;
    }
}

/// A raw guest byte buffer with bounds-checked typed access.
///
/// Offsets come from the guest as `i32` values and are never trusted; a
/// range outside the buffer is a distinct bounds error, an element count
/// whose byte size overflows is a distinct overflow error, and a failed
/// store leaves the buffer exactly as it was.
pub trait RawMem {
    /// The buffer contents.
    spec fn bytes(&self) -> Seq<u8>;

    /// Writes one value at `offset` through the endian codec, or fails
    /// with a bounds error (writing nothing) if the range does not fit.
    fn store<T: Endian>(&mut self, offset: i32, val: T) -> (r: Result<(), GuestError>)
        ensures
            r is Ok <==> fits::<T>(old(self).bytes(), offset),
            r is Ok ==> final(self).bytes() == spliced(
                old(self).bytes(),
                offset as int,
                val.to_le_spec(),
            ),
            r is Err ==> final(self).bytes() == old(self).bytes() && r == Err::<(), GuestError>(
                GuestError::OutOfBoundsWrite,
            ),
    ;

    /// Writes a contiguous run of values starting at `offset`, or fails —
    /// with a distinct overflow error if the total byte size overflows the
    /// address width, or a bounds error if the range does not fit — and
    /// then writes nothing.
    fn store_many<T: Endian>(&mut self, offset: i32, vals: &Vec<T>) -> (r: Result<(), GuestError>)
        ensures
            T::size_spec() * vals@.len() > usize::MAX ==> r == Err::<(), GuestError>(
                GuestError::SliceTooLarge,
            ),
            T::size_spec() * vals@.len() <= usize::MAX && !(0 <= offset && offset + T::size_spec()
                * vals@.len() <= old(self).bytes().len()) ==> r == Err::<(), GuestError>(
                GuestError::OutOfBoundsWrite,
            ),
            r is Ok <==> T::size_spec() * vals@.len() <= usize::MAX && 0 <= offset && offset
                + T::size_spec() * vals@.len() <= old(self).bytes().len(),
            r is Ok ==> final(self).bytes() == spliced(
                old(self).bytes(),
                offset as int,
                encoded(vals@),
            ),
            r is Err ==> final(self).bytes() == old(self).bytes(),
    ;

    /// Reads one value at `offset` through the endian codec, or fails with
    /// a bounds error if the range does not fit.
    fn load<T: Endian>(&self, offset: i32) -> (r: Result<T, GuestError>)
        ensures
            r is Ok <==> fits::<T>(self.bytes(), offset),
            r is Ok ==> r->Ok_0 == T::from_le_spec(
                self.bytes().subrange(offset as int, offset + T::size_spec()),
            ),
            r is Err ==> r == Err::<T, GuestError>(GuestError::OutOfBoundsRead),
    ;
}

/// Overwrites `buf[pos .. pos + patch.len()]` with `patch`.
fn splice_into(buf: &mut Vec<u8>, pos: usize, patch: &Vec<u8>)
    requires
        pos + patch@.len() <= old(buf)@.len(),
        pos + patch@.len() <= usize::MAX,
    ensures
        final(buf)@ == spliced(old(buf)@, pos as int, patch@),
{
    let mut i: usize = 0;
    while i < patch.len()
        invariant
            i <= patch@.len(),
            pos + patch@.len() <= buf@.len(),
            pos + patch@.len() <= usize::MAX,
            buf@.len() == old(buf)@.len(),
            forall|j: int| 0 <= j < i ==> buf@[pos + j] == patch@[j],
            forall|j: int|
                0 <= j < buf@.len() && !(pos <= j < pos + i) ==> buf@[j] == old(buf)@[j],
        decreases patch@.len() - i,
    {
        let b = patch[i];
        buf[pos + i] = b;
        i += 1;
    }
    proof {
        assert(buf@ =~= spliced(old(buf)@, pos as int, patch@));
    }
}

impl RawMem for Vec<u8> {
    open spec fn bytes(&self) -> Seq<u8> {
        self@
    }

    fn store<T: Endian>(&mut self, offset: i32, val: T) -> (r: Result<(), GuestError>) {
        let size = T::size_of();
        if offset < 0 {
            return Err(GuestError::OutOfBoundsWrite);
        }
        let off = offset as usize;
        if off > self.len() || size > self.len() - off {
            return Err(GuestError::OutOfBoundsWrite);
        }
        let patch = val.to_le_vec();
        proof {
            val.lemma_to_le_len();
        }
        splice_into(self, off, &patch);
        Ok(())
    }

    fn store_many<T: Endian>(&mut self, offset: i32, vals: &Vec<T>) -> (r: Result<
        (),
        GuestError,
    >) {
        let size = T::size_of();
        proof {
            T::lemma_size();
        }
        let total = match size.checked_mul(vals.len()) {
            Some(t) => t,
            None => {
                return Err(GuestError::SliceTooLarge);
            },
        };
        if offset < 0 {
            return Err(GuestError::OutOfBoundsWrite);
        }
        let off = offset as usize;
        if off > self.len() || total > self.len() - off {
            return Err(GuestError::OutOfBoundsWrite);
        }
        proof {
            lemma_encoded_prefix_len::<T>(vals@, vals@.len() as int);
        }
        let mut i: usize = 0;
        while i < vals.len()
            invariant
                i <= vals@.len(),
                size == T::size_spec(),
                total == T::size_spec() * vals@.len(),
                off + total <= self@.len(),
                off + total <= usize::MAX,
                self@.len() == old(self)@.len(),
                self@ == spliced(old(self)@, off as int, encoded_prefix(vals@, i as int)),
            decreases vals@.len() - i,
        {
            proof {
                lemma_encoded_prefix_len::<T>(vals@, i as int);
                lemma_encoded_prefix_len::<T>(vals@, i as int + 1);
                assert(i * T::size_spec() + T::size_spec() <= vals@.len() * T::size_spec())
                    by (nonlinear_arith)
                    requires
                        0 <= i < vals@.len(),
                ;
                assert(vals@.len() * T::size_spec() == T::size_spec() * vals@.len())
                    by (nonlinear_arith);
                assert(i * T::size_spec() <= total);
                assert(i * T::size_spec() + T::size_spec() <= total);
            }
            let patch = vals[i].to_le_vec();
            proof {
                vals@[i as int].lemma_to_le_len();
            }
            splice_into(self, off + i * size, &patch);
            proof {
                assert(self@ =~= spliced(old(self)@, off as int, encoded_prefix(vals@, i as int + 1)));
            }
            i += 1;
        }
        proof {
            assert(encoded_prefix(vals@, vals@.len() as int) == encoded(vals@));
        }
        Ok(())
    }

    fn load<T: Endian>(&self, offset: i32) -> (r: Result<T, GuestError>) {
        let size = T::size_of();
        if offset < 0 {
            return Err(GuestError::OutOfBoundsRead);
        }
        let off = offset as usize;
        if off > self.len() || size > self.len() - off {
            return Err(GuestError::OutOfBoundsRead);
        }
        let s = &self.as_slice()[off..off + size];
        Ok(T::from_le_slice(s))
    }
}

/// Law: a store followed by a load of the same type at the same offset
/// returns the stored value, for every offset whose range fits the buffer.
///
/// The buffer a successful [`RawMem::store`] leaves behind is
/// `spliced(b, offset, val.to_le_spec())`; what [`RawMem::load`] then
/// decodes from that buffer at the same offset is `val` again.
pub proof fn lemma_store_load_roundtrip<T: Endian>(b: Seq<u8>, offset: i32, val: T)
    requires
        fits::<T>(b, offset),
    ensures
        T::from_le_spec(
            spliced(b, offset as int, val.to_le_spec()).subrange(
                offset as int,
                offset + T::size_spec(),
            ),
        ) == val,
{
    val.lemma_to_le_len();
    assert(spliced(b, offset as int, val.to_le_spec()).subrange(
        offset as int,
        offset + T::size_spec(),
    ) =~= val.to_le_spec());
    val.lemma_roundtrip();
}

/// Reads `len` consecutive values of `T` out of guest memory.
///
/// The byte size `len * size_of::<T>()` is computed with overflow checking
/// first (a guest-supplied count that would overflow 32-bit arithmetic is
/// a distinct overflow error, never a wraparound read), then the range is
/// bounds-checked, then each element is decoded through the endian codec.
/// The count is taken from the wire as an `i32` and reinterpreted as
/// unsigned, as the boundary's ABI prescribes.
pub fn copy_slice<T: Endian>(data: &Vec<u8>, base: i32, len: i32, _align: i32) -> (r: Result<
    Vec<T>,
    GuestError,
>)
    ensures
        (len as u32) * T::size_spec() > u32::MAX ==> r == Err::<Vec<T>, GuestError>(
            GuestError::SliceTooLarge,
        ),
        (len as u32) * T::size_spec() <= u32::MAX && !(0 <= base && base + (len as u32)
            * T::size_spec() <= data@.len()) ==> r == Err::<Vec<T>, GuestError>(
            GuestError::OutOfBoundsRead,
        ),
        r is Ok <==> (len as u32) * T::size_spec() <= u32::MAX && 0 <= base && base + (len as u32)
            * T::size_spec() <= data@.len(),
        r is Ok ==> r->Ok_0@ == decoded::<T>(data@, base as int, len as u32 as int),
{
    let size = T::size_of();
    proof {
        T::lemma_size();
    }
    let count = len as u32;
    let total = match count.checked_mul(size as u32) {
        Some(t) => t,
        None => {
            proof {
                assert(count * (size as u32) == count * T::size_spec());
            }
            return Err(GuestError::SliceTooLarge);
        },
    };
    if base < 0 {
        return Err(GuestError::OutOfBoundsRead);
    }
    let b = base as usize;
    let total = total as usize;
    if b > data.len() || total > data.len() - b {
        return Err(GuestError::OutOfBoundsRead);
    }
    let mut out: Vec<T> = Vec::new();
    let mut i: usize = 0;
    while i < count as usize
        invariant
            i <= count,
            size == T::size_spec(),
            total == count * T::size_spec(),
            b + total <= data@.len(),
            b + total <= usize::MAX,
            out@ == decoded::<T>(data@, b as int, i as int),
        decreases count - i,
    {
        proof {
            assert((i + 1) * T::size_spec() <= count * T::size_spec()) by (nonlinear_arith)
                requires
                    0 <= i < count,
            ;
            assert(i * T::size_spec() + T::size_spec() == (i + 1) * T::size_spec())
                by (nonlinear_arith);
            assert(i * T::size_spec() + T::size_spec() <= total);
            assert(i * T::size_spec() <= total);
        }
        let s = &data.as_slice()[b + i * size..b + (i + 1) * size];
        let v = T::from_le_slice(s);
        out.push(v);
        proof {
            assert(out@ =~= decoded::<T>(data@, b as int, i as int + 1));
        }
        i += 1;
    }
    Ok(out)
}

} // verus!
