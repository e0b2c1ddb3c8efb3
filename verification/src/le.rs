//! Endian codec: every supported primitive type is stored in a fixed
//! little-endian wire order, whatever the host byte order. `set` always
//! re-encodes to the wire order and `get` always decodes from it, so the
//! byte layout seen by the guest never depends on the host.

use vstd::bytes::*;
use vstd::prelude::*;

verus! {

/// A primitive type with a fixed-width little-endian wire encoding.
///
/// The encoding is total (every value has exactly `size_spec()` wire
/// bytes) and decoding an encoding restores the value, which every
/// implementation proves.
pub trait Endian: Sized + Copy {
    /// Width of the wire encoding in bytes.
    spec fn size_spec() -> nat;

    /// The little-endian wire bytes of a value.
    spec fn to_le_spec(self) -> Seq<u8>;

    /// The value a run of wire bytes denotes.
    spec fn from_le_spec(s: Seq<u8>) -> Self;

    /// The wire width is a small positive constant.
    proof fn lemma_size()
        ensures
            1 <= Self::size_spec() <= 8,
    ;

    /// Every value encodes to exactly the wire width.
    proof fn lemma_to_le_len(self)
        ensures
            self.to_le_spec().len() == Self::size_spec(),
    ;

    /// Law: decoding an encoding restores the original value (round
    /// trip), independent of host byte order.
    proof fn lemma_roundtrip(self)
        ensures
            Self::from_le_spec(self.to_le_spec()) == self,
    ;

    /// Wire width, as a runtime value.
    fn size_of() -> (n: usize)
        ensures
            n == Self::size_spec(),
    ;

    /// Encodes a value to its wire bytes.
    fn to_le_vec(self) -> (v: Vec<u8>)
        ensures
            v@ == self.to_le_spec(),
    ;

    /// Decodes a value from exactly one encoding's worth of wire bytes.
    fn from_le_slice(s: &[u8]) -> (r: Self)
        requires
            s@.len() == Self::size_spec(),
        ensures
            r == Self::from_le_spec(s@),
    ;
}

impl Endian for u8 {
    open spec fn size_spec() -> nat {
        1
    }

    open spec fn to_le_spec(self) -> Seq<u8> {
        seq![self]
    }

    open spec fn from_le_spec(s: Seq<u8>) -> Self {
        s[0]
    }

    proof fn lemma_size() {
    }

    proof fn lemma_to_le_len(self) {
    }

    proof fn lemma_roundtrip(self) {
    }

    fn size_of() -> usize {
        1
    }

    fn to_le_vec(self) -> (v: Vec<u8>) {
        let mut v = Vec::new();
        v.push(self);
        proof {
            assert(v@ =~= self.to_le_spec());
        }
        v
    }

    fn from_le_slice(s: &[u8]) -> Self {
        s[0]
    }
}

impl Endian for u16 {
    open spec fn size_spec() -> nat {
        2
    }

    open spec fn to_le_spec(self) -> Seq<u8> {
        spec_u16_to_le_bytes(self)
    }

    open spec fn from_le_spec(s: Seq<u8>) -> Self {
        spec_u16_from_le_bytes(s)
    }

    proof fn lemma_size() {
    }

    proof fn lemma_to_le_len(self) {
        lemma_auto_spec_u16_to_from_le_bytes();
    }

    proof fn lemma_roundtrip(self) {
        lemma_auto_spec_u16_to_from_le_bytes();
        assert(spec_u16_to_le_bytes(self).len() == 2);
    }

    fn size_of() -> usize {
        2
    }

    fn to_le_vec(self) -> (v: Vec<u8>) {
        u16_to_le_bytes(self)
    }

    fn from_le_slice(s: &[u8]) -> Self {
        u16_from_le_bytes(s)
    }
}

impl Endian for u32 {
    open spec fn size_spec() -> nat {
        4
    }

    open spec fn to_le_spec(self) -> Seq<u8> {
        spec_u32_to_le_bytes(self)
    }

    open spec fn from_le_spec(s: Seq<u8>) -> Self {
        spec_u32_from_le_bytes(s)
    }

    proof fn lemma_size() {
    }

    proof fn lemma_to_le_len(self) {
        lemma_auto_spec_u32_to_from_le_bytes();
    }

    proof fn lemma_roundtrip(self) {
        lemma_auto_spec_u32_to_from_le_bytes();
        assert(spec_u32_to_le_bytes(self).len() == 4);
    }

    fn size_of() -> usize {
        4
    }

    fn to_le_vec(self) -> (v: Vec<u8>) {
        u32_to_le_bytes(self)
    }

    fn from_le_slice(s: &[u8]) -> Self {
        u32_from_le_bytes(s)
    }
}

impl Endian for u64 {
    open spec fn size_spec() -> nat {
        8
    }

    open spec fn to_le_spec(self) -> Seq<u8> {
        spec_u64_to_le_bytes(self)
    }

    open spec fn from_le_spec(s: Seq<u8>) -> Self {
        spec_u64_from_le_bytes(s)
    }

    proof fn lemma_size() {
    }

    proof fn lemma_to_le_len(self) {
        lemma_auto_spec_u64_to_from_le_bytes();
    }

    proof fn lemma_roundtrip(self) {
        lemma_auto_spec_u64_to_from_le_bytes();
    }

    fn size_of() -> usize {
        8
    }

    fn to_le_vec(self) -> (v: Vec<u8>) {
        u64_to_le_bytes(self)
    }

    fn from_le_slice(s: &[u8]) -> Self {
        u64_from_le_bytes(s)
    }
}

impl Endian for i8 {
    open spec fn size_spec() -> nat {
        1
    }

    open spec fn to_le_spec(self) -> Seq<u8> {
        seq![self as u8]
    }

    open spec fn from_le_spec(s: Seq<u8>) -> Self {
        s[0] as i8
    }

    proof fn lemma_size() {
    }

    proof fn lemma_to_le_len(self) {
    }

    proof fn lemma_roundtrip(self) {
        assert(self as u8 as i8 == self) by (bit_vector);
    }

    fn size_of() -> usize {
        1
    }

    fn to_le_vec(self) -> (v: Vec<u8>) {
        let mut v = Vec::new();
        v.push(self as u8);
        proof {
            assert(v@ =~= self.to_le_spec());
        }
        v
    }

    fn from_le_slice(s: &[u8]) -> Self {
        s[0] as i8
    }
}

impl Endian for i16 {
    open spec fn size_spec() -> nat {
        2
    }

    open spec fn to_le_spec(self) -> Seq<u8> {
        spec_u16_to_le_bytes(self as u16)
    }

    open spec fn from_le_spec(s: Seq<u8>) -> Self {
        spec_u16_from_le_bytes(s) as i16
    }

    proof fn lemma_size() {
    }

    proof fn lemma_to_le_len(self) {
        lemma_auto_spec_u16_to_from_le_bytes();
    }

    proof fn lemma_roundtrip(self) {
        lemma_auto_spec_u16_to_from_le_bytes();
        assert(spec_u16_to_le_bytes(self as u16).len() == 2);
        assert(self as u16 as i16 == self) by (bit_vector);
    }

    fn size_of() -> usize {
        2
    }

    fn to_le_vec(self) -> (v: Vec<u8>) {
        u16_to_le_bytes(self as u16)
    }

    fn from_le_slice(s: &[u8]) -> Self {
        u16_from_le_bytes(s) as i16
    }
}

impl Endian for i32 {
    open spec fn size_spec() -> nat {
        4
    }

    open spec fn to_le_spec(self) -> Seq<u8> {
        spec_u32_to_le_bytes(self as u32)
    }

    open spec fn from_le_spec(s: Seq<u8>) -> Self {
        spec_u32_from_le_bytes(s) as i32
    }

    proof fn lemma_size() {
    }

    proof fn lemma_to_le_len(self) {
        lemma_auto_spec_u32_to_from_le_bytes();
    }

    proof fn lemma_roundtrip(self) {
        lemma_auto_spec_u32_to_from_le_bytes();
        assert(spec_u32_to_le_bytes(self as u32).len() == 4);
        assert(self as u32 as i32 == self) by (bit_vector);
    }

    fn size_of() -> usize {
        4
    }

    fn to_le_vec(self) -> (v: Vec<u8>) {
        u32_to_le_bytes(self as u32)
    }

    fn from_le_slice(s: &[u8]) -> Self {
        u32_from_le_bytes(s) as i32
    }
}

impl Endian for i64 {
    open spec fn size_spec() -> nat {
        8
    }

    open spec fn to_le_spec(self) -> Seq<u8> {
        spec_u64_to_le_bytes(self as u64)
    }

    open spec fn from_le_spec(s: Seq<u8>) -> Self {
        spec_u64_from_le_bytes(s) as i64
    }

    proof fn lemma_size() {
    }

    proof fn lemma_to_le_len(self) {
        lemma_auto_spec_u64_to_from_le_bytes();
    }

    proof fn lemma_roundtrip(self) {
        lemma_auto_spec_u64_to_from_le_bytes();
        assert(self as u64 as i64 == self) by (bit_vector);
    }

    fn size_of() -> usize {
        8
    }

    fn to_le_vec(self) -> (v: Vec<u8>) {
        u64_to_le_bytes(self as u64)
    }

    fn from_le_slice(s: &[u8]) -> Self {
        u64_from_le_bytes(s) as i64
    }
}

/// A typed memory cell holding one value of `T` in its wire encoding.
///
/// Whatever the host byte order, `set` stores the fixed little-endian
/// bytes and `get` decodes the host-native value back from them.
pub struct Le<T: Endian> {
    bytes: Vec<u8>,
    phantom: core::marker::PhantomData<T>,
}

impl<T: Endian> Le<T> {
    /// Internal well-formedness: the cell holds exactly one encoding's
    /// worth of bytes.
    pub closed spec fn wf(&self) -> bool {
        self.bytes@.len() == T::size_spec()
    }

    /// The wire bytes currently stored.
    pub closed spec fn bytes_spec(&self) -> Seq<u8> {
        self.bytes@
    }

    /// The value the stored bytes denote.
    pub open spec fn value(&self) -> T {
        T::from_le_spec(self.bytes_spec())
    }

    /// A cell initialized to hold `val`.
    pub fn new(val: T) -> (r: Self)
        ensures
            r.wf(),
            r.bytes_spec() == val.to_le_spec(),
            r.value() == val,
    {
        proof {
            val.lemma_to_le_len();
            val.lemma_roundtrip();
        }
        Le { bytes: val.to_le_vec(), phantom: core::marker::PhantomData }
    }

    /// Re-encodes `val` into the fixed wire order.
    pub fn set(&mut self, val: T)
        ensures
            final(self).wf(),
            final(self).bytes_spec() == val.to_le_spec(),
            final(self).value() == val,
    {
        proof {
            val.lemma_to_le_len();
            val.lemma_roundtrip();
        }
        self.bytes = val.to_le_vec();
    }

    /// Decodes the host-native value from the stored wire bytes.
    pub fn get(&self) -> (r: T)
        requires
            self.wf(),
        ensures
            r == self.value(),
    {
        T::from_le_slice(self.bytes.as_slice())
    }
}

} // verus!
