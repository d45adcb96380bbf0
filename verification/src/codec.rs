//! Attribute value codecs.
//!
//! Every attribute value travels over the air as bytes.  The [`Attribute`]
//! trait names the encoding of a value and the decoding of bytes, and demands
//! of every implementation a proof that decoding an encoded value gives the
//! value back, and that a fixed-width codec rejects bytes of the wrong
//! length.  Multi-byte integers use little-endian order, strings are UTF-8
//! without a terminator, booleans are one byte (zero or one), and raw bytes
//! are opaque.

use vstd::prelude::*;
use vstd::bytes::*;
use vstd::utf8::*;
use vstd::slice::slice_to_vec;
use vstd::string::StrSliceExecFns;
use crate::error::Error;

verus! {

/// A value that can live in a GATT attribute: it has a byte encoding, a
/// partial decoding, and proofs that the two agree.
pub trait Attribute: View + Sized {
    /// The bytes that represent an abstract value.
    spec fn spec_encode(v: Self::V) -> Seq<u8>;

    /// The abstract value represented by the bytes, if any.
    spec fn spec_decode(b: Seq<u8>) -> Option<Self::V>;

    /// The exact number of bytes this codec accepts, if it is fixed-width.
    spec fn spec_fixed_width() -> Option<nat>;

    /// Serialize the value.
    fn get_bytes(&self) -> (r: Vec<u8>)
        ensures
            r@ == Self::spec_encode(self@),
    ;

    /// Deserialize a value from bytes; fails exactly when the bytes decode
    /// to no value.
    fn from_bytes(bytes: &[u8]) -> (r: Result<Self, Error>)
        ensures
            match Self::spec_decode(bytes@) {
                Some(v) => r matches Ok(x) && x@ == v,
                None => (r matches Err(e) && e == Error::CodecError),
            },
    ;

    /// The byte-level codec that stands for this type in the global
    /// registry; peer writes are validated against it.
    spec fn spec_codec_kind() -> CodecKind;

    /// The byte-level codec that stands for this type.
    fn codec_kind() -> (r: CodecKind)
        ensures
            r == Self::spec_codec_kind(),
    ;

    /// The registry codec accepts exactly the bytes this type decodes.
    proof fn lemma_codec_matches(b: Seq<u8>)
        ensures
            codec_accepts(Self::spec_codec_kind(), b) == (Self::spec_decode(b) is Some),
    ;

    /// A fresh value with the same abstract content, for publishing in an
    /// update notification while the cell keeps the original.
    fn duplicate(&self) -> (r: Self)
        ensures
            r@ == self@,
    ;

    /// Decoding an encoded value gives the value back.
    proof fn lemma_round_trip(v: Self::V)
        ensures
            Self::spec_decode(Self::spec_encode(v)) == Some(v),
    ;

    /// A fixed-width codec rejects bytes of any other length.
    proof fn lemma_fixed_width(b: Seq<u8>)
        ensures
            (Self::spec_fixed_width() matches Some(w) && b.len() != w)
                ==> Self::spec_decode(b) is None,
    ;
}

/// A `u8` value as a single byte.
#[derive(Debug, Clone, Copy, PartialEq, Eq, Structural)]
pub struct U8Attr(pub u8);

impl View for U8Attr {
    type V = u8;

    open spec fn view(&self) -> u8 {
        self.0
    }
}

impl Attribute for U8Attr {
    open spec fn spec_encode(v: u8) -> Seq<u8> {
        seq![v]
    }

    open spec fn spec_decode(b: Seq<u8>) -> Option<u8> {
        if b.len() == 1 {
            Some(b[0])
        } else {
            None
        }
    }

    open spec fn spec_fixed_width() -> Option<nat> {
        Some(1)
    }

    fn get_bytes(&self) -> (r: Vec<u8>) {
        let mut r: Vec<u8> = Vec::new();
        r.push(self.0);
        proof {
            assert(r@ =~= Self::spec_encode(self@));
        }
        r
    }

    fn from_bytes(bytes: &[u8]) -> (r: Result<Self, Error>) {
        if bytes.len() != 1 {
            Err(Error::CodecError)
        } else {
            Ok(U8Attr(bytes[0]))
        }
    }


    open spec fn spec_codec_kind() -> CodecKind {
        CodecKind::U8
    }

    fn codec_kind() -> (r: CodecKind) {
        CodecKind::U8
    }

    proof fn lemma_codec_matches(b: Seq<u8>) {
    }

    fn duplicate(&self) -> (r: Self) {
        *self
    }
    proof fn lemma_round_trip(v: u8) {
    }

    proof fn lemma_fixed_width(b: Seq<u8>) {
    }
}

/// A `u16` value as two little-endian bytes.
#[derive(Debug, Clone, Copy, PartialEq, Eq, Structural)]
pub struct U16Attr(pub u16);

impl View for U16Attr {
    type V = u16;

    open spec fn view(&self) -> u16 {
        self.0
    }
}

impl Attribute for U16Attr {
    open spec fn spec_encode(v: u16) -> Seq<u8> {
        spec_u16_to_le_bytes(v)
    }

    open spec fn spec_decode(b: Seq<u8>) -> Option<u16> {
        if b.len() == 2 {
            Some(spec_u16_from_le_bytes(b))
        } else {
            None
        }
    }

    open spec fn spec_fixed_width() -> Option<nat> {
        Some(2)
    }

    fn get_bytes(&self) -> (r: Vec<u8>) {
        u16_to_le_bytes(self.0)
    }

    fn from_bytes(bytes: &[u8]) -> (r: Result<Self, Error>) {
        if bytes.len() != 2 {
            proof {
                lemma_auto_spec_u16_to_from_le_bytes();
            }
            Err(Error::CodecError)
        } else {
            Ok(U16Attr(u16_from_le_bytes(bytes)))
        }
    }


    open spec fn spec_codec_kind() -> CodecKind {
        CodecKind::U16
    }

    fn codec_kind() -> (r: CodecKind) {
        CodecKind::U16
    }

    proof fn lemma_codec_matches(b: Seq<u8>) {
    }

    fn duplicate(&self) -> (r: Self) {
        *self
    }
    proof fn lemma_round_trip(v: u16) {
        lemma_auto_spec_u16_to_from_le_bytes();
    }

    proof fn lemma_fixed_width(b: Seq<u8>) {
    }
}

/// A `u32` value as four little-endian bytes.
#[derive(Debug, Clone, Copy, PartialEq, Eq, Structural)]
pub struct U32Attr(pub u32);

impl View for U32Attr {
    type V = u32;

    open spec fn view(&self) -> u32 {
        self.0
    }
}

impl Attribute for U32Attr {
    open spec fn spec_encode(v: u32) -> Seq<u8> {
        spec_u32_to_le_bytes(v)
    }

    open spec fn spec_decode(b: Seq<u8>) -> Option<u32> {
        if b.len() == 4 {
            Some(spec_u32_from_le_bytes(b))
        } else {
            None
        }
    }

    open spec fn spec_fixed_width() -> Option<nat> {
        Some(4)
    }

    fn get_bytes(&self) -> (r: Vec<u8>) {
        u32_to_le_bytes(self.0)
    }

    fn from_bytes(bytes: &[u8]) -> (r: Result<Self, Error>) {
        if bytes.len() != 4 {
            Err(Error::CodecError)
        } else {
            Ok(U32Attr(u32_from_le_bytes(bytes)))
        }
    }


    open spec fn spec_codec_kind() -> CodecKind {
        CodecKind::U32
    }

    fn codec_kind() -> (r: CodecKind) {
        CodecKind::U32
    }

    proof fn lemma_codec_matches(b: Seq<u8>) {
    }

    fn duplicate(&self) -> (r: Self) {
        *self
    }
    proof fn lemma_round_trip(v: u32) {
        lemma_auto_spec_u32_to_from_le_bytes();
    }

    proof fn lemma_fixed_width(b: Seq<u8>) {
    }
}

/// An `i8` value as its two's-complement byte.
#[derive(Debug, Clone, Copy, PartialEq, Eq, Structural)]
pub struct I8Attr(pub i8);

impl View for I8Attr {
    type V = i8;

    open spec fn view(&self) -> i8 {
        self.0
    }
}

impl Attribute for I8Attr {
    open spec fn spec_encode(v: i8) -> Seq<u8> {
        seq![v as u8]
    }

    open spec fn spec_decode(b: Seq<u8>) -> Option<i8> {
        if b.len() == 1 {
            Some(b[0] as i8)
        } else {
            None
        }
    }

    open spec fn spec_fixed_width() -> Option<nat> {
        Some(1)
    }

    fn get_bytes(&self) -> (r: Vec<u8>) {
        let mut r: Vec<u8> = Vec::new();
        r.push(self.0 as u8);
        proof {
            assert(r@ =~= Self::spec_encode(self@));
        }
        r
    }

    fn from_bytes(bytes: &[u8]) -> (r: Result<Self, Error>) {
        if bytes.len() != 1 {
            Err(Error::CodecError)
        } else {
            Ok(I8Attr(bytes[0] as i8))
        }
    }


    open spec fn spec_codec_kind() -> CodecKind {
        CodecKind::I8
    }

    fn codec_kind() -> (r: CodecKind) {
        CodecKind::I8
    }

    proof fn lemma_codec_matches(b: Seq<u8>) {
    }

    fn duplicate(&self) -> (r: Self) {
        *self
    }
    proof fn lemma_round_trip(v: i8) {
        assert((v as u8) as i8 == v) by (bit_vector);
    }

    proof fn lemma_fixed_width(b: Seq<u8>) {
    }
}

/// An `i16` value as two little-endian two's-complement bytes.
#[derive(Debug, Clone, Copy, PartialEq, Eq, Structural)]
pub struct I16Attr(pub i16);

impl View for I16Attr {
    type V = i16;

    open spec fn view(&self) -> i16 {
        self.0
    }
}

impl Attribute for I16Attr {
    open spec fn spec_encode(v: i16) -> Seq<u8> {
        spec_u16_to_le_bytes(v as u16)
    }

    open spec fn spec_decode(b: Seq<u8>) -> Option<i16> {
        if b.len() == 2 {
            Some(spec_u16_from_le_bytes(b) as i16)
        } else {
            None
        }
    }

    open spec fn spec_fixed_width() -> Option<nat> {
        Some(2)
    }

    fn get_bytes(&self) -> (r: Vec<u8>) {
        u16_to_le_bytes(self.0 as u16)
    }

    fn from_bytes(bytes: &[u8]) -> (r: Result<Self, Error>) {
        if bytes.len() != 2 {
            Err(Error::CodecError)
        } else {
            Ok(I16Attr(u16_from_le_bytes(bytes) as i16))
        }
    }


    open spec fn spec_codec_kind() -> CodecKind {
        CodecKind::I16
    }

    fn codec_kind() -> (r: CodecKind) {
        CodecKind::I16
    }

    proof fn lemma_codec_matches(b: Seq<u8>) {
    }

    fn duplicate(&self) -> (r: Self) {
        *self
    }
    proof fn lemma_round_trip(v: i16) {
        lemma_auto_spec_u16_to_from_le_bytes();
        assert((v as u16) as i16 == v) by (bit_vector);
    }

    proof fn lemma_fixed_width(b: Seq<u8>) {
    }
}

/// An `i32` value as four little-endian two's-complement bytes.
#[derive(Debug, Clone, Copy, PartialEq, Eq, Structural)]
pub struct I32Attr(pub i32);

impl View for I32Attr {
    type V = i32;

    open spec fn view(&self) -> i32 {
        self.0
    }
}

impl Attribute for I32Attr {
    open spec fn spec_encode(v: i32) -> Seq<u8> {
        spec_u32_to_le_bytes(v as u32)
    }

    open spec fn spec_decode(b: Seq<u8>) -> Option<i32> {
        if b.len() == 4 {
            Some(spec_u32_from_le_bytes(b) as i32)
        } else {
            None
        }
    }

    open spec fn spec_fixed_width() -> Option<nat> {
        Some(4)
    }

    fn get_bytes(&self) -> (r: Vec<u8>) {
        u32_to_le_bytes(self.0 as u32)
    }

    fn from_bytes(bytes: &[u8]) -> (r: Result<Self, Error>) {
        if bytes.len() != 4 {
            Err(Error::CodecError)
        } else {
            Ok(I32Attr(u32_from_le_bytes(bytes) as i32))
        }
    }


    open spec fn spec_codec_kind() -> CodecKind {
        CodecKind::I32
    }

    fn codec_kind() -> (r: CodecKind) {
        CodecKind::I32
    }

    proof fn lemma_codec_matches(b: Seq<u8>) {
    }

    fn duplicate(&self) -> (r: Self) {
        *self
    }
    proof fn lemma_round_trip(v: i32) {
        lemma_auto_spec_u32_to_from_le_bytes();
        assert((v as u32) as i32 == v) by (bit_vector);
    }

    proof fn lemma_fixed_width(b: Seq<u8>) {
    }
}

/// A boolean as one byte: zero is false, anything else is true; encoded as
/// exactly zero or one.
#[derive(Debug, Clone, Copy, PartialEq, Eq, Structural)]
pub struct BoolAttr(pub bool);

impl View for BoolAttr {
    type V = bool;

    open spec fn view(&self) -> bool {
        self.0
    }
}

impl Attribute for BoolAttr {
    open spec fn spec_encode(v: bool) -> Seq<u8> {
        seq![if v { 1u8 } else { 0u8 }]
    }

    open spec fn spec_decode(b: Seq<u8>) -> Option<bool> {
        if b.len() == 1 {
            Some(b[0] != 0)
        } else {
            None
        }
    }

    open spec fn spec_fixed_width() -> Option<nat> {
        Some(1)
    }

    fn get_bytes(&self) -> (r: Vec<u8>) {
        let mut r: Vec<u8> = Vec::new();
        if self.0 {
            r.push(1);
        } else {
            r.push(0);
        }
        proof {
            assert(r@ =~= Self::spec_encode(self@));
        }
        r
    }

    fn from_bytes(bytes: &[u8]) -> (r: Result<Self, Error>) {
        if bytes.len() != 1 {
            Err(Error::CodecError)
        } else {
            Ok(BoolAttr(bytes[0] != 0))
        }
    }


    open spec fn spec_codec_kind() -> CodecKind {
        CodecKind::Bool
    }

    fn codec_kind() -> (r: CodecKind) {
        CodecKind::Bool
    }

    proof fn lemma_codec_matches(b: Seq<u8>) {
    }

    fn duplicate(&self) -> (r: Self) {
        *self
    }
    proof fn lemma_round_trip(v: bool) {
    }

    proof fn lemma_fixed_width(b: Seq<u8>) {
    }
}

/// Builds an owned string from UTF-8 bytes.
///
/// Relies on `String::from_utf8`: it succeeds exactly on bytes that are a
/// valid UTF-8 encoding, and the characters of the returned string are the
/// decoding of those bytes.
#[verifier::external_body]
fn string_from_utf8(bytes: Vec<u8>) -> (r: Result<String, Error>)
    ensures
        r is Ok <==> valid_utf8(bytes@),
        r matches Ok(s) ==> s@ == decode_utf8(bytes@),
        r matches Err(e) ==> e == Error::CodecError,
{
    String::from_utf8(bytes).map_err(|_| Error::CodecError)
}

/// A string as its UTF-8 encoding, without a terminator.
#[derive(Debug, Clone, PartialEq, Eq)]
pub struct StringAttr(pub String);

impl View for StringAttr {
    type V = Seq<char>;

    open spec fn view(&self) -> Seq<char> {
        self.0@
    }
}

impl Attribute for StringAttr {
    open spec fn spec_encode(v: Seq<char>) -> Seq<u8> {
        encode_utf8(v)
    }

    open spec fn spec_decode(b: Seq<u8>) -> Option<Seq<char>> {
        if valid_utf8(b) {
            Some(decode_utf8(b))
        } else {
            None
        }
    }

    open spec fn spec_fixed_width() -> Option<nat> {
        None
    }

    fn get_bytes(&self) -> (r: Vec<u8>) {
        self.0.as_str().as_bytes_vec()
    }

    fn from_bytes(bytes: &[u8]) -> (r: Result<Self, Error>) {
        match string_from_utf8(slice_to_vec(bytes)) {
            Ok(s) => Ok(StringAttr(s)),
            Err(e) => Err(e),
        }
    }

    open spec fn spec_codec_kind() -> CodecKind {
        CodecKind::Utf8
    }

    fn codec_kind() -> (r: CodecKind) {
        CodecKind::Utf8
    }

    proof fn lemma_codec_matches(b: Seq<u8>) {
    }

    fn duplicate(&self) -> (r: Self) {
        StringAttr(self.0.clone())
    }

    proof fn lemma_round_trip(v: Seq<char>) {
        encode_utf8_valid_utf8(v);
        encode_utf8_decode_utf8(v);
    }

    proof fn lemma_fixed_width(b: Seq<u8>) {
    }
}

/// Raw bytes, carried through unchanged.
#[derive(Debug, Clone, PartialEq, Eq)]
pub struct BytesAttr(pub Vec<u8>);

impl View for BytesAttr {
    type V = Seq<u8>;

    open spec fn view(&self) -> Seq<u8> {
        self.0@
    }
}

impl Attribute for BytesAttr {
    open spec fn spec_encode(v: Seq<u8>) -> Seq<u8> {
        v
    }

    open spec fn spec_decode(b: Seq<u8>) -> Option<Seq<u8>> {
        Some(b)
    }

    open spec fn spec_fixed_width() -> Option<nat> {
        None
    }

    fn get_bytes(&self) -> (r: Vec<u8>) {
        slice_to_vec(self.0.as_slice())
    }

    fn from_bytes(bytes: &[u8]) -> (r: Result<Self, Error>) {
        Ok(BytesAttr(slice_to_vec(bytes)))
    }

    open spec fn spec_codec_kind() -> CodecKind {
        CodecKind::Bytes
    }

    fn codec_kind() -> (r: CodecKind) {
        CodecKind::Bytes
    }

    proof fn lemma_codec_matches(b: Seq<u8>) {
    }

    fn duplicate(&self) -> (r: Self) {
        BytesAttr(slice_to_vec(self.0.as_slice()))
    }

    proof fn lemma_round_trip(v: Seq<u8>) {
    }

    proof fn lemma_fixed_width(b: Seq<u8>) {
    }
}

/// A fresh byte vector with the same contents.
pub fn copy_bytes(v: &Vec<u8>) -> (r: Vec<u8>)
    ensures
        r@ == v@,
{
    slice_to_vec(v.as_slice())
}

/// The codec a byte-level attribute cell validates writes against.  Peers
/// write raw bytes; the cell accepts them exactly when they decode under its
/// codec.
#[derive(Debug, Clone, Copy, PartialEq, Eq, Structural)]
pub enum CodecKind {
    U8,
    U16,
    U32,
    I8,
    I16,
    I32,
    Bool,
    Utf8,
    Bytes,
}

/// Whether bytes decode under the given codec.
pub open spec fn codec_accepts(kind: CodecKind, b: Seq<u8>) -> bool {
    match kind {
        CodecKind::U8 => b.len() == 1,
        CodecKind::U16 => b.len() == 2,
        CodecKind::U32 => b.len() == 4,
        CodecKind::I8 => b.len() == 1,
        CodecKind::I16 => b.len() == 2,
        CodecKind::I32 => b.len() == 4,
        CodecKind::Bool => b.len() == 1,
        CodecKind::Utf8 => valid_utf8(b),
        CodecKind::Bytes => true,
    }
}

/// Decide whether bytes decode under the given codec.
pub fn codec_check(kind: CodecKind, b: &[u8]) -> (r: bool)
    ensures
        r == codec_accepts(kind, b@),
{
    match kind {
        CodecKind::U8 => b.len() == 1,
        CodecKind::U16 => b.len() == 2,
        CodecKind::U32 => b.len() == 4,
        CodecKind::I8 => b.len() == 1,
        CodecKind::I16 => b.len() == 2,
        CodecKind::I32 => b.len() == 4,
        CodecKind::Bool => b.len() == 1,
        CodecKind::Utf8 => string_from_utf8(slice_to_vec(b)).is_ok(),
        CodecKind::Bytes => true,
    }
}

} // verus!
