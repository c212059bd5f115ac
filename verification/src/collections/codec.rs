//! The codec contract: how an element becomes bytes for the store, and how
//! bytes become an element again.
//!
//! The bytes are the SCALE encoding of the element, and nothing but it: the
//! queues add no framing, no length prefix and no tag of their own.

use vstd::prelude::*;

verus! {

/// An element type with a canonical byte encoding.
///
/// The encoding is a function of the element's value alone, and decoding
/// the encoding of a representable value gives that value back. Decoding
/// reads what it needs from the front of the bytes and ignores the rest.
pub trait Encodable: Sized + View {
    /// The values that have an encoding.
    spec fn representable(value: Self::V) -> bool;

    /// The canonical bytes of `value`.
    spec fn encoding(value: Self::V) -> Seq<u8>;

    /// The value that `bytes` start with, if they start with a valid
    /// encoding.
    spec fn decoding(bytes: Seq<u8>) -> Option<Self::V>;

    /// Decoding undoes encoding.
    proof fn lemma_round_trip(value: Self::V)
        requires
            Self::representable(value),
        ensures
            Self::decoding(Self::encoding(value)) == Some(value),
    ;

    /// Whether this element has an encoding.
    fn is_representable(&self) -> (yes: bool)
        ensures
            yes == Self::representable(self@),
    ;

    /// The canonical bytes of this element.
    fn to_bytes(&self) -> (bytes: Vec<u8>)
        requires
            Self::representable(self@),
        ensures
            bytes@ == Self::encoding(self@),
    ;

    /// The element that `bytes` start with; the decoder's error where they
    /// start with no valid encoding.
    fn from_bytes(bytes: &[u8]) -> (r: Result<Self, parity_scale_codec::Error>)
        ensures
            r matches Ok(element) ==> Self::decoding(bytes@) == Some(element@),
            r is Err <==> Self::decoding(bytes@) is None,
    ;
}

/// The codec as a capability of a queue: a durable queue of `T` is also the
/// codec for `T`, under a name that tells the kind of queue.
pub trait CodecSerialization<T: Clone + Encodable> {
    /// The name of this kind of queue; it never changes.
    spec fn kind_name() -> Seq<char>;

    /// A stable, readable name for this kind of queue.
    fn name(&self) -> (n: &'static str)
        ensures
            n@ == Self::kind_name(),
    ;

    /// The bytes under which `element` is stored.
    fn encode(&self, element: &Box<T>) -> (bytes: Vec<u8>)
        requires
            T::representable(element@),
        ensures
            bytes@ == T::encoding(element@),
    {
        (**element).to_bytes()
    }

    /// The element stored as `encoded_element`, or the decoder's error.
    fn decode(&self, encoded_element: &Vec<u8>) -> (r: Result<Box<T>, parity_scale_codec::Error>)
        ensures
            r matches Ok(element) ==> T::decoding(encoded_element@) == Some(element@),
            r is Err <==> T::decoding(encoded_element@) is None,
    {
        match T::from_bytes(encoded_element.as_slice()) {
            Ok(element) => Ok(Box::new(element)),
            Err(e) => Err(e),
        }
    }
}

} // verus!
