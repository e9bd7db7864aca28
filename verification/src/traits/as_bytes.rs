use vstd::prelude::*;
use vstd::slice::slice_to_vec;
use vstd::string::StringSliceAdditionalSpecFns;
use vstd::utf8::encode_utf8;

verus! {

/// Conversion of a value into the owned byte vector it stands for: a byte
/// container copies its bytes, text is encoded as UTF-8. `bytes_view` says
/// which bytes those are, and the conversion returns exactly them.
pub trait ConvertAsBytes {
    /// The byte sequence this value stands for.
    spec fn bytes_view(&self) -> Seq<u8>;

    /// Copies the value into an owned byte vector.
    fn convert_as_bytes(&self) -> (r: Vec<u8>)
        ensures
            r@ == self.bytes_view(),
    ;
}

impl ConvertAsBytes for Vec<u8> {
    open spec fn bytes_view(&self) -> Seq<u8> {
        self@
    }

    fn convert_as_bytes(&self) -> (r: Vec<u8>) {
        slice_to_vec(self.as_slice())
    }
}

impl ConvertAsBytes for &[u8] {
    open spec fn bytes_view(&self) -> Seq<u8> {
        (*self)@
    }

    fn convert_as_bytes(&self) -> (r: Vec<u8>) {
        slice_to_vec(*self)
    }
}

impl ConvertAsBytes for &str {
    open spec fn bytes_view(&self) -> Seq<u8> {
        encode_utf8((*self)@)
    }

    fn convert_as_bytes(&self) -> (r: Vec<u8>) {
        slice_to_vec(self.as_bytes())
    }
}

impl ConvertAsBytes for String {
    open spec fn bytes_view(&self) -> Seq<u8> {
        encode_utf8(self@)
    }

    fn convert_as_bytes(&self) -> (r: Vec<u8>) {
        slice_to_vec(self.as_str().as_bytes())
    }
}

impl ConvertAsBytes for u8 {
    open spec fn bytes_view(&self) -> Seq<u8> {
        seq![*self]
    }

    fn convert_as_bytes(&self) -> (r: Vec<u8>) {
        let mut r: Vec<u8> = Vec::new();
        r.push(*self);
        proof {
            assert(r@ =~= seq![*self]);
        }
        r
    }
}

impl<const N: usize> ConvertAsBytes for [u8; N] {
    open spec fn bytes_view(&self) -> Seq<u8> {
        self@
    }

    fn convert_as_bytes(&self) -> (r: Vec<u8>) {
        slice_to_vec(self.as_slice())
    }
}

} // verus!
