//! Application data as it is received: the payload of a record, in the
//! buffer it arrived in.

use vstd::prelude::*;
use crate::buffer::CryptoBuffer;
use crate::record::RecordHeader;

verus! {

/// The payload of an application data record together with the header of
/// the record. Its view is the bytes of the payload.
pub struct ApplicationData<'a> {
    pub data: CryptoBuffer<'a>,
    pub header: RecordHeader,
}

impl<'a> View for ApplicationData<'a> {
    type V = Seq<u8>;

    open spec fn view(&self) -> Seq<u8> {
        self.data@
    }
}

impl<'a> ApplicationData<'a> {
    /// The application data with the payload `data` and the header `header`.
    pub fn new(data: CryptoBuffer<'a>, header: RecordHeader) -> (r: Self)
        ensures
            r@ == data@,
            r.header == header,
    {
        ApplicationData { data, header }
    }

    /// The bytes of the payload.
    pub fn as_slice(&self) -> (r: &[u8])
        ensures
            r@ == self@,
    {
        self.data.as_slice()
    }
}

} // verus!
