//! The RPC request builder: a request description becomes the
//! program-accounts call configuration, with fixed commitment, encoding
//! and timeout.

use vstd::prelude::*;
use vstd::slice::slice_to_vec;

use crate::request::{RequestDescription, SliceSpec};

verus! {

/// How fresh the data the endpoint answers from must be. Always the
/// least strict level: the caller wants breadth.
#[derive(Clone, Copy, Debug, PartialEq, Eq, Structural)]
pub enum Commitment {
    Processed,
}

/// The wire form asked of the server for each payload.
#[derive(Clone, Copy, Debug, PartialEq, Eq, Structural)]
pub enum PayloadEncoding {
    Base64Zstd,
}

/// One filter of the outgoing request.
pub enum RpcFilter {
    /// Keep accounts whose payload holds `bytes` at `offset`.
    Memcmp { offset: usize, bytes: Vec<u8> },
    /// Keep accounts whose payload is exactly this long.
    DataSize(u64),
}

/// The client-side timeout, in seconds: program-accounts responses can
/// be large and slow.
pub const RPC_TIMEOUT_SECS: u64 = 900;

/// The full configuration of one program-accounts call.
pub struct RpcRequestConfig {
    pub filters: Option<Vec<RpcFilter>>,
    pub data_slice: Option<SliceSpec>,
    pub encoding: PayloadEncoding,
    pub commitment: Commitment,
    pub timeout_secs: u64,
}

/// Assembles the call configuration from a request description.
///
/// The compiled filters keep user-specified order; the size filter, when
/// given, is appended after them; no filters at all are omitted rather
/// than sent empty.
pub fn build_rpc_config(desc: &RequestDescription) -> (r: RpcRequestConfig)
    ensures
        r.commitment == Commitment::Processed,
        r.encoding == PayloadEncoding::Base64Zstd,
        r.timeout_secs == RPC_TIMEOUT_SECS,
        r.data_slice is Some <==> desc.slice is Some,
        desc.slice matches Some(sl) ==> (r.data_slice matches Some(sl2) && sl2.offset == sl.offset
            && sl2.length == sl.length),
        desc.filters@.len() == 0 && desc.size_filter is None ==> r.filters is None,
        desc.filters@.len() > 0 || desc.size_filter is Some ==> r.filters is Some,
        r.filters matches Some(v) ==> v@.len() == desc.filters@.len() + (if desc.size_filter
            is Some {
            1int
        } else {
            0int
        }),
        r.filters matches Some(v) ==> (forall|i: int|
            0 <= i < desc.filters@.len() ==> ((#[trigger] v@[i]) matches RpcFilter::Memcmp {
                offset,
                bytes,
            } && offset == desc.filters@[i].offset && bytes@ == desc.filters@[i].pattern@)),
        r.filters matches Some(v) ==> (desc.size_filter matches Some(n) ==> v@.last()
            == RpcFilter::DataSize(n)),
{
    let mut filters: Vec<RpcFilter> = Vec::new();
    let mut i: usize = 0;
    while i < desc.filters.len()
        invariant
            i <= desc.filters@.len(),
            filters@.len() == i,
            forall|k: int|
                0 <= k < i ==> ((#[trigger] filters@[k]) matches RpcFilter::Memcmp {
                    offset,
                    bytes,
                } && offset == desc.filters@[k].offset && bytes@ == desc.filters@[k].pattern@),
        decreases desc.filters@.len() - i,
    {
        let f = &desc.filters[i];
        let bytes = slice_to_vec(f.pattern.as_slice());
        filters.push(RpcFilter::Memcmp { offset: f.offset, bytes });
        i = i + 1;
    }
    let ghost pre = filters@;
    match desc.size_filter {
        Some(n) => {
            filters.push(RpcFilter::DataSize(n));
            proof {
                assert(filters@.last() == RpcFilter::DataSize(n));
                assert forall|k: int| 0 <= k < desc.filters@.len() implies ((
                #[trigger] filters@[k]) matches RpcFilter::Memcmp { offset, bytes } && offset
                    == desc.filters@[k].offset && bytes@ == desc.filters@[k].pattern@) by {
                    assert(filters@[k] == pre[k]);
                    assert(pre[k] matches RpcFilter::Memcmp { offset, bytes } && offset
                        == desc.filters@[k].offset && bytes@ == desc.filters@[k].pattern@);
                }
            }
        },
        None => {},
    }
    let filters_opt: Option<Vec<RpcFilter>> = if filters.len() == 0 {
        None
    } else {
        Some(filters)
    };
    let data_slice: Option<SliceSpec> = match &desc.slice {
        Some(sl) => Some(SliceSpec { offset: sl.offset, length: sl.length }),
        None => None,
    };
    RpcRequestConfig {
        filters: filters_opt,
        data_slice,
        encoding: PayloadEncoding::Base64Zstd,
        commitment: Commitment::Processed,
        timeout_secs: RPC_TIMEOUT_SECS,
    }
}

} // verus!
