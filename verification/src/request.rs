//! The argument model and the request builder: command-line input becomes
//! a validated request description, and that becomes the configuration of
//! the outgoing program-accounts call.

use vstd::prelude::*;

use crate::address::{base58_decode, base58_decode_of, Address};
use crate::errors::AppError;
use crate::filter::{compile_filters, filter_matches, spec_parse_filter, FilterSpec};
use crate::numparse::{dec_value, is_dec_seq};
use crate::strutil::{find_colon, first_colon, left_of_colon, right_of_colon};

verus! {

/// A server-side window on each account's payload.
#[derive(Clone, Copy, Debug)]
pub struct SliceSpec {
    pub offset: usize,
    pub length: usize,
}

/// The command-line input, as plain values.
pub struct CliArgs {
    pub program: String,
    pub url: String,
    pub parser: Option<String>,
    pub data: Option<String>,
    pub filter: Vec<String>,
    pub size: Option<u64>,
    pub output: Option<String>,
}

/// A validated request description. `decoder_name` and `slice` are
/// mutually exclusive; the compiled filters keep user order, with the
/// size filter held apart until the request is assembled.
#[derive(Debug)]
pub struct RequestDescription {
    pub program: Address,
    pub program_text: String,
    pub url: String,
    pub decoder_name: Option<String>,
    pub slice: Option<SliceSpec>,
    pub filters: Vec<FilterSpec>,
    pub size_filter: Option<u64>,
    pub output_path: Option<String>,
}

impl RequestDescription {
    pub open spec fn wf(&self) -> bool {
        &&& !(self.decoder_name is Some && self.slice is Some)
        &&& forall|i: int| 0 <= i < self.filters@.len() ==> (#[trigger] self.filters@[i]).wf()
    }
}

/// What parsing an `offset:length` slice text yields.
pub open spec fn spec_parse_slice(s: Seq<char>) -> Option<(int, int)> {
    if first_colon(s) >= s.len() {
        None
    } else if is_dec_seq(left_of_colon(s)) && dec_value(left_of_colon(s)) <= usize::MAX
        && is_dec_seq(right_of_colon(s)) && dec_value(right_of_colon(s)) <= usize::MAX {
        Some((dec_value(left_of_colon(s)), dec_value(right_of_colon(s))))
    } else {
        None
    }
}

/// Parses an `offset:length` slice text.
pub fn parse_slice(s: &str) -> (r: Option<SliceSpec>)
    ensures
        r is Some <==> spec_parse_slice(s@) is Some,
        r matches Some(sl) ==> spec_parse_slice(s@) == Some((sl.offset as int, sl.length as int)),
{
    let n = s.unicode_len();
    let ci = match find_colon(s) {
        Some(i) => i,
        None => {
            return None;
        },
    };
    let left = s.substring_char(0, ci);
    let right = s.substring_char(ci + 1, n);
    proof {
        assert(left@ =~= left_of_colon(s@));
        assert(right@ =~= right_of_colon(s@));
    }
    let offset = match crate::numparse::parse_usize(left) {
        Some(o) => o,
        None => {
            return None;
        },
    };
    let length = match crate::numparse::parse_usize(right) {
        Some(l) => l,
        None => {
            return None;
        },
    };
    Some(SliceSpec { offset, length })
}

/// The fields of a request description, tied back to the arguments they
/// came from.
pub open spec fn desc_matches(d: RequestDescription, program: String, url: String, parser: Option<
    String,
>, data: Option<String>, filter: Seq<String>, size: Option<u64>, output: Option<String>) -> bool {
    &&& base58_decode_of(program@) == Some(d.program@)
    &&& d.program_text@ == program@
    &&& d.url@ == url@
    &&& (d.decoder_name is Some <==> parser is Some)
    &&& (parser matches Some(p) ==> (d.decoder_name matches Some(q) && q@ == p@))
    &&& (d.slice is Some <==> data is Some)
    &&& (data matches Some(t) ==> (d.slice matches Some(sl) && spec_parse_slice(t@) == Some(
        (sl.offset as int, sl.length as int),
    )))
    &&& d.size_filter == size
    &&& (d.output_path is Some <==> output is Some)
    &&& (output matches Some(p) ==> (d.output_path matches Some(q) && q@ == p@))
    &&& d.filters@.len() == filter.len()
    &&& (forall|i: int|
        #![trigger d.filters@[i]]
        0 <= i < filter.len() ==> filter_matches(d.filters@[i], filter[i]@))
}

/// Validates the command-line input and builds the request description.
///
/// The conflict between `--parser` and `--data` is rejected here, before
/// anything touches the network; so is a malformed program address, a
/// malformed slice, and every filter error, first one first.
pub fn build_request(args: CliArgs) -> (r: Result<RequestDescription, AppError>)
    ensures
        args.parser is Some && args.data is Some ==> r == Err::<RequestDescription, AppError>(
            AppError::InvalidArguments,
        ),
        r matches Ok(d) ==> !(args.parser is Some && args.data is Some) && d.wf() && desc_matches(
            d,
            args.program,
            args.url,
            args.parser,
            args.data,
            args.filter@,
            args.size,
            args.output,
        ),
        r matches Err(e) ==> (e == AppError::InvalidArguments ==> (args.parser is Some
            && args.data is Some) || base58_decode_of(args.program@) is None || (
        args.data matches Some(t) && spec_parse_slice(t@) is None)),
        r is Err && !(args.parser is Some && args.data is Some) && base58_decode_of(args.program@)
            is Some && (args.data matches Some(t) ==> spec_parse_slice(t@) is Some) ==> (
        r matches Err(e) && exists|i: int|
            0 <= i < args.filter@.len() && ((#[trigger] spec_parse_filter(args.filter@[i]@))
                matches Err(e2) && e2 == e) && (forall|j: int|
                0 <= j < i ==> spec_parse_filter(#[trigger] args.filter@[j]@) is Ok)),
        r is Ok <==> !(args.parser is Some && args.data is Some) && base58_decode_of(args.program@)
            is Some && (args.data matches Some(t) ==> spec_parse_slice(t@) is Some) && (forall|
            i: int,
        |
            0 <= i < args.filter@.len() ==> (#[trigger] spec_parse_filter(args.filter@[i]@))
                is Ok),
{
    let CliArgs { program, url, parser, data, filter, size, output } = args;
    if parser.is_some() && data.is_some() {
        return Err(AppError::InvalidArguments);
    }
    let program_addr = match base58_decode(program.as_str()) {
        Some(a) => a,
        None => {
            return Err(AppError::InvalidArguments);
        },
    };
    let slice: Option<SliceSpec> = match &data {
        Some(t) => {
            match parse_slice(t.as_str()) {
                Some(sl) => Some(sl),
                None => {
                    return Err(AppError::InvalidArguments);
                },
            }
        },
        None => None,
    };
    let filters = match compile_filters(&filter) {
        Ok(v) => v,
        Err(e) => {
            return Err(e);
        },
    };
    proof {
        assert forall|i: int| 0 <= i < filter@.len() implies (#[trigger] spec_parse_filter(
            filter@[i]@,
        )) is Ok by {
            assert(filter_matches(filters@[i], filter@[i]@));
        }
    }
    Ok(
        RequestDescription {
            program: program_addr,
            program_text: program,
            url,
            decoder_name: parser,
            slice,
            filters,
            size_filter: size,
            output_path: output,
        },
    )
}

} // verus!
