//! The filter compiler: textual `offset:value` pairs become byte-pattern
//! filters for the outgoing request.

use vstd::prelude::*;
use vstd::slice::slice_to_vec;

use crate::address::{base58_decode, base58_decode_of};
use crate::errors::AppError;
use crate::hexcode::{hex_bytes, hex_decode, is_hex_seq};
use crate::numparse::{dec_value, is_dec_seq, parse_usize};
use crate::strutil::{find_colon, first_colon, left_of_colon, right_of_colon};

verus! {

/// A memory-compare filter: keep accounts whose payload equals `pattern`
/// at byte `offset`.
#[derive(Debug)]
pub struct FilterSpec {
    pub offset: usize,
    pub pattern: Vec<u8>,
}

impl FilterSpec {
    /// A compiled filter always carries at least one pattern byte.
    pub open spec fn wf(&self) -> bool {
        self.pattern@.len() >= 1
    }
}

/// Whether a filter value names its bytes in hex.
pub open spec fn has_hex_prefix(v: Seq<char>) -> bool {
    v.len() >= 2 && v[0] == '0' && v[1] == 'x'
}

/// What parsing an `offset:value` filter text yields: the offset and the
/// pattern bytes, or the error the text earns.
///
/// The text splits at its first colon. The left part must be a decimal
/// offset. A right part led by `0x` must go on with non-empty
/// even-length hex; any other right part must be a base58 address, whose
/// 32 bytes become the pattern.
pub open spec fn spec_parse_filter(s: Seq<char>) -> Result<(int, Seq<u8>), AppError> {
    if first_colon(s) >= s.len() {
        Err(AppError::BadFilterSyntax)
    } else if !(is_dec_seq(left_of_colon(s)) && dec_value(left_of_colon(s)) <= usize::MAX) {
        Err(AppError::BadFilterSyntax)
    } else if has_hex_prefix(right_of_colon(s)) {
        if is_hex_seq(right_of_colon(s).skip(2)) && right_of_colon(s).skip(2).len() > 0 {
            Ok((dec_value(left_of_colon(s)), hex_bytes(right_of_colon(s).skip(2))))
        } else {
            Err(AppError::BadHex)
        }
    } else {
        match base58_decode_of(right_of_colon(s)) {
            Some(b) => Ok((dec_value(left_of_colon(s)), b)),
            None => Err(AppError::BadAddress),
        }
    }
}

/// A compiled filter agrees with what parsing the text yields.
pub open spec fn filter_matches(f: FilterSpec, s: Seq<char>) -> bool {
    spec_parse_filter(s) matches Ok(p) && f.offset == p.0 && f.pattern@ == p.1 && f.wf()
}

/// Parses one `offset:value` filter text.
pub fn parse_filter(s: &str) -> (r: Result<FilterSpec, AppError>)
    ensures
        r matches Ok(f) ==> filter_matches(f, s@),
        r matches Err(e) ==> (spec_parse_filter(s@) matches Err(e2) && e == e2),
{
    let n = s.unicode_len();
    let ci = match find_colon(s) {
        Some(i) => i,
        None => {
            return Err(AppError::BadFilterSyntax);
        },
    };
    let left = s.substring_char(0, ci);
    let right = s.substring_char(ci + 1, n);
    proof {
        assert(left@ =~= left_of_colon(s@));
        assert(right@ =~= right_of_colon(s@));
    }
    let off = match parse_usize(left) {
        Some(o) => o,
        None => {
            return Err(AppError::BadFilterSyntax);
        },
    };
    let rn = right.unicode_len();
    if rn >= 2 && right.get_char(0) == '0' && right.get_char(1) == 'x' {
        let hexpart = right.substring_char(2, rn);
        proof {
            assert(hexpart@ =~= right_of_colon(s@).skip(2));
        }
        match hex_decode(hexpart) {
            Some(v) => {
                if v.len() == 0 {
                    assert(right_of_colon(s@).skip(2).len() == 0);
                    Err(AppError::BadHex)
                } else {
                    Ok(FilterSpec { offset: off, pattern: v })
                }
            },
            None => Err(AppError::BadHex),
        }
    } else {
        match base58_decode(right) {
            Some(a) => {
                let pattern = slice_to_vec(a.bytes.as_slice());
                Ok(FilterSpec { offset: off, pattern })
            },
            None => Err(AppError::BadAddress),
        }
    }
}

/// Compiles a list of filter texts, in order; the first bad text decides
/// the error.
pub fn compile_filters(texts: &Vec<String>) -> (r: Result<Vec<FilterSpec>, AppError>)
    ensures
        r matches Ok(v) ==> v@.len() == texts@.len() && (forall|i: int|
            #![trigger v@[i]]
            0 <= i < texts@.len() ==> filter_matches(v@[i], texts@[i]@)),
        r matches Err(e) ==> exists|i: int|
            0 <= i < texts@.len() && ((#[trigger] spec_parse_filter(texts@[i]@)) matches Err(e2)
                && e2 == e) && (forall|j: int|
                0 <= j < i ==> spec_parse_filter(#[trigger] texts@[j]@) is Ok),
{
    let mut out: Vec<FilterSpec> = Vec::new();
    let mut i: usize = 0;
    while i < texts.len()
        invariant
            i <= texts@.len(),
            out@.len() == i,
            forall|k: int|
                #![trigger out@[k]]
                0 <= k < i ==> filter_matches(out@[k], texts@[k]@),
        decreases texts@.len() - i,
    {
        let ghost pre = out@;
        let t = &texts[i];
        let s = t.as_str();
        proof {
            assert(t@ == texts@[i as int]@);
            assert(s@ == texts@[i as int]@);
        }
        match parse_filter(s) {
            Ok(f) => {
                out.push(f);
                proof {
                    assert(filter_matches(f, texts@[i as int]@));
                    assert forall|k: int| #![trigger out@[k]] 0 <= k < i + 1 implies
                        filter_matches(out@[k], texts@[k]@) by {
                        if k < i {
                            assert(out@[k] == pre[k]);
                            assert(filter_matches(pre[k], texts@[k]@));
                        } else {
                            assert(out@[k] == f);
                        }
                    }
                }
            },
            Err(e) => {
                proof {
                    assert(spec_parse_filter(texts@[i as int]@) matches Err(e2) && e2 == e);
                    assert forall|j: int| 0 <= j < i implies spec_parse_filter(
                        #[trigger] texts@[j]@,
                    ) is Ok by {
                        assert(filter_matches(out@[j], texts@[j]@));
                    }
                }
                return Err(e);
            },
        }
        i = i + 1;
    }
    Ok(out)
}

} // verus!
