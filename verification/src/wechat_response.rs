//! The status part that every response of the Official Account platform carries.
use vstd::prelude::*;

use crate::text::{chars_of, string_of};

verus! {

/// The `base_resp` object of a platform response.
#[derive(Clone, Debug, Eq, PartialEq)]
pub struct WeChatBaseResponse {
    pub ret: i64,
    pub err_msg: String,
}

/// The error text for a response whose status is not success.
pub open spec fn base_response_error(base_resp: Option<(i64, Seq<char>)>) -> Option<Seq<char>> {
    match base_resp {
        Some((ret, err_msg)) => if ret == 0 {
            None
        } else if err_msg.len() == 0 {
            Some("WeChat returned ret="@ + crate::numbers::signed_decimal(ret as int))
        } else {
            Some(err_msg)
        },
        None => Some("WeChat response did not include base_resp"@),
    }
}

/// The status of a response as a pair of its code and message.
pub open spec fn base_response_view(base_resp: Option<WeChatBaseResponse>) -> Option<
    (i64, Seq<char>),
> {
    match base_resp {
        Some(r) => Some((r.ret, r.err_msg@)),
        None => None,
    }
}

/// Success when the response carries `ret == 0`; otherwise its message, or one that names the
/// code, or one that says the status is missing.
pub fn ensure_base_response_ok(base_resp: Option<&WeChatBaseResponse>) -> (r: Result<(), String>)
    ensures
        r is Ok <==> base_response_error(base_response_view(
            match base_resp {
                Some(b) => Some(*b),
                None => None,
            },
        )) is None,
        r matches Err(e) ==> base_response_error(base_response_view(
            match base_resp {
                Some(b) => Some(*b),
                None => None,
            },
        )) == Some(e@),
{
    match base_resp {
        Some(response) => {
            if response.ret == 0 {
                Ok(())
            } else if response.err_msg.as_str().unicode_len() == 0 {
                let mut out = chars_of("WeChat returned ret=");
                crate::text::push_all(&mut out, &crate::numbers::i64_to_decimal(response.ret));
                Err(string_of(out.as_slice()))
            } else {
                Err(response.err_msg.clone())
            }
        },
        None => Err(String::from_str("WeChat response did not include base_resp")),
    }
}

} // verus!
