//! The body of the client's request, as the host reports it.

use vstd::prelude::*;
use vstd::utf8::{decode_utf8, valid_utf8};
use vstd::string::StringExecFns;
use crate::plugin::KongError;
use crate::protocol::{all_bytes, last_within, utf8_text};
use crate::wire::{fields_view, spec_fields, split_fields, FieldValue, FieldView};

verus! {

/// The request body: its bytes, the path of the file the host buffered it
/// to, or nothing.
#[derive(Debug)]
pub enum Body {
    Content(Vec<u8>),
    Path(String),
    Empty,
}

/// The prefix of the error made from a body error the host reports.
pub const BODY_ERROR_PREFIX: &'static str = "Body Error: ";

/// Reads the host's answer to a raw-body request.
///
/// Bytes that are no such answer give `ProtobufDecodeError`; an error
/// reported by the host gives `BodyError` with its message after
/// `BODY_ERROR_PREFIX`.
pub fn decode_raw_body(b: &[u8]) -> (r: Result<Body, KongError>)
    ensures
        spec_fields(b@) is None ==> r matches Err(KongError::ProtobufDecodeError),
        spec_fields(b@) matches Some(fs) ==> {
            if !all_bytes(fs, 1, 3) {
                r matches Err(KongError::ProtobufDecodeError)
            } else {
                match last_within(fs, 1, 3) {
                    None => r matches Ok(Body::Empty),
                    Some((num, FieldView::Bytes(bytes))) => if num == 1 {
                        r matches Ok(Body::Content(c)) && c@ == bytes
                    } else if !valid_utf8(bytes) {
                        r matches Err(KongError::EncodingError)
                    } else if num == 2 {
                        r matches Ok(Body::Path(p)) && p@ == decode_utf8(bytes)
                    } else {
                        r matches Err(KongError::BodyError(m)) && m@ == BODY_ERROR_PREFIX@
                            + decode_utf8(bytes)
                    },
                    _ => r matches Err(KongError::ProtobufDecodeError),
                }
            }
        },
{
    let fs = match split_fields(b) {
        Ok(fs) => fs,
        Err(_) => {
            return Err(KongError::ProtobufDecodeError);
        },
    };
    let ghost all = fields_view(fs@);
    let mut found: Option<usize> = None;
    let mut i: usize = 0;
    while i < fs.len()
        invariant
            i <= fs@.len(),
            all == fields_view(fs@),
            spec_fields(b@) == Some(all),
            forall|k: int| 0 <= k < i && 1 <= #[trigger] all[k].0 <= 3 ==> all[k].1 is Bytes,
            match found {
                Some(j) => j < i && last_within(all.subrange(0, i as int), 1, 3) == Some(
                    all[j as int],
                ),
                None => last_within(all.subrange(0, i as int), 1, 3) is None,
            },
        decreases fs@.len() - i,
    {
        let f = &fs[i];
        assert(all.subrange(0, i + 1 as int).drop_last() =~= all.subrange(0, i as int));
        if 1 <= f.number && f.number <= 3 {
            match f.value {
                FieldValue::Bytes(_) => {
                    found = Some(i);
                },
                _ => {
                    assert(1 <= all[i as int].0 <= 3 && !(all[i as int].1 is Bytes));
                    assert(!all_bytes(all, 1, 3));
                    return Err(KongError::ProtobufDecodeError);
                },
            }
        }
        i = i + 1;
    }
    assert(all.subrange(0, i as int) =~= all);
    match found {
        None => Ok(Body::Empty),
        Some(j) => match &fs[j].value {
            FieldValue::Bytes(bytes) => {
                if fs[j].number == 1 {
                    return Ok(Body::Content(bytes.clone()));
                }
                match utf8_text(bytes.clone()) {
                    None => Err(KongError::EncodingError),
                    Some(text) => if fs[j].number == 2 {
                        Ok(Body::Path(text))
                    } else {
                        let prefix = BODY_ERROR_PREFIX.to_owned();
                        Err(KongError::BodyError(prefix.concat(text.as_str())))
                    },
                }
            },
            _ => Err(KongError::ProtobufDecodeError),
        },
    }
}

} // verus!
