//! Keyset paging: a page is read with one row more than its limit, the extra
//! row tells that another page follows, and the cursor of the next page is
//! the unpadded URL-safe base64 text of the last row's JSON keys.
use vstd::prelude::*;

use crate::encoding::{base64url_decode, base64url_encode, decode_base64url, encode_base64url};

verus! {

/// The keys of the last row of a page: the value it is ordered by and a
/// tie-breaker.
#[derive(Debug, PartialEq, Eq)]
pub struct Cursor<V, T> {
    pub value: V,
    pub tie_breaker: T,
}

/// Why a cursor text was refused.
#[derive(Clone, Copy, Debug, PartialEq, Eq, Structural)]
pub enum CursorError {
    InvalidJson,
    InvalidBase64,
}

/// The cursor text that carries a cursor's JSON bytes.
pub fn encode_cursor_payload(json: &[u8]) -> (res: String)
    ensures
        res@ == base64url_encode(json@),
        base64url_decode(res@) == Some(json@),
{
    encode_base64url(json)
}

/// The JSON bytes a cursor text carries.
pub fn decode_cursor_payload(text: &str) -> (res: Result<Vec<u8>, CursorError>)
    ensures
        match base64url_decode(text@) {
            Some(bytes) => res matches Ok(v) && v@ == bytes,
            None => res == Err::<Vec<u8>, CursorError>(CursorError::InvalidBase64),
        },
{
    match decode_base64url(text) {
        Some(bytes) => Ok(bytes),
        None => Err(CursorError::InvalidBase64),
    }
}

/// The rows of a page read with one row more than `limit`: the extra row is
/// dropped, and whether there was one is returned.
pub fn trim_page<T>(rows: &mut Vec<T>, limit: usize) -> (has_more: bool)
    ensures
        has_more == (old(rows)@.len() > limit),
        has_more ==> final(rows)@ == old(rows)@.drop_last(),
        !has_more ==> final(rows)@ == old(rows)@,
{
    if rows.len() > limit {
        let _ = rows.pop();
        true
    } else {
        false
    }
}

/// The ID the next page starts after, when another page follows: the extra
/// ID is dropped and the last ID of the page is returned.
pub fn take_next_cursor_id<T: Copy>(ids: &mut Vec<T>, limit: usize) -> (res: Option<T>)
    requires
        !(limit == 0 && old(ids)@.len() == 1),
    ensures
        old(ids)@.len() <= limit ==> res is None && final(ids)@ == old(ids)@,
        old(ids)@.len() > limit ==> final(ids)@ == old(ids)@.drop_last() && res == Some(
            old(ids)@[old(ids)@.len() - 2],
        ),
{
    if ids.len() <= limit {
        return None;
    }
    let _ = ids.pop();
    let last = ids[ids.len() - 1];
    Some(last)
}

} // verus!
