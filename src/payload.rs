//! Header and trailer access through the host. The library builds each
//! request to the host and interprets each reply; whoever holds the host
//! connection performs the call in between.
use vstd::prelude::*;
use vstd::utf8::{decode_utf8, encode_utf8_decode_utf8, valid_utf8};

use crate::codec::{
    buffer_into_hashmap, decode_pairs, encodable, encode_pairs, export_hashmap, pairs_map,
    text_from_bytes, DecodeError, PairMap,
};
use crate::types::{
    grpc_status_code, grpc_status_to_int, header_map_type_code, header_map_type_to_int,
    to_wasm_result, wasm_result_of, GrpcStatus, HeaderMapType, WasmResult,
};

verus! {

/// A call on the host's header maps or reply path, with its arguments.
#[derive(Debug)]
pub enum HostCall {
    GetHeaderMapPairs { map_type: u32 },
    SetHeaderMapPairs { map_type: u32, pairs: Vec<u8> },
    GetHeaderMapValue { map_type: u32, key: String },
    AddHeaderMapValue { map_type: u32, key: String, value: String },
    ReplaceHeaderMapValue { map_type: u32, key: String, value: String },
    RemoveHeaderMapValue { map_type: u32, key: String },
    GetHeaderMapSize { map_type: u32 },
    SendLocalResponse {
        status_code: u32,
        details: String,
        body: String,
        headers: Vec<u8>,
        grpc_status: u32,
    },
}

/// Why a reply from the host gave no value.
#[derive(Clone, Copy, Debug, PartialEq, Eq, Structural)]
pub enum HeaderMapError {
    /// The host answered with a status other than success.
    Status(WasmResult),
    /// The host's buffer did not decode.
    Decode(DecodeError),
}

/// Asks for all pairs of a header map.
pub fn get_header_map_pairs(htype: HeaderMapType) -> (r: HostCall)
    ensures
        r == (HostCall::GetHeaderMapPairs { map_type: header_map_type_code(htype) }),
{
    HostCall::GetHeaderMapPairs { map_type: header_map_type_to_int(htype) }
}

/// Asks to replace all pairs of a header map by `pairs`, in wire form;
/// `None` where the pairs do not fit the wire format.
pub fn set_header_map_pairs(htype: HeaderMapType, pairs: &PairMap) -> (r: Option<HostCall>)
    ensures
        encodable(pairs.pairs()) ==> (r matches Some(HostCall::SetHeaderMapPairs { map_type, pairs: b })
            && map_type == header_map_type_code(htype) && b@ == encode_pairs(pairs.pairs())),
        !encodable(pairs.pairs()) ==> r is None,
{
    match export_hashmap(pairs) {
        Some(b) => Some(HostCall::SetHeaderMapPairs { map_type: header_map_type_to_int(htype), pairs: b }),
        None => None,
    }
}

/// Asks for the value of `key` in a header map.
pub fn get_header_map_value(htype: HeaderMapType, key: String) -> (r: HostCall)
    ensures
        r == (HostCall::GetHeaderMapValue { map_type: header_map_type_code(htype), key: key }),
{
    HostCall::GetHeaderMapValue { map_type: header_map_type_to_int(htype), key }
}

/// Asks to add `value` under `key` in a header map.
pub fn add_header_map_value(htype: HeaderMapType, key: String, value: String) -> (r: HostCall)
    ensures
        r == (HostCall::AddHeaderMapValue { map_type: header_map_type_code(htype), key: key, value: value }),
{
    HostCall::AddHeaderMapValue { map_type: header_map_type_to_int(htype), key, value }
}

/// Asks to set `key` to `value` in a header map.
pub fn replace_header_map_value(htype: HeaderMapType, key: String, value: String) -> (r: HostCall)
    ensures
        r == (HostCall::ReplaceHeaderMapValue { map_type: header_map_type_code(htype), key: key, value: value }),
{
    HostCall::ReplaceHeaderMapValue { map_type: header_map_type_to_int(htype), key, value }
}

/// Asks to remove `key` from a header map.
pub fn remove_header_map_value(htype: HeaderMapType, key: String) -> (r: HostCall)
    ensures
        r == (HostCall::RemoveHeaderMapValue { map_type: header_map_type_code(htype), key: key }),
{
    HostCall::RemoveHeaderMapValue { map_type: header_map_type_to_int(htype), key }
}

/// Asks for the number of pairs in a header map.
pub fn get_header_map_value_size(htype: HeaderMapType) -> (r: HostCall)
    ensures
        r == (HostCall::GetHeaderMapSize { map_type: header_map_type_code(htype) }),
{
    HostCall::GetHeaderMapSize { map_type: header_map_type_to_int(htype) }
}

/// Asks the host to answer the request itself, with extra headers in wire
/// form; `None` where the headers do not fit the wire format.
pub fn send_local_response(
    status_code: u32,
    details: String,
    body: String,
    additional_header: &PairMap,
    grpc_status: GrpcStatus,
) -> (r: Option<HostCall>)
    ensures
        encodable(additional_header.pairs()) ==> (r matches Some(HostCall::SendLocalResponse { status_code: s, details: d, body: b, headers: h, grpc_status: g })
            && s == status_code && d == details && b == body && h@ == encode_pairs(additional_header.pairs())
            && g == grpc_status_code(grpc_status)),
        !encodable(additional_header.pairs()) ==> r is None,
{
    match export_hashmap(additional_header) {
        Some(headers) => Some(
            HostCall::SendLocalResponse {
                status_code,
                details,
                body,
                headers,
                grpc_status: grpc_status_to_int(grpc_status),
            },
        ),
        None => None,
    }
}

/// Interprets the host's reply to a request for all pairs: on success the
/// decoded buffer, else the status or the decode error.
pub fn header_map_pairs_from(code: u32, data: &[u8]) -> (r: Result<PairMap, HeaderMapError>)
    ensures
        code != 0 ==> r == Err::<PairMap, HeaderMapError>(HeaderMapError::Status(wasm_result_of(code))),
        code == 0 ==> match decode_pairs(data@) {
            Ok(ps) => r matches Ok(m) && m@ == pairs_map(ps),
            Err(e) => r == Err::<PairMap, HeaderMapError>(HeaderMapError::Decode(e)),
        },
{
    if code != 0 {
        return Err(HeaderMapError::Status(to_wasm_result(code)));
    }
    match buffer_into_hashmap(data) {
        Ok(m) => Ok(m),
        Err(e) => Err(HeaderMapError::Decode(e)),
    }
}


/// Interprets the host's reply to a request for the number of pairs: the
/// count on success, else the status.
pub fn header_map_size_from(code: u32, size: usize) -> (r: Result<usize, WasmResult>)
    ensures
        code == 0 ==> r == Ok::<usize, WasmResult>(size),
        code != 0 ==> r == Err::<usize, WasmResult>(wasm_result_of(code)),
{
    if code != 0 {
        return Err(to_wasm_result(code));
    }
    Ok(size)
}

/// Interprets the host's reply to a request for one value: on success the
/// host's bytes as they came, else the status.
pub fn header_map_value_from(code: u32, data: Vec<u8>) -> (r: Result<Vec<u8>, HeaderMapError>)
    ensures
        code == 0 ==> r == Ok::<Vec<u8>, HeaderMapError>(data),
        code != 0 ==> r == Err::<Vec<u8>, HeaderMapError>(HeaderMapError::Status(wasm_result_of(code))),
{
    if code != 0 {
        return Err(HeaderMapError::Status(to_wasm_result(code)));
    }
    Ok(data)
}

/// A header value's bytes read as text; `None` where they are not UTF-8.
pub fn header_value_text(data: Vec<u8>) -> (r: Option<String>)
    ensures
        r is Some <==> valid_utf8(data@),
        r matches Some(s) ==> s@ == decode_utf8(data@),
{
    match text_from_bytes(data) {
        Some(s) => {
            proof {
                encode_utf8_decode_utf8(s@);
            }
            Some(s)
        },
        None => None,
    }
}

/// Asks to replace all request headers by `pairs`; `None` where they do not fit
/// the wire format.
pub fn set_request_header_pairs(pairs: &PairMap) -> (r: Option<HostCall>)
    ensures
        encodable(pairs.pairs()) ==> (r matches Some(HostCall::SetHeaderMapPairs { map_type, pairs: b })
            && map_type == 0 && b@ == encode_pairs(pairs.pairs())),
        !encodable(pairs.pairs()) ==> r is None,
{
    set_header_map_pairs(HeaderMapType::RequestHeaders, pairs)
}

/// Asks for all request headers.
pub fn get_request_header_pairs() -> (r: HostCall)
    ensures
        r == (HostCall::GetHeaderMapPairs { map_type: 0 }),
{
    get_header_map_pairs(HeaderMapType::RequestHeaders)
}

/// Asks for the value of `key` among the request headers.
pub fn get_request_header(key: String) -> (r: HostCall)
    ensures
        r == (HostCall::GetHeaderMapValue { map_type: 0, key: key }),
{
    get_header_map_value(HeaderMapType::RequestHeaders, key)
}

/// Asks to add `value` under `key` among the request headers.
pub fn add_request_header(key: String, value: String) -> (r: HostCall)
    ensures
        r == (HostCall::AddHeaderMapValue { map_type: 0, key: key, value: value }),
{
    add_header_map_value(HeaderMapType::RequestHeaders, key, value)
}

/// Asks to set `key` to `value` among the request headers.
pub fn replace_request_header(key: String, value: String) -> (r: HostCall)
    ensures
        r == (HostCall::ReplaceHeaderMapValue { map_type: 0, key: key, value: value }),
{
    replace_header_map_value(HeaderMapType::RequestHeaders, key, value)
}

/// Asks to remove `key` from the request headers.
pub fn remove_request_header(key: String) -> (r: HostCall)
    ensures
        r == (HostCall::RemoveHeaderMapValue { map_type: 0, key: key }),
{
    remove_header_map_value(HeaderMapType::RequestHeaders, key)
}

/// Asks for the number of request headers.
pub fn get_request_header_size() -> (r: HostCall)
    ensures
        r == (HostCall::GetHeaderMapSize { map_type: 0 }),
{
    get_header_map_value_size(HeaderMapType::RequestHeaders)
}

/// Asks to replace all response headers by `pairs`; `None` where they do not fit
/// the wire format.
pub fn set_response_header_pairs(pairs: &PairMap) -> (r: Option<HostCall>)
    ensures
        encodable(pairs.pairs()) ==> (r matches Some(HostCall::SetHeaderMapPairs { map_type, pairs: b })
            && map_type == 2 && b@ == encode_pairs(pairs.pairs())),
        !encodable(pairs.pairs()) ==> r is None,
{
    set_header_map_pairs(HeaderMapType::ResponseHeaders, pairs)
}

/// Asks for all response headers.
pub fn get_response_header_pairs() -> (r: HostCall)
    ensures
        r == (HostCall::GetHeaderMapPairs { map_type: 2 }),
{
    get_header_map_pairs(HeaderMapType::ResponseHeaders)
}

/// Asks for the value of `key` among the response headers.
pub fn get_response_header(key: String) -> (r: HostCall)
    ensures
        r == (HostCall::GetHeaderMapValue { map_type: 2, key: key }),
{
    get_header_map_value(HeaderMapType::ResponseHeaders, key)
}

/// Asks to add `value` under `key` among the response headers.
pub fn add_response_header(key: String, value: String) -> (r: HostCall)
    ensures
        r == (HostCall::AddHeaderMapValue { map_type: 2, key: key, value: value }),
{
    add_header_map_value(HeaderMapType::ResponseHeaders, key, value)
}

/// Asks to set `key` to `value` among the response headers.
pub fn replace_response_header(key: String, value: String) -> (r: HostCall)
    ensures
        r == (HostCall::ReplaceHeaderMapValue { map_type: 2, key: key, value: value }),
{
    replace_header_map_value(HeaderMapType::ResponseHeaders, key, value)
}

/// Asks to remove `key` from the response headers.
pub fn remove_response_header(key: String) -> (r: HostCall)
    ensures
        r == (HostCall::RemoveHeaderMapValue { map_type: 2, key: key }),
{
    remove_header_map_value(HeaderMapType::ResponseHeaders, key)
}

/// Asks for the number of response headers.
pub fn get_response_header_size() -> (r: HostCall)
    ensures
        r == (HostCall::GetHeaderMapSize { map_type: 2 }),
{
    get_header_map_value_size(HeaderMapType::ResponseHeaders)
}

/// Asks to replace all request trailers by `pairs`; `None` where they do not fit
/// the wire format.
pub fn set_request_trailer_pairs(pairs: &PairMap) -> (r: Option<HostCall>)
    ensures
        encodable(pairs.pairs()) ==> (r matches Some(HostCall::SetHeaderMapPairs { map_type, pairs: b })
            && map_type == 1 && b@ == encode_pairs(pairs.pairs())),
        !encodable(pairs.pairs()) ==> r is None,
{
    set_header_map_pairs(HeaderMapType::RequestTrailers, pairs)
}

/// Asks for all request trailers.
pub fn get_request_trailer_pairs() -> (r: HostCall)
    ensures
        r == (HostCall::GetHeaderMapPairs { map_type: 1 }),
{
    get_header_map_pairs(HeaderMapType::RequestTrailers)
}

/// Asks for the value of `key` among the request trailers.
pub fn get_request_trailer(key: String) -> (r: HostCall)
    ensures
        r == (HostCall::GetHeaderMapValue { map_type: 1, key: key }),
{
    get_header_map_value(HeaderMapType::RequestTrailers, key)
}

/// Asks to add `value` under `key` among the request trailers.
pub fn add_request_trailer(key: String, value: String) -> (r: HostCall)
    ensures
        r == (HostCall::AddHeaderMapValue { map_type: 1, key: key, value: value }),
{
    add_header_map_value(HeaderMapType::RequestTrailers, key, value)
}

/// Asks to set `key` to `value` among the request trailers.
pub fn replace_request_trailer(key: String, value: String) -> (r: HostCall)
    ensures
        r == (HostCall::ReplaceHeaderMapValue { map_type: 1, key: key, value: value }),
{
    replace_header_map_value(HeaderMapType::RequestTrailers, key, value)
}

/// Asks to remove `key` from the request trailers.
pub fn remove_request_trailer(key: String) -> (r: HostCall)
    ensures
        r == (HostCall::RemoveHeaderMapValue { map_type: 1, key: key }),
{
    remove_header_map_value(HeaderMapType::RequestTrailers, key)
}

/// Asks for the number of request trailers.
pub fn get_request_trailer_size() -> (r: HostCall)
    ensures
        r == (HostCall::GetHeaderMapSize { map_type: 1 }),
{
    get_header_map_value_size(HeaderMapType::RequestTrailers)
}

/// Asks to replace all response trailers by `pairs`; `None` where they do not fit
/// the wire format.
pub fn set_response_trailer_pairs(pairs: &PairMap) -> (r: Option<HostCall>)
    ensures
        encodable(pairs.pairs()) ==> (r matches Some(HostCall::SetHeaderMapPairs { map_type, pairs: b })
            && map_type == 3 && b@ == encode_pairs(pairs.pairs())),
        !encodable(pairs.pairs()) ==> r is None,
{
    set_header_map_pairs(HeaderMapType::ResponseTrailers, pairs)
}

/// Asks for all response trailers.
pub fn get_response_trailer_pairs() -> (r: HostCall)
    ensures
        r == (HostCall::GetHeaderMapPairs { map_type: 3 }),
{
    get_header_map_pairs(HeaderMapType::ResponseTrailers)
}

/// Asks for the value of `key` among the response trailers.
pub fn get_response_trailer(key: String) -> (r: HostCall)
    ensures
        r == (HostCall::GetHeaderMapValue { map_type: 3, key: key }),
{
    get_header_map_value(HeaderMapType::ResponseTrailers, key)
}

/// Asks to add `value` under `key` among the response trailers.
pub fn add_response_trailer(key: String, value: String) -> (r: HostCall)
    ensures
        r == (HostCall::AddHeaderMapValue { map_type: 3, key: key, value: value }),
{
    add_header_map_value(HeaderMapType::ResponseTrailers, key, value)
}

/// Asks to set `key` to `value` among the response trailers.
pub fn replace_response_trailer(key: String, value: String) -> (r: HostCall)
    ensures
        r == (HostCall::ReplaceHeaderMapValue { map_type: 3, key: key, value: value }),
{
    replace_header_map_value(HeaderMapType::ResponseTrailers, key, value)
}

/// Asks to remove `key` from the response trailers.
pub fn remove_response_trailer(key: String) -> (r: HostCall)
    ensures
        r == (HostCall::RemoveHeaderMapValue { map_type: 3, key: key }),
{
    remove_header_map_value(HeaderMapType::ResponseTrailers, key)
}

/// Asks for the number of response trailers.
pub fn get_response_trailer_size() -> (r: HostCall)
    ensures
        r == (HostCall::GetHeaderMapSize { map_type: 3 }),
{
    get_header_map_value_size(HeaderMapType::ResponseTrailers)
}

} // verus!
