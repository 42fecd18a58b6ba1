use vstd::prelude::*;

verus! {

/// Status codes that the host returns from its imported functions.
#[derive(Clone, Copy, Debug, PartialEq, Eq, Structural)]
pub enum WasmResult {
    Success,
    /// The result could not be found, e.g. a provided key did not appear in a table.
    NotFound,
    /// An argument was bad, e.g. did not conform to the required range.
    BadArgument,
    /// A protobuf could not be serialized.
    SerializationFailure,
    /// A protobuf could not be parsed.
    ParseFailure,
    /// A provided expression (e.g. "foo.bar") was illegal or unrecognized.
    BadExpression,
    /// A provided memory range was not legal.
    InvalidMemoryAccess,
    /// Data was requested from an empty container.
    Empty,
    /// The provided CAS did not match that of the stored data.
    CasMismatch,
    /// Returned result was unexpected, e.g. of the incorrect size.
    ResultMismatch,
    /// Internal failure: check the logs of the surrounding system.
    InternalFailure,
    /// The connection/stream/pipe was broken/closed unexpectedly.
    BrokenConnection,
    /// A code that this library does not recognize.
    MAX,
}

/// The numeric code of each recognized status; `MAX` has none.
pub open spec fn wasm_result_code(r: WasmResult) -> Option<u32> {
    match r {
        WasmResult::Success => Some(0),
        WasmResult::NotFound => Some(1),
        WasmResult::BadArgument => Some(2),
        WasmResult::SerializationFailure => Some(3),
        WasmResult::ParseFailure => Some(4),
        WasmResult::BadExpression => Some(5),
        WasmResult::InvalidMemoryAccess => Some(6),
        WasmResult::Empty => Some(7),
        WasmResult::CasMismatch => Some(8),
        WasmResult::ResultMismatch => Some(9),
        WasmResult::InternalFailure => Some(10),
        WasmResult::BrokenConnection => Some(11),
        WasmResult::MAX => None,
    }
}

/// The named variant of a host status code; unknown codes give `MAX`.
pub open spec fn wasm_result_of(code: u32) -> WasmResult {
    match code {
        0 => WasmResult::Success,
        1 => WasmResult::NotFound,
        2 => WasmResult::BadArgument,
        3 => WasmResult::SerializationFailure,
        4 => WasmResult::ParseFailure,
        5 => WasmResult::BadExpression,
        6 => WasmResult::InvalidMemoryAccess,
        7 => WasmResult::Empty,
        8 => WasmResult::CasMismatch,
        9 => WasmResult::ResultMismatch,
        10 => WasmResult::InternalFailure,
        11 => WasmResult::BrokenConnection,
        _ => WasmResult::MAX,
    }
}

/// Maps a host status code to its named variant; unknown codes map to `MAX`.
pub fn to_wasm_result(result: u32) -> (r: WasmResult)
    ensures
        r == wasm_result_of(result),
        result <= 11 ==> wasm_result_code(r) == Some(result),
        result > 11 <==> r == WasmResult::MAX,
{
    match result {
        0 => WasmResult::Success,
        1 => WasmResult::NotFound,
        2 => WasmResult::BadArgument,
        3 => WasmResult::SerializationFailure,
        4 => WasmResult::ParseFailure,
        5 => WasmResult::BadExpression,
        6 => WasmResult::InvalidMemoryAccess,
        7 => WasmResult::Empty,
        8 => WasmResult::CasMismatch,
        9 => WasmResult::ResultMismatch,
        10 => WasmResult::InternalFailure,
        11 => WasmResult::BrokenConnection,
        _ => WasmResult::MAX,
    }
}


/// Text for each status, as shown in messages.
pub open spec fn wasm_result_name(r: WasmResult) -> Seq<char> {
    match r {
        WasmResult::Success => "OK"@,
        WasmResult::NotFound => "NotFound"@,
        WasmResult::BadArgument => "BadArgument"@,
        WasmResult::SerializationFailure => "SerializationFailure"@,
        WasmResult::ParseFailure => "ParseFailure"@,
        WasmResult::BadExpression => "BadExpression"@,
        WasmResult::InvalidMemoryAccess => "InvalidMemoryAccess"@,
        WasmResult::Empty => "Empty"@,
        WasmResult::CasMismatch => "CasMismatch"@,
        WasmResult::ResultMismatch => "ResultMismatch"@,
        WasmResult::InternalFailure => "internalFailure"@,
        WasmResult::BrokenConnection => "BrokenConnection"@,
        WasmResult::MAX => "unimplemented"@,
    }
}

pub fn wasm_result_to_str(result: WasmResult) -> (r: &'static str)
    ensures
        r@ == wasm_result_name(result),
{
    match result {
        WasmResult::Success => "OK",
        WasmResult::NotFound => "NotFound",
        WasmResult::BadArgument => "BadArgument",
        WasmResult::SerializationFailure => "SerializationFailure",
        WasmResult::ParseFailure => "ParseFailure",
        WasmResult::BadExpression => "BadExpression",
        WasmResult::InvalidMemoryAccess => "InvalidMemoryAccess",
        WasmResult::Empty => "Empty",
        WasmResult::CasMismatch => "CasMismatch",
        WasmResult::ResultMismatch => "ResultMismatch",
        WasmResult::InternalFailure => "internalFailure",
        WasmResult::BrokenConnection => "BrokenConnection",
        WasmResult::MAX => "unimplemented",
    }
}

/// The header and trailer collections that the host keeps.
#[derive(Clone, Copy, Debug, PartialEq, Eq, Structural)]
pub enum HeaderMapType {
    RequestHeaders,
    RequestTrailers,
    ResponseHeaders,
    ResponseTrailers,
    GrpcCreateInitialMetadata,
    GrpcReceiveInitialMetadata,
    GrpcReceiveTrailingMetadata,
    HttpCallResponseHeaders,
    HttpCallResponseTrailers,
    MAX,
}

/// The host's number for each header map kind.
pub open spec fn header_map_type_code(t: HeaderMapType) -> u32 {
    match t {
        HeaderMapType::RequestHeaders => 0,
        HeaderMapType::RequestTrailers => 1,
        HeaderMapType::ResponseHeaders => 2,
        HeaderMapType::ResponseTrailers => 3,
        HeaderMapType::GrpcCreateInitialMetadata => 4,
        HeaderMapType::GrpcReceiveInitialMetadata => 5,
        HeaderMapType::GrpcReceiveTrailingMetadata => 6,
        HeaderMapType::HttpCallResponseHeaders => 7,
        HeaderMapType::HttpCallResponseTrailers => 8,
        HeaderMapType::MAX => 9,
    }
}

pub fn header_map_type_to_int(htype: HeaderMapType) -> (r: u32)
    ensures
        r == header_map_type_code(htype),
{
    match htype {
        HeaderMapType::RequestHeaders => 0,
        HeaderMapType::RequestTrailers => 1,
        HeaderMapType::ResponseHeaders => 2,
        HeaderMapType::ResponseTrailers => 3,
        HeaderMapType::GrpcCreateInitialMetadata => 4,
        HeaderMapType::GrpcReceiveInitialMetadata => 5,
        HeaderMapType::GrpcReceiveTrailingMetadata => 6,
        HeaderMapType::HttpCallResponseHeaders => 7,
        HeaderMapType::HttpCallResponseTrailers => 8,
        HeaderMapType::MAX => 9,
    }
}

#[derive(Clone, Copy, Debug, PartialEq, Eq, Structural)]
pub enum BufferType {
    HttpRequestBody,
    HttpResponseBody,
    NetworkDownstreamData,
    NetworkUpstreamData,
    HttpCallResponseBody,
    GrpcReceiveBuffer,
    MAX,
}

#[derive(Clone, Copy, Debug, PartialEq, Eq, Structural)]
pub enum BufferFlags {
    EndOfStream,
}

#[derive(Clone, Copy, Debug, PartialEq, Eq, Structural)]
pub enum FilterStatus {
    Continue,
    StopIteration,
}

#[derive(Clone, Copy, Debug, PartialEq, Eq, Structural)]
pub enum FilterHeadersStatus {
    Continue,
    StopIteration,
}

#[derive(Clone, Copy, Debug, PartialEq, Eq, Structural)]
pub enum FilterMetadataStatus {
    Continue,
}

#[derive(Clone, Copy, Debug, PartialEq, Eq, Structural)]
pub enum FilterTrailersStatus {
    Continue,
    StopIteration,
}

#[derive(Clone, Copy, Debug, PartialEq, Eq, Structural)]
pub enum FilterDataStatus {
    Continue,
    StopIterationAndBuffer,
    StopIterationAndWatermark,
    StopIterationNoBuffer,
}

pub fn filter_trailer_status_to_int(status: FilterTrailersStatus) -> (r: u32)
    ensures
        r == (match status {
            FilterTrailersStatus::Continue => 0u32,
            FilterTrailersStatus::StopIteration => 1u32,
        }),
{
    match status {
        FilterTrailersStatus::Continue => 0,
        FilterTrailersStatus::StopIteration => 1,
    }
}

pub fn filter_header_status_to_int(status: FilterHeadersStatus) -> (r: u32)
    ensures
        r == (match status {
            FilterHeadersStatus::Continue => 0u32,
            FilterHeadersStatus::StopIteration => 1u32,
        }),
{
    match status {
        FilterHeadersStatus::Continue => 0,
        FilterHeadersStatus::StopIteration => 1,
    }
}

pub fn filter_data_status_to_int(status: FilterDataStatus) -> (r: u32)
    ensures
        r == (match status {
            FilterDataStatus::Continue => 0u32,
            FilterDataStatus::StopIterationAndBuffer => 1u32,
            FilterDataStatus::StopIterationAndWatermark => 2u32,
            FilterDataStatus::StopIterationNoBuffer => 3u32,
        }),
{
    match status {
        FilterDataStatus::Continue => 0,
        FilterDataStatus::StopIterationAndBuffer => 1,
        FilterDataStatus::StopIterationAndWatermark => 2,
        FilterDataStatus::StopIterationNoBuffer => 3,
    }
}

pub fn filter_metadata_status_to_int(status: FilterMetadataStatus) -> (r: u32)
    ensures
        r == 0,
{
    match status {
        FilterMetadataStatus::Continue => 0,
    }
}

pub fn filter_status_to_int(status: FilterStatus) -> (r: u32)
    ensures
        r == (match status {
            FilterStatus::Continue => 0u32,
            FilterStatus::StopIteration => 1u32,
        }),
{
    match status {
        FilterStatus::Continue => 0,
        FilterStatus::StopIteration => 1,
    }
}

#[derive(Clone, Copy, Debug, PartialEq, Eq, Structural)]
pub enum GrpcStatus {
    Success,
    Canceled,
    Unknown,
    InvalidArgument,
    DeadlineExceeded,
    NotFound,
    AlreadyExists,
    PermissionDenied,
    ResourceExhausted,
    FailedPrecondition,
    Aborted,
    OutOfRange,
    Unimplemented,
    Internal,
    Unavailable,
    DataLoss,
    Unauthenticated,
    MaximumValid,
    InvalidCode,
}

/// The gRPC wire number of each status; the two markers past the valid range
/// take the next numbers.
pub open spec fn grpc_status_code(s: GrpcStatus) -> u32 {
    match s {
        GrpcStatus::Success => 0,
        GrpcStatus::Canceled => 1,
        GrpcStatus::Unknown => 2,
        GrpcStatus::InvalidArgument => 3,
        GrpcStatus::DeadlineExceeded => 4,
        GrpcStatus::NotFound => 5,
        GrpcStatus::AlreadyExists => 6,
        GrpcStatus::PermissionDenied => 7,
        GrpcStatus::ResourceExhausted => 8,
        GrpcStatus::FailedPrecondition => 9,
        GrpcStatus::Aborted => 10,
        GrpcStatus::OutOfRange => 11,
        GrpcStatus::Unimplemented => 12,
        GrpcStatus::Internal => 13,
        GrpcStatus::Unavailable => 14,
        GrpcStatus::DataLoss => 15,
        GrpcStatus::Unauthenticated => 16,
        GrpcStatus::MaximumValid => 17,
        GrpcStatus::InvalidCode => 18,
    }
}

pub fn grpc_status_to_int(status: GrpcStatus) -> (r: u32)
    ensures
        r == grpc_status_code(status),
{
    match status {
        GrpcStatus::Success => 0,
        GrpcStatus::Canceled => 1,
        GrpcStatus::Unknown => 2,
        GrpcStatus::InvalidArgument => 3,
        GrpcStatus::DeadlineExceeded => 4,
        GrpcStatus::NotFound => 5,
        GrpcStatus::AlreadyExists => 6,
        GrpcStatus::PermissionDenied => 7,
        GrpcStatus::ResourceExhausted => 8,
        GrpcStatus::FailedPrecondition => 9,
        GrpcStatus::Aborted => 10,
        GrpcStatus::OutOfRange => 11,
        GrpcStatus::Unimplemented => 12,
        GrpcStatus::Internal => 13,
        GrpcStatus::Unavailable => 14,
        GrpcStatus::DataLoss => 15,
        GrpcStatus::Unauthenticated => 16,
        GrpcStatus::MaximumValid => 17,
        GrpcStatus::InvalidCode => 18,
    }
}

#[derive(Clone, Copy, Debug, PartialEq, Eq, Structural)]
pub enum MetricType {
    Counter,
    Gauge,
    Histogram,
}

#[derive(Clone, Copy, Debug, PartialEq, Eq, Structural)]
pub enum PeerType {
    Unknown,
    Local,
    Remote,
}

} // verus!
