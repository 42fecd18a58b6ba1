use proxy_wasm::types::{
    filter_data_status_to_int, filter_header_status_to_int, filter_metadata_status_to_int,
    filter_status_to_int, filter_trailer_status_to_int, grpc_status_to_int,
    header_map_type_to_int, to_wasm_result, wasm_result_to_str, FilterDataStatus,
    FilterHeadersStatus, FilterMetadataStatus, FilterStatus, FilterTrailersStatus, GrpcStatus,
    HeaderMapType, WasmResult,
};

#[test]
fn status_codes_map_to_named_variants() {
    let expected = [
        WasmResult::Success,
        WasmResult::NotFound,
        WasmResult::BadArgument,
        WasmResult::SerializationFailure,
        WasmResult::ParseFailure,
        WasmResult::BadExpression,
        WasmResult::InvalidMemoryAccess,
        WasmResult::Empty,
        WasmResult::CasMismatch,
        WasmResult::ResultMismatch,
        WasmResult::InternalFailure,
        WasmResult::BrokenConnection,
    ];
    for (code, want) in expected.iter().enumerate() {
        assert_eq!(to_wasm_result(code as u32), *want);
    }
}

#[test]
fn unknown_status_codes_map_to_max() {
    assert_eq!(to_wasm_result(12), WasmResult::MAX);
    assert_eq!(to_wasm_result(999), WasmResult::MAX);
    assert_eq!(to_wasm_result(u32::MAX), WasmResult::MAX);
}

#[test]
fn status_names() {
    assert_eq!(wasm_result_to_str(WasmResult::Success), "OK");
    assert_eq!(wasm_result_to_str(WasmResult::InternalFailure), "internalFailure");
    assert_eq!(wasm_result_to_str(WasmResult::BrokenConnection), "BrokenConnection");
    assert_eq!(wasm_result_to_str(WasmResult::MAX), "unimplemented");
}

#[test]
fn header_map_type_numbers() {
    assert_eq!(header_map_type_to_int(HeaderMapType::RequestHeaders), 0);
    assert_eq!(header_map_type_to_int(HeaderMapType::RequestTrailers), 1);
    assert_eq!(header_map_type_to_int(HeaderMapType::ResponseHeaders), 2);
    assert_eq!(header_map_type_to_int(HeaderMapType::ResponseTrailers), 3);
    assert_eq!(header_map_type_to_int(HeaderMapType::HttpCallResponseTrailers), 8);
    assert_eq!(header_map_type_to_int(HeaderMapType::MAX), 9);
}

#[test]
fn filter_status_numbers() {
    assert_eq!(filter_status_to_int(FilterStatus::Continue), 0);
    assert_eq!(filter_status_to_int(FilterStatus::StopIteration), 1);
    assert_eq!(filter_header_status_to_int(FilterHeadersStatus::StopIteration), 1);
    assert_eq!(filter_trailer_status_to_int(FilterTrailersStatus::Continue), 0);
    assert_eq!(filter_metadata_status_to_int(FilterMetadataStatus::Continue), 0);
    assert_eq!(filter_data_status_to_int(FilterDataStatus::StopIterationAndWatermark), 2);
    assert_eq!(filter_data_status_to_int(FilterDataStatus::StopIterationNoBuffer), 3);
}

#[test]
fn grpc_status_numbers() {
    assert_eq!(grpc_status_to_int(GrpcStatus::Success), 0);
    assert_eq!(grpc_status_to_int(GrpcStatus::Unauthenticated), 16);
    assert_eq!(grpc_status_to_int(GrpcStatus::InvalidCode), 18);
}
