use proxy_wasm::codec::{DecodeError, PairMap};
use proxy_wasm::payload::{
    add_request_header, add_response_trailer, get_request_trailer, get_response_header_pairs,
    get_response_header_size, header_map_pairs_from, header_map_size_from, header_value_text, header_map_value_from,
    remove_request_trailer, replace_response_header, send_local_response,
    set_request_header_pairs, HeaderMapError, HostCall,
};
use proxy_wasm::types::{GrpcStatus, WasmResult};

#[test]
fn named_accessors_target_their_map() {
    match add_request_header("a".to_string(), "b".to_string()) {
        HostCall::AddHeaderMapValue { map_type, key, value } => {
            assert_eq!((map_type, key.as_str(), value.as_str()), (0, "a", "b"))
        }
        other => panic!("unexpected {:?}", other),
    }
    match replace_response_header("k".to_string(), "v".to_string()) {
        HostCall::ReplaceHeaderMapValue { map_type, .. } => assert_eq!(map_type, 2),
        other => panic!("unexpected {:?}", other),
    }
    match remove_request_trailer("k".to_string()) {
        HostCall::RemoveHeaderMapValue { map_type, key } => {
            assert_eq!((map_type, key.as_str()), (1, "k"))
        }
        other => panic!("unexpected {:?}", other),
    }
    match add_response_trailer("k".to_string(), "v".to_string()) {
        HostCall::AddHeaderMapValue { map_type, .. } => assert_eq!(map_type, 3),
        other => panic!("unexpected {:?}", other),
    }
    match get_response_header_size() {
        HostCall::GetHeaderMapSize { map_type } => assert_eq!(map_type, 2),
        other => panic!("unexpected {:?}", other),
    }
    match get_response_header_pairs() {
        HostCall::GetHeaderMapPairs { map_type } => assert_eq!(map_type, 2),
        other => panic!("unexpected {:?}", other),
    }
    match get_request_trailer("x".to_string()) {
        HostCall::GetHeaderMapValue { map_type, key } => {
            assert_eq!((map_type, key.as_str()), (1, "x"))
        }
        other => panic!("unexpected {:?}", other),
    }
}

#[test]
fn set_pairs_sends_wire_form() {
    let mut m = PairMap::new();
    m.insert("k".to_string(), "v".to_string());
    match set_request_header_pairs(&m) {
        Some(HostCall::SetHeaderMapPairs { map_type, pairs }) => {
            assert_eq!(map_type, 0);
            assert_eq!(pairs, vec![1, 0, 0, 0, 1, 0, 0, 0, 1, 0, 0, 0, b'k', 0, b'v', 0]);
        }
        other => panic!("unexpected {:?}", other),
    }
}

#[test]
fn local_response_carries_headers_and_grpc_code() {
    let m = PairMap::new();
    match send_local_response(403, "denied".to_string(), "no".to_string(), &m, GrpcStatus::PermissionDenied) {
        Some(HostCall::SendLocalResponse { status_code, details, body, headers, grpc_status }) => {
            assert_eq!(status_code, 403);
            assert_eq!(details, "denied");
            assert_eq!(body, "no");
            assert_eq!(headers, vec![0, 0, 0, 0]);
            assert_eq!(grpc_status, 7);
        }
        other => panic!("unexpected {:?}", other),
    }
}

#[test]
fn pairs_reply_is_decoded() {
    let data = [1u8, 0, 0, 0, 1, 0, 0, 0, 1, 0, 0, 0, b'k', 0, b'v', 0];
    let m = header_map_pairs_from(0, &data).ok().unwrap();
    assert_eq!(m.get(&"k".to_string()), Some(&"v".to_string()));
    assert_eq!(
        header_map_pairs_from(1, &data).err(),
        Some(HeaderMapError::Status(WasmResult::NotFound))
    );
    assert_eq!(
        header_map_pairs_from(0, &[1, 0, 0, 0]).err(),
        Some(HeaderMapError::Decode(DecodeError::TruncatedHeader))
    );
}

#[test]
fn value_reply_is_the_host_bytes() {
    assert_eq!(header_map_value_from(0, b"GET".to_vec()), Ok(b"GET".to_vec()));
    assert_eq!(header_map_value_from(0, vec![0xff]), Ok(vec![0xff]));
    assert_eq!(header_map_value_from(0, Vec::new()), Ok(Vec::new()));
    assert_eq!(
        header_map_value_from(40, b"GET".to_vec()),
        Err(HeaderMapError::Status(WasmResult::MAX))
    );
    assert_eq!(
        header_map_value_from(1, Vec::new()),
        Err(HeaderMapError::Status(WasmResult::NotFound))
    );
}

#[test]
fn value_text_reads_utf8() {
    assert_eq!(header_value_text(b"GET".to_vec()), Some("GET".to_string()));
    assert_eq!(header_value_text(vec![0xc3, 0xa9]), Some("é".to_string()));
    assert_eq!(header_value_text(vec![0xff]), None);
}

#[test]
fn size_reply_is_the_count() {
    assert_eq!(header_map_size_from(0, 5), Ok(5));
    assert_eq!(header_map_size_from(7, 5), Err(WasmResult::Empty));
    assert_eq!(header_map_size_from(12, 5), Err(WasmResult::MAX));
}
