use kong_rs::body::decode_raw_body;
use kong_rs::plugin::{exit_for, internal_error_response, same_chars, INTERNAL_ERROR_BODY};
use kong_rs::{ok_or_internal_error, Body, ExitResponse, KongError, Phase, PluginInfo};

#[test]
fn phase_names() {
    assert_eq!(Phase::Access.as_str(), "access");
    assert_eq!(Phase::from_name("access"), Some(Phase::Access));
    assert_eq!(Phase::from_name("Access"), None);
    assert_eq!(Phase::from_name(""), None);
    assert!(same_chars("héllo", "héllo"));
    assert!(!same_chars("a", "ab"));
}

#[test]
fn declared_phases() {
    let info = PluginInfo {
        name: "p".to_string(),
        phases: vec![Phase::Access],
        version: "1".to_string(),
        priority: 0,
        schema: String::new(),
    };
    assert!(info.declares(Phase::Access));
    assert_eq!(info.phase_names(), vec!["access".to_string()]);
}

fn teapot() -> ExitResponse {
    ExitResponse { status: 418, body: b"tea".to_vec(), headers: vec![("x".to_string(), "y".to_string())] }
}

#[test]
fn hook_results_map_to_exits() {
    assert!(exit_for(Ok(None)).is_none());
    assert_eq!(exit_for(Ok(Some(teapot()))).unwrap().status, 418);
    let e = exit_for(Err(teapot())).unwrap();
    assert_eq!(e.body, b"tea".to_vec());
    assert_eq!(e.headers.len(), 1);
}

#[test]
fn internal_error_is_a_500() {
    let r = internal_error_response();
    assert_eq!(r.status, 500);
    assert_eq!(r.body, b"The server encountered an unexpected error!".to_vec());
    assert_eq!(r.body, INTERNAL_ERROR_BODY.as_bytes().to_vec());
    assert!(r.headers.is_empty());
    let r = KongError::LaunchError("x".to_string()).to_internal_error();
    assert_eq!(r.status, 500);
}

#[test]
fn ok_or_internal_error_passes_values() {
    assert_eq!(ok_or_internal_error::<u32>(Ok(3)).unwrap(), 3);
    let e = ok_or_internal_error::<u32>(Err(KongError::EncodingError)).unwrap_err();
    assert_eq!(e.status, 500);
}

#[test]
fn raw_body_answers() {
    assert!(matches!(decode_raw_body(&[]), Ok(Body::Empty)));
    assert!(matches!(decode_raw_body(&[0x0a, 3, 1, 2, 3]), Ok(Body::Content(ref c)) if c == &vec![1u8, 2, 3]));
    assert!(matches!(decode_raw_body(&[0x12, 4, b'/', b't', b'm', b'p']), Ok(Body::Path(ref p)) if p == "/tmp"));
    match decode_raw_body(&[0x1a, 4, b'o', b'o', b'p', b's']) {
        Err(KongError::BodyError(m)) => assert_eq!(m, "Body Error: oops"),
        other => panic!("unexpected {:?}", other),
    }
    assert!(matches!(decode_raw_body(&[0x12, 1, 0xff]), Err(KongError::EncodingError)));
    assert!(matches!(decode_raw_body(&[0x0a]), Err(KongError::ProtobufDecodeError)));
    assert!(matches!(decode_raw_body(&[0x08, 1]), Err(KongError::ProtobufDecodeError)));
}
