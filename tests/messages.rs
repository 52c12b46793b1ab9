use kong_rs::protocol::{
    decode_call, decode_command, decode_int_message, decode_string_message, encode_int_message,
    encode_return, encode_string_message, Command, InstanceStatus, PluginInfo, ReturnValue,
    RpcReturn,
};
use kong_rs::wire::WireError;

fn with_len(key: &[u8], body: &[u8]) -> Vec<u8> {
    let mut v = key.to_vec();
    v.push(body.len() as u8);
    v.extend_from_slice(body);
    v
}

#[test]
fn decodes_get_plugin_names() {
    let call = decode_call(&[0x08, 0x01, 0xfa, 0x01, 0x00]).unwrap();
    assert_eq!(call.sequence, 1);
    assert!(matches!(call.command, Some(Command::GetPluginNames)));
}

#[test]
fn decodes_get_plugin_info_with_long_sequence() {
    let mut b = vec![0x08, 0xac, 0x02];
    b.extend(with_len(&[0x82, 0x02], &with_len(&[0x0a], b"log_plugin")));
    let call = decode_call(&b).unwrap();
    assert_eq!(call.sequence, 300);
    match call.command {
        Some(Command::GetPluginInfo { name }) => assert_eq!(name, "log_plugin"),
        other => panic!("unexpected {:?}", other),
    }
}

#[test]
fn decodes_start_instance() {
    let mut inner = with_len(&[0x0a], b"log_plugin");
    inner.extend(with_len(&[0x12], b"{}"));
    let mut b = vec![0x08, 0x02];
    b.extend(with_len(&[0x8a, 0x02], &inner));
    let call = decode_call(&b).unwrap();
    assert_eq!(call.sequence, 2);
    match call.command {
        Some(Command::StartInstance { name, config }) => {
            assert_eq!(name, "log_plugin");
            assert_eq!(config, b"{}".to_vec());
        }
        other => panic!("unexpected {:?}", other),
    }
}

#[test]
fn decodes_instance_commands() {
    let b = with_len(&[0x92, 0x02], &[0x08, 0x8f, 0x4e]);
    let call = decode_call(&b).unwrap();
    assert_eq!(call.sequence, 0);
    assert!(matches!(call.command, Some(Command::GetInstanceStatus { instance_id: 9999 })));

    let b = with_len(&[0x9a, 0x02], &[0x08, 0x05]);
    assert!(matches!(decode_call(&b).unwrap().command, Some(Command::CloseInstance { instance_id: 5 })));

    let b = with_len(&[0xa2, 0x02], &with_len(&[0x12], b"access"));
    match decode_call(&b).unwrap().command {
        Some(Command::HandleEvent { instance_id, event_name }) => {
            assert_eq!(instance_id, 0);
            assert_eq!(event_name, "access");
        }
        other => panic!("unexpected {:?}", other),
    }
}

#[test]
fn decodes_negative_instance_id() {
    let body = [0x08, 0xff, 0xff, 0xff, 0xff, 0xff, 0xff, 0xff, 0xff, 0xff, 0x01];
    let c = decode_command(34, &body).unwrap();
    assert!(matches!(c, Command::GetInstanceStatus { instance_id: -1 }));
}

#[test]
fn call_without_command() {
    let call = decode_call(&[0x08, 0x07]).unwrap();
    assert_eq!(call.sequence, 7);
    assert!(call.command.is_none());
    let call = decode_call(&[]).unwrap();
    assert_eq!(call.sequence, 0);
    assert!(call.command.is_none());
}

#[test]
fn unknown_fields_are_skipped() {
    let b = [0x18, 0x05, 0x25, 1, 2, 3, 4, 0x08, 0x03, 0xfa, 0x01, 0x00];
    let call = decode_call(&b).unwrap();
    assert_eq!(call.sequence, 3);
    assert!(matches!(call.command, Some(Command::GetPluginNames)));
}

#[test]
fn last_command_counts() {
    let mut b = vec![0xfa, 0x01, 0x00];
    b.extend(with_len(&[0x9a, 0x02], &[0x08, 0x02]));
    assert!(matches!(decode_call(&b).unwrap().command, Some(Command::CloseInstance { instance_id: 2 })));
}

#[test]
fn malformed_calls_are_rejected() {
    assert_eq!(decode_call(&[0x08]).unwrap_err(), WireError::Malformed);
    assert_eq!(decode_call(&[0xf8, 0x01, 0x00]).unwrap_err(), WireError::Malformed);
    assert_eq!(decode_call(&[0x82, 0x02, 0x03, 0x0a, 0x01, 0xff]).unwrap_err(), WireError::Malformed);
    assert_eq!(decode_call(&[0x82, 0x02, 0x09, 0x0a]).unwrap_err(), WireError::Malformed);
    assert_eq!(decode_call(&[0x0b, 0x00]).unwrap_err(), WireError::Malformed);
    assert_eq!(decode_call(&[0x00, 0x00]).unwrap_err(), WireError::Malformed);
    assert_eq!(decode_command(40, &[]).unwrap_err(), WireError::Malformed);
}

#[test]
fn encodes_instance_status_return() {
    let r = RpcReturn {
        sequence: 1,
        value: ReturnValue::InstanceStatus(InstanceStatus {
            name: "log_plugin".to_string(),
            instance_id: 0,
            started_at: 5,
        }),
    };
    let mut want = vec![0x08, 0x01, 0x8a, 0x02, 14, 0x0a, 10];
    want.extend_from_slice(b"log_plugin");
    want.extend_from_slice(&[0x20, 0x05]);
    assert_eq!(encode_return(&r), want);
}

#[test]
fn encodes_plugin_names_return() {
    let r = RpcReturn {
        sequence: 0,
        value: ReturnValue::PluginNames(vec!["a".to_string(), "bc".to_string(), String::new()]),
    };
    assert_eq!(
        encode_return(&r),
        vec![0xfa, 0x01, 9, 0x0a, 1, b'a', 0x0a, 2, b'b', b'c', 0x0a, 0]
    );
}

#[test]
fn encodes_plugin_info_return() {
    let r = RpcReturn {
        sequence: 300,
        value: ReturnValue::PluginInfo(PluginInfo {
            name: "p".to_string(),
            updated_at: 0,
            loaded_at: 0,
            phases: vec!["access".to_string()],
            version: "0.1".to_string(),
            priority: -1,
            schema: "{}".to_string(),
        }),
    };
    let mut body = vec![0x0a, 1, b'p', 0x22, 6];
    body.extend_from_slice(b"access");
    body.extend_from_slice(&[0x2a, 3]);
    body.extend_from_slice(b"0.1");
    body.extend_from_slice(&[0x30, 0xff, 0xff, 0xff, 0xff, 0xff, 0xff, 0xff, 0xff, 0xff, 0x01]);
    body.extend_from_slice(&[0x3a, 2, b'{', b'}']);
    let mut want = vec![0x08, 0xac, 0x02, 0x82, 0x02, body.len() as u8];
    want.extend(body);
    assert_eq!(encode_return(&r), want);
}

#[test]
fn string_and_int_messages() {
    assert_eq!(encode_string_message(&"hi".to_string()), vec![0x0a, 2, b'h', b'i']);
    assert_eq!(encode_string_message(&String::new()), Vec::<u8>::new());
    assert_eq!(encode_int_message(150), vec![0x08, 0x96, 0x01]);
    assert_eq!(encode_int_message(0), Vec::<u8>::new());
    assert_eq!(decode_string_message(&[0x0a, 2, b'h', b'i']).unwrap(), "hi");
    assert_eq!(decode_string_message(&[]).unwrap(), "");
    assert_eq!(decode_int_message(&[0x08, 0x96, 0x01]).unwrap(), 150);
    assert_eq!(decode_int_message(&[0x0a, 0]).unwrap_err(), WireError::Malformed);
}
