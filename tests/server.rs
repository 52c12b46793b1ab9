use kong_rs::frame::encode_frame;
use kong_rs::protocol::{Command, ReturnValue};
use kong_rs::server::{plan_call, reply_frame, start_instance, ProtocolError};
use kong_rs::{IdAllocator, InstanceTable, Phase, PluginInfo, Registry, Step};

struct Factory(u32);

struct Counter {
    calls: u32,
}

fn info(name: &str, priority: i32) -> PluginInfo {
    PluginInfo {
        name: name.to_string(),
        phases: vec![Phase::Access],
        version: "0.1.1".to_string(),
        priority,
        schema: "{}".to_string(),
    }
}

fn names_of(reg: &Registry<Factory>, table: &InstanceTable<Counter>) -> Vec<String> {
    match plan_call(&Some(Command::GetPluginNames), reg, table).unwrap() {
        Step::Reply(Some(ReturnValue::PluginNames(n))) => n,
        other => panic!("unexpected {:?}", other),
    }
}

#[test]
fn second_registration_replaces_the_first() {
    let mut reg: Registry<Factory> = Registry::new();
    reg.register(Factory(1), info("log_plugin", 10), 100);
    reg.register(Factory(2), info("other", 5), 101);
    reg.register(Factory(3), info("log_plugin", 20), 102);
    assert_eq!(reg.len(), 2);
    let i = reg.lookup(&"log_plugin".to_string()).unwrap();
    assert_eq!(reg.entry(i).factory.0, 3);
    assert_eq!(reg.entry(i).info.priority, 20);
    assert_eq!(reg.entry(i).registered_at, 102);
    let table: InstanceTable<Counter> = InstanceTable::new();
    assert_eq!(names_of(&reg, &table), vec!["log_plugin".to_string(), "other".to_string()]);
}

#[test]
fn ids_are_increasing_and_distinct() {
    let mut ids = IdAllocator::new();
    let a = ids.allocate().unwrap();
    let b = ids.allocate().unwrap();
    let c = ids.allocate().unwrap();
    assert_eq!((a, b, c), (0, 1, 2));
}

#[test]
fn misses_are_answered_with_an_empty_frame() {
    let mut reg: Registry<Factory> = Registry::new();
    reg.register(Factory(1), info("log_plugin", 10), 1);
    let mut table: InstanceTable<Counter> = InstanceTable::new();
    let miss = plan_call(&Some(Command::GetPluginInfo { name: "nonexistent".to_string() }), &reg, &table);
    assert!(matches!(miss, Ok(Step::Reply(None))));
    let miss = plan_call(&Some(Command::GetInstanceStatus { instance_id: 9999 }), &reg, &table);
    assert!(matches!(miss, Ok(Step::Reply(None))));
    let miss = plan_call(&Some(Command::CloseInstance { instance_id: 9999 }), &reg, &table);
    assert!(matches!(miss, Ok(Step::Reply(None))));
    assert!(table.remove(9999).is_none());
    assert_eq!(table.len(), 0);
    assert_eq!(reg.len(), 1);
    assert_eq!(reply_frame(7, None).unwrap(), vec![0u8, 0, 0, 0]);
}

#[test]
fn unknown_phase_and_bad_config_end_the_connection() {
    let mut reg: Registry<Factory> = Registry::new();
    reg.register(Factory(1), info("log_plugin", 10), 1);
    let table: InstanceTable<Counter> = InstanceTable::new();
    let r = plan_call(&Some(Command::HandleEvent { instance_id: 0, event_name: "rewrite".to_string() }), &reg, &table);
    assert_eq!(r.unwrap_err(), ProtocolError::UnknownPhase);
    let r = plan_call(&Some(Command::StartInstance { name: "log_plugin".to_string(), config: vec![0xff] }), &reg, &table);
    assert_eq!(r.unwrap_err(), ProtocolError::ConfigNotUtf8);
}

#[test]
fn plugin_info_reports_the_factory() {
    let mut reg: Registry<Factory> = Registry::new();
    reg.register(Factory(1), info("log_plugin", 10), 1234);
    let table: InstanceTable<Counter> = InstanceTable::new();
    match plan_call(&Some(Command::GetPluginInfo { name: "log_plugin".to_string() }), &reg, &table).unwrap() {
        Step::Reply(Some(ReturnValue::PluginInfo(m))) => {
            assert_eq!(m.name, "log_plugin");
            assert_eq!(m.priority, 10);
            assert_eq!(m.phases, vec!["access".to_string()]);
            assert_eq!(m.version, "0.1.1");
            assert_eq!(m.updated_at, 1234);
            assert_eq!(m.loaded_at, 1234);
            assert_eq!(m.schema, "{}");
        }
        other => panic!("unexpected {:?}", other),
    }
}

fn run_start(
    reg: &Registry<Factory>,
    table: &mut InstanceTable<Counter>,
    ids: &mut IdAllocator,
    step: Step,
    now: i64,
) -> i32 {
    match step {
        Step::Start { factory, config } => {
            assert_eq!(config, "{}");
            let id = ids.allocate().unwrap();
            let status = match start_instance(reg, factory, table, id, now, Counter { calls: 0 }) {
                Ok(s) => s,
                Err(_) => panic!("id taken"),
            };
            assert_eq!(status.instance_id, id);
            assert_eq!(status.started_at, now);
            assert_eq!(status.name, "log_plugin");
            id
        }
        other => panic!("unexpected {:?}", other),
    }
}

#[test]
fn instance_lifecycle() {
    let mut reg: Registry<Factory> = Registry::new();
    reg.register(Factory(1), info("log_plugin", 10), 1);
    let mut table: InstanceTable<Counter> = InstanceTable::new();
    let mut ids = IdAllocator::new();

    let start = Some(Command::StartInstance { name: "log_plugin".to_string(), config: b"{}".to_vec() });
    let step = plan_call(&start, &reg, &table).unwrap();
    let id = run_start(&reg, &mut table, &mut ids, step, 1_700_000_000);
    assert_eq!(id, 0);

    let event = Some(Command::HandleEvent { instance_id: 0, event_name: "access".to_string() });
    match plan_call(&event, &reg, &table).unwrap() {
        Step::Invoke { instance_id, phase } => {
            assert_eq!(instance_id, 0);
            assert_eq!(phase, Phase::Access);
            let i = table.find(instance_id).unwrap();
            assert_eq!(table.entry(i).plugin.calls, 0);
            let removed = table.remove(instance_id).unwrap();
            let again = kong_rs::server::Instance { plugin: Counter { calls: removed.plugin.calls + 1 }, ..removed };
            assert!(table.insert(again).is_ok());
        }
        other => panic!("unexpected {:?}", other),
    }
    assert_eq!(table.entry(table.find(0).unwrap()).plugin.calls, 1);

    match plan_call(&Some(Command::GetInstanceStatus { instance_id: 0 }), &reg, &table).unwrap() {
        Step::Reply(Some(ReturnValue::InstanceStatus(s))) => {
            assert_eq!(s.instance_id, 0);
            assert_eq!(s.started_at, 1_700_000_000);
        }
        other => panic!("unexpected {:?}", other),
    }

    match plan_call(&Some(Command::CloseInstance { instance_id: 0 }), &reg, &table).unwrap() {
        Step::Close { instance_id } => assert!(table.remove(instance_id).is_some()),
        other => panic!("unexpected {:?}", other),
    }
    let after = plan_call(&Some(Command::GetInstanceStatus { instance_id: 0 }), &reg, &table);
    assert!(matches!(after, Ok(Step::Reply(None))));

    let step = plan_call(&start, &reg, &table).unwrap();
    assert_eq!(run_start(&reg, &mut table, &mut ids, step, 5), 1);
}

#[test]
fn two_connections_start_distinct_instances() {
    let mut reg: Registry<Factory> = Registry::new();
    reg.register(Factory(1), info("log_plugin", 10), 1);
    let mut table: InstanceTable<Counter> = InstanceTable::new();
    let mut ids = IdAllocator::new();
    let start = Some(Command::StartInstance { name: "log_plugin".to_string(), config: b"{}".to_vec() });
    let first = plan_call(&start, &reg, &table).unwrap();
    let second = plan_call(&start, &reg, &table).unwrap();
    let a = run_start(&reg, &mut table, &mut ids, first, 10);
    let b = run_start(&reg, &mut table, &mut ids, second, 10);
    assert_ne!(a, b);
    assert_eq!(table.len(), 2);
}

#[test]
fn start_uses_the_only_factory_under_another_name() {
    let mut reg: Registry<Factory> = Registry::new();
    reg.register(Factory(1), info("log_plugin", 10), 1);
    let table: InstanceTable<Counter> = InstanceTable::new();
    let start = Some(Command::StartInstance { name: "process_name".to_string(), config: b"{}".to_vec() });
    assert!(matches!(plan_call(&start, &reg, &table), Ok(Step::Start { factory: 0, .. })));
    reg.register(Factory(2), info("second", 1), 2);
    assert!(matches!(plan_call(&start, &reg, &table), Ok(Step::Reply(None))));
}

#[test]
fn phase_not_declared_is_not_run() {
    let mut reg: Registry<Factory> = Registry::new();
    let mut quiet = info("quiet", 1);
    quiet.phases = Vec::new();
    reg.register(Factory(1), quiet, 1);
    let mut table: InstanceTable<Counter> = InstanceTable::new();
    assert!(start_instance(&reg, 0, &mut table, 4, 9, Counter { calls: 0 }).is_ok());
    assert!(start_instance(&reg, 0, &mut table, 4, 9, Counter { calls: 0 }).is_err());
    let event = Some(Command::HandleEvent { instance_id: 4, event_name: "access".to_string() });
    assert!(matches!(plan_call(&event, &reg, &table), Ok(Step::Reply(None))));
}

#[test]
fn reply_frame_carries_the_sequence() {
    let frame = reply_frame(1, Some(ReturnValue::PluginNames(vec!["a".to_string()]))).unwrap();
    let body = vec![0x08, 0x01, 0xfa, 0x01, 3, 0x0a, 1, b'a'];
    assert_eq!(frame, encode_frame(&body).unwrap());
}
