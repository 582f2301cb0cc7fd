use plughost::{Dispatch, Engine, TaskInput, TaskState};
use serde_json::Value;

fn input(module: &str, payload: &str) -> TaskInput {
    TaskInput { module: module.to_string(), data: serde_json::from_str(payload).unwrap() }
}

/// Stands in for the scheduler and the native side of one plugin call:
/// decode the dispatched payload, compute, and encode the response.
fn run_plugin(engine: &mut Engine, id: u64) {
    let dispatch = engine.execute_begin(id);
    match dispatch {
        Dispatch::Call { module, wire } => {
            let text = plughost::c_str_to_str(&wire);
            let payload: Value = serde_json::from_str(&text).unwrap();
            let response = match module.as_str() {
                "sum" => {
                    let nums: Vec<u64> =
                        payload.as_array().unwrap().iter().map(|v| v.as_u64().unwrap()).collect();
                    serde_json::to_string(&plughost::sum(nums)).unwrap()
                }
                "mul" => {
                    let nums: Vec<u64> =
                        payload.as_array().unwrap().iter().map(|v| v.as_u64().unwrap()).collect();
                    serde_json::to_string(&plughost::mul(nums)).unwrap()
                }
                "fibonacci" => {
                    let n = payload.as_u64().unwrap();
                    let mut f0: u64 = 0;
                    let mut f1: u64 = 1;
                    for _ in 0..n {
                        let f2 = f0 + f1;
                        f0 = f1;
                        f1 = f2;
                    }
                    serde_json::to_string(&f0.to_string()).unwrap()
                }
                _ => "null".to_string(),
            };
            let result = plughost::c_str_to_json(&plughost::str_to_c_str(&response));
            engine.execute_finish(id, result);
        }
        Dispatch::Unknown => {
            engine.execute_finish_unknown(id);
        }
    }
}

fn names(v: &[&str]) -> Vec<String> {
    v.iter().map(|s| s.to_string()).collect()
}

#[test]
fn sum_task_end_to_end() {
    let mut engine = Engine::new(names(&["sum", "fibonacci"]));
    let id = engine.submit(input("sum", "[1,2,3]"));
    run_plugin(&mut engine, id);
    match engine.get_task(id).unwrap() {
        TaskState::Done(out) => {
            assert_eq!(out.input.module, "sum");
            assert_eq!(out.result, Ok(serde_json::from_str::<Value>("6").unwrap()));
        }
        _ => panic!("task not done"),
    }
}

#[test]
fn fibonacci_task_end_to_end() {
    let mut engine = Engine::new(names(&["sum", "fibonacci"]));
    let id = engine.submit(input("fibonacci", "10"));
    run_plugin(&mut engine, id);
    match engine.get_task(id).unwrap() {
        TaskState::Done(out) => {
            assert_eq!(out.result, Ok(Value::String("55".to_string())));
        }
        _ => panic!("task not done"),
    }
}

#[test]
fn unknown_plugin_yields_done_with_error_naming_it() {
    let mut engine = Engine::new(names(&["sum"]));
    let id = engine.submit(input("nonexistent", "null"));
    run_plugin(&mut engine, id);
    match engine.get_task(id).unwrap() {
        TaskState::Done(out) => match &out.result {
            Err(e) => {
                assert_eq!(e, "Unknown plugin 'nonexistent'");
                assert!(e.contains("nonexistent"));
            }
            Ok(_) => panic!("expected an error result"),
        },
        _ => panic!("task stuck instead of done"),
    }
}

#[test]
fn submitted_ids_are_unique_and_increasing() {
    let mut engine = Engine::new(names(&["sum"]));
    let a = engine.submit(input("sum", "[]"));
    let b = engine.submit(input("sum", "[1]"));
    let c = engine.submit(input("nonexistent", "null"));
    assert!(a < b && b < c);
    assert_eq!((a, b, c), (0, 1, 2));
}

#[test]
fn task_states_advance_in_order() {
    let mut engine = Engine::new(names(&["sum"]));
    let id = engine.submit(input("sum", "[4,5]"));
    assert!(matches!(engine.get_task(id), Some(TaskState::New(_))));
    let dispatch = engine.execute_begin(id);
    assert!(matches!(engine.get_task(id), Some(TaskState::InProgress(_))));
    match dispatch {
        Dispatch::Call { .. } => {
            let result = plughost::c_str_to_json(&plughost::str_to_c_str("9"));
            engine.execute_finish(id, result);
        }
        Dispatch::Unknown => panic!("sum should be registered"),
    }
    assert!(matches!(engine.get_task(id), Some(TaskState::Done(_))));
}

#[test]
fn executions_on_different_ids_do_not_conflict() {
    let mut engine = Engine::new(names(&["sum", "mul"]));
    let a = engine.submit(input("sum", "[1,2]"));
    let b = engine.submit(input("mul", "[3,4]"));
    run_plugin(&mut engine, b);
    run_plugin(&mut engine, a);
    match engine.get_task(a).unwrap() {
        TaskState::Done(out) => {
            assert_eq!(out.result, Ok(serde_json::from_str::<Value>("3").unwrap()))
        }
        _ => panic!("task a not done"),
    }
    match engine.get_task(b).unwrap() {
        TaskState::Done(out) => {
            assert_eq!(out.result, Ok(serde_json::from_str::<Value>("0").unwrap()))
        }
        _ => panic!("task b not done"),
    }
}

#[test]
fn reload_waits_for_inflight_executions() {
    let mut engine = Engine::new(names(&["sum"]));
    let a = engine.submit(input("sum", "[1]"));
    let b = engine.submit(input("sum", "[2]"));
    let da = engine.execute_begin(a);
    let db = engine.execute_begin(b);
    // two executions hold the registry; a reload must not proceed yet
    assert_eq!(engine.reader_count(), 2);
    for (id, d) in [(a, da), (b, db)] {
        match d {
            Dispatch::Call { .. } => {
                engine.execute_finish(id, plughost::c_str_to_json(&plughost::str_to_c_str("1")));
            }
            Dispatch::Unknown => panic!("sum should be registered"),
        }
    }
    assert_eq!(engine.reader_count(), 0);
    engine.reload_plugins(names(&["mul"]));
    assert_eq!(engine.list_plugin_names(), vec!["mul".to_string()]);
}

#[test]
fn reload_with_empty_directory_clears_everything() {
    let mut engine = Engine::new(names(&["sum", "fibonacci"]));
    engine.reload_plugins(Vec::new());
    assert!(engine.list_plugin_names().is_empty());
    let id = engine.submit(input("sum", "[1,2,3]"));
    run_plugin(&mut engine, id);
    match engine.get_task(id).unwrap() {
        TaskState::Done(out) => {
            assert_eq!(out.result, Err("Unknown plugin 'sum'".to_string()));
        }
        _ => panic!("task stuck instead of done"),
    }
}

#[test]
fn duplicate_plugin_names_are_kept_once() {
    let engine = Engine::new(names(&["a", "a", "b", "a"]));
    assert_eq!(engine.list_plugin_names(), names(&["a", "b"]));
}

#[test]
fn plugin_names_are_listed_in_ascending_order() {
    let engine = Engine::new(names(&["zeta", "alpha", "mid", "alpha"]));
    assert_eq!(engine.list_plugin_names(), names(&["alpha", "mid", "zeta"]));
}

#[test]
fn list_tasks_reports_every_record() {
    let mut engine = Engine::new(names(&["sum"]));
    let a = engine.submit(input("sum", "[1]"));
    let b = engine.submit(input("nonexistent", "null"));
    run_plugin(&mut engine, a);
    let tasks = engine.list_tasks();
    assert_eq!(tasks.len(), 2);
    let rec_a = &tasks.iter().find(|p| p.0 == a).unwrap().1;
    let rec_b = &tasks.iter().find(|p| p.0 == b).unwrap().1;
    assert!(matches!(rec_a, TaskState::Done(_)));
    assert!(matches!(rec_b, TaskState::New(_)));
}

#[test]
fn dispatched_wire_carries_the_payload() {
    let mut engine = Engine::new(names(&["sum"]));
    let payload: Value = serde_json::from_str("[1,2,3]").unwrap();
    let id = engine.submit(TaskInput { module: "sum".to_string(), data: payload.clone() });
    match engine.execute_begin(id) {
        Dispatch::Call { module, wire } => {
            assert_eq!(module, "sum");
            assert_eq!(plughost::c_str_to_json(&wire).unwrap(), payload);
            engine.execute_finish(id, Ok(Value::Null));
        }
        Dispatch::Unknown => panic!("sum should be registered"),
    }
}

#[test]
fn payload_with_escaped_null_survives_the_boundary() {
    // a null inside string content leaves the encoder as the escape
    // sequence \u0000, so nothing is stripped and the value round-trips
    let mut engine = Engine::new(names(&["sum"]));
    let payload: Value = serde_json::from_str("\"a\\u0000b\"").unwrap();
    let id = engine.submit(TaskInput { module: "sum".to_string(), data: payload.clone() });
    match engine.execute_begin(id) {
        Dispatch::Call { wire, .. } => {
            assert_eq!(plughost::c_str_to_json(&wire).unwrap(), payload);
            engine.execute_finish(id, Ok(Value::Null));
        }
        Dispatch::Unknown => panic!("sum should be registered"),
    }
}

#[test]
fn sum_computes_exactly() {
    assert_eq!(plughost::sum(vec![1, 2, 3]), 6);
    assert_eq!(plughost::sum(Vec::new()), 0);
}

#[test]
fn mul_fold_seeded_with_zero_is_zero() {
    assert_eq!(plughost::mul(vec![2, 3]), 0);
    assert_eq!(plughost::mul(Vec::new()), 0);
}
