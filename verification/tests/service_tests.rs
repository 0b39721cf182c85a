use task_service::jsonfmt::{render_i32, render_json_string, render_task};
use task_service::response::{create_response, delete_response, list_response, update_response};
use task_service::{Task, TaskService, TaskStore};

#[test]
fn example_scenario_create_list_delete() {
    let mut svc = TaskService::new();

    let (status, body) = svc.create_task("buy milk".to_string(), Some(2));
    assert_eq!(status, 201);
    assert_eq!(body, "{\"success\":true,\"data\":{\"task_id\":1}}");

    let (status, body) = svc.get_tasks();
    assert_eq!(status, 200);
    assert_eq!(
        body,
        "{\"success\":true,\"data\":[{\"task_id\":1,\"name\":\"buy milk\",\"priority\":2}]}"
    );

    let (status, body) = svc.delete_task(1);
    assert_eq!(status, 200);
    assert_eq!(body, "{\"success\":true}");

    let (status, body) = svc.get_tasks();
    assert_eq!(status, 200);
    assert_eq!(body, "{\"success\":true,\"data\":[]}");
}

#[test]
fn created_tasks_are_listed_with_their_fields() {
    let mut store = TaskStore::new();
    let a = store.insert("first".to_string(), None);
    let b = store.insert("second".to_string(), Some(7));
    assert!(a >= 1);
    assert!(b >= 1);
    assert_ne!(a, b);

    let rows = store.list();
    assert_eq!(rows.len(), 2);
    let first = rows.iter().find(|t| t.task_id == a).unwrap();
    assert_eq!(first.name, "first");
    assert_eq!(first.priority, None);
    let second = rows.iter().find(|t| t.task_id == b).unwrap();
    assert_eq!(second.name, "second");
    assert_eq!(second.priority, Some(7));
}

#[test]
fn listing_is_sorted_ascending_by_id() {
    let mut store = TaskStore::new();
    for i in 0..5 {
        store.insert(format!("task {}", i), Some(i));
    }
    // removing and re-creating rows keeps later ids larger
    store.delete(2);
    store.insert("again".to_string(), None);

    let rows = store.list();
    assert_eq!(rows.len(), 5);
    for w in rows.windows(2) {
        assert!(w[0].task_id < w[1].task_id);
    }
}

#[test]
fn update_of_missing_id_succeeds_without_change() {
    let mut svc = TaskService::new();
    svc.create_task("keep me".to_string(), Some(1));
    let (_, listed_before) = svc.get_tasks();

    let (status, body) = svc.update_task(99, Some("ghost".to_string()), Some(3));
    assert_eq!(status, 200);
    assert_eq!(body, "{\"success\":true}");

    let (_, listed_after) = svc.get_tasks();
    assert_eq!(listed_after, listed_before);
}

#[test]
fn delete_of_missing_id_succeeds_and_is_idempotent() {
    let mut svc = TaskService::new();
    svc.create_task("target".to_string(), None);

    let (status, body) = svc.delete_task(42);
    assert_eq!(status, 200);
    assert_eq!(body, "{\"success\":true}");

    let (status, _) = svc.delete_task(1);
    assert_eq!(status, 200);
    let (status, body) = svc.delete_task(1);
    assert_eq!(status, 200);
    assert_eq!(body, "{\"success\":true}");

    let (_, listed) = svc.get_tasks();
    assert_eq!(listed, "{\"success\":true,\"data\":[]}");
}

#[test]
fn update_omitting_priority_stores_null() {
    let mut svc = TaskService::new();
    svc.create_task("buy milk".to_string(), Some(5));

    let (status, body) = svc.update_task(1, Some("x".to_string()), None);
    assert_eq!(status, 200);
    assert_eq!(body, "{\"success\":true}");

    let (_, listed) = svc.get_tasks();
    assert_eq!(
        listed,
        "{\"success\":true,\"data\":[{\"task_id\":1,\"name\":\"x\",\"priority\":null}]}"
    );
}

#[test]
fn update_omitting_name_stores_empty_text() {
    let mut svc = TaskService::new();
    svc.create_task("named".to_string(), Some(4));

    svc.update_task(1, None, Some(9));

    let (_, listed) = svc.get_tasks();
    assert_eq!(
        listed,
        "{\"success\":true,\"data\":[{\"task_id\":1,\"name\":\"\",\"priority\":9}]}"
    );
}

#[test]
fn update_overwrites_both_fields_of_the_matching_row() {
    let mut store = TaskStore::new();
    store.insert("one".to_string(), Some(1));
    store.insert("two".to_string(), Some(2));

    store.update(2, Some("renamed".to_string()), Some(8));

    let rows = store.list();
    assert_eq!(rows.len(), 2);
    assert_eq!(rows[0].name, "one");
    assert_eq!(rows[0].priority, Some(1));
    assert_eq!(rows[1].name, "renamed");
    assert_eq!(rows[1].priority, Some(8));
}

#[test]
fn storage_failures_map_to_500_with_the_error_text() {
    let (status, body) = list_response(Err("connection reset".to_string()));
    assert_eq!(status, 500);
    assert_eq!(body, "{\"success\":false,\"message\":\"connection reset\"}");

    let (status, body) = create_response(Err("duplicate key".to_string()));
    assert_eq!(status, 500);
    assert_eq!(body, "{\"success\":false,\"message\":\"duplicate key\"}");

    let (status, body) = update_response(Err("timed out".to_string()));
    assert_eq!(status, 500);
    assert_eq!(body, "{\"success\":false,\"message\":\"timed out\"}");

    let (status, body) = delete_response(Err("pool closed".to_string()));
    assert_eq!(status, 500);
    assert_eq!(body, "{\"success\":false,\"message\":\"pool closed\"}");
}

#[test]
fn success_responses_carry_the_operation_result() {
    let rows = vec![Task::new(3, "a".to_string(), Some(-1))];
    let (status, body) = list_response(Ok(rows));
    assert_eq!(status, 200);
    assert_eq!(
        body,
        "{\"success\":true,\"data\":[{\"task_id\":3,\"name\":\"a\",\"priority\":-1}]}"
    );

    let (status, body) = create_response(Ok(12));
    assert_eq!(status, 201);
    assert_eq!(body, "{\"success\":true,\"data\":{\"task_id\":12}}");

    let (status, body) = update_response(Ok(()));
    assert_eq!(status, 200);
    assert_eq!(body, "{\"success\":true}");

    let (status, body) = delete_response(Ok(()));
    assert_eq!(status, 200);
    assert_eq!(body, "{\"success\":true}");
}

#[test]
fn integers_render_in_decimal() {
    assert_eq!(render_i32(0), "0");
    assert_eq!(render_i32(7), "7");
    assert_eq!(render_i32(42), "42");
    assert_eq!(render_i32(1000), "1000");
    assert_eq!(render_i32(-5), "-5");
    assert_eq!(render_i32(i32::MAX), "2147483647");
    assert_eq!(render_i32(i32::MIN), "-2147483648");
}

#[test]
fn strings_are_escaped_for_json() {
    assert_eq!(render_json_string("plain"), "\"plain\"");
    assert_eq!(render_json_string(""), "\"\"");
    assert_eq!(render_json_string("say \"hi\""), "\"say \\\"hi\\\"\"");
    assert_eq!(render_json_string("back\\slash"), "\"back\\\\slash\"");
    assert_eq!(render_json_string("line\nbreak"), "\"line\\nbreak\"");
    assert_eq!(render_json_string("tab\there"), "\"tab\\there\"");
    assert_eq!(render_json_string("cr\rlf"), "\"cr\\rlf\"");
    assert_eq!(render_json_string("\u{8}\u{c}"), "\"\\b\\f\"");
    assert_eq!(render_json_string("\u{1}\u{1f}"), "\"\\u0001\\u001f\"");
    assert_eq!(render_json_string("unicode: å µ"), "\"unicode: å µ\"");
}

#[test]
fn a_task_renders_as_a_json_object() {
    let t = Task::new(10, "weird \"name\"".to_string(), None);
    assert_eq!(
        render_task(&t),
        "{\"task_id\":10,\"name\":\"weird \\\"name\\\"\",\"priority\":null}"
    );
}

#[test]
fn contains_id_reports_presence() {
    let mut store = TaskStore::new();
    assert!(!store.contains_id(1));
    let id = store.insert("here".to_string(), None);
    assert!(store.contains_id(id));
    store.delete(id);
    assert!(!store.contains_id(id));
}
