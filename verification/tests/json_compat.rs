use task_service::jsonfmt::render_json_string;
use task_service::response::list_response;
use task_service::TaskService;

#[test]
fn list_envelope_parses_as_json() {
    let mut svc = TaskService::new();
    svc.create_task("say \"hi\"\n".to_string(), Some(-3));

    let (_, body) = svc.get_tasks();
    let v: serde_json::Value = serde_json::from_str(&body).unwrap();
    assert_eq!(v.get("success").unwrap().as_bool(), Some(true));
    let data = v.get("data").unwrap().as_array().unwrap();
    assert_eq!(data.len(), 1);
    assert_eq!(data[0].get("task_id").unwrap().as_i64(), Some(1));
    assert_eq!(data[0].get("name").unwrap().as_str(), Some("say \"hi\"\n"));
    assert_eq!(data[0].get("priority").unwrap().as_i64(), Some(-3));
}

#[test]
fn error_envelope_parses_as_json() {
    let (_, body) = list_response(Err("bad\u{1}news".to_string()));
    let v: serde_json::Value = serde_json::from_str(&body).unwrap();
    assert_eq!(v.get("success").unwrap().as_bool(), Some(false));
    assert_eq!(v.get("message").unwrap().as_str(), Some("bad\u{1}news"));
}

#[test]
fn string_escaping_matches_the_reference_encoder() {
    let samples = [
        "plain",
        "",
        "say \"hi\"",
        "back\\slash",
        "line\nbreak\ttab\rcr",
        "\u{0}\u{1}\u{8}\u{b}\u{c}\u{1f}",
        "unicode: å µ 秋",
    ];
    for s in samples {
        let reference = serde_json::to_string(s).unwrap();
        assert_eq!(render_json_string(s), reference);
    }
}
