use hostinfo::aggregate::process_document;
use hostinfo::json::Json;
use hostinfo::records::{ProcessDetail, ProcessDiskUsage};

fn to_serde(v: &Json) -> serde_json::Value {
    match v {
        Json::Null => serde_json::Value::Null,
        Json::Bool(b) => serde_json::Value::Bool(*b),
        Json::UInt(n) => serde_json::Value::from(*n),
        Json::Float(bits) => match serde_json::Number::from_f64(f64::from_bits(*bits)) {
            Some(num) => serde_json::Value::Number(num),
            None => serde_json::Value::Null,
        },
        Json::Str(s) => serde_json::Value::String(s.clone()),
        Json::Arr(items) => serde_json::Value::Array(items.iter().map(to_serde).collect()),
        Json::Obj(pairs) => {
            let mut m = serde_json::Map::new();
            for p in pairs {
                m.insert(p.0.clone(), to_serde(&p.1));
            }
            serde_json::Value::Object(m)
        }
    }
}

fn sample_detail() -> ProcessDetail {
    ProcessDetail {
        name: "worker".to_string(),
        cmd: vec!["worker".to_string(), "--fast".to_string(), "-n".to_string()],
        exe: Some("/usr/bin/worker".to_string()),
        cwd: Some("/tmp/area".to_string()),
        root: Some("/".to_string()),
        memory: 1024,
        virtual_memory: 4096,
        parent: Some(1),
        session_id: Some(7),
        tasks: Some(vec![100, 101]),
        user_id: Some(1000),
        effective_user_id: Some(1000),
        group_id: Some(1000),
        effective_group_id: None,
        status: "Runnable".to_string(),
        start_time: 111,
        run_time: 22,
        cpu_usage: (3.5f64).to_bits(),
        disk_usage: ProcessDiskUsage {
            total_written_bytes: 4,
            written_bytes: 3,
            total_read_bytes: 2,
            read_bytes: 1,
        },
        thread_kind: None,
        environ: vec!["HOME=/root".to_string(), "LANG=C".to_string()],
    }
}

#[test]
fn missing_process_renders_null() {
    // a pid that matched nothing renders as `null`, on every lookup
    assert_eq!(process_document(&None), Json::Null);
    assert_eq!(process_document(&None), Json::Null);
    assert_eq!(process_document(&None), Json::Null);
}

#[test]
fn absent_pid_serializes_to_null_literal() {
    // the lookup of a pid that no process carries (say 999999) hands the
    // aggregator nothing; the whole output is then the literal `null`
    let doc = process_document(&None);
    assert_eq!(serde_json::to_string(&to_serde(&doc)).unwrap(), "null");
}

#[test]
fn process_detail_document_is_exact() {
    let doc = process_document(&Some(sample_detail()));
    let expected = Json::Obj(vec![
        ("name".to_string(), Json::Str("worker".to_string())),
        (
            "cmd".to_string(),
            Json::Arr(vec![
                Json::Str("worker".to_string()),
                Json::Str("--fast".to_string()),
                Json::Str("-n".to_string()),
            ]),
        ),
        ("exe".to_string(), Json::Str("/usr/bin/worker".to_string())),
        ("cwd".to_string(), Json::Str("/tmp/area".to_string())),
        ("root".to_string(), Json::Str("/".to_string())),
        ("memory".to_string(), Json::UInt(1024)),
        ("virtual_memory".to_string(), Json::UInt(4096)),
        ("parent".to_string(), Json::UInt(1)),
        ("session_id".to_string(), Json::UInt(7)),
        (
            "tasks".to_string(),
            Json::Arr(vec![Json::UInt(100), Json::UInt(101)]),
        ),
        ("user_id".to_string(), Json::UInt(1000)),
        ("effective_user_id".to_string(), Json::UInt(1000)),
        ("group_id".to_string(), Json::UInt(1000)),
        ("effective_group_id".to_string(), Json::Null),
        ("status".to_string(), Json::Str("Runnable".to_string())),
        ("start_time".to_string(), Json::UInt(111)),
        ("run_time".to_string(), Json::UInt(22)),
        ("cpu_usage".to_string(), Json::Float((3.5f64).to_bits())),
        (
            "disk_usage".to_string(),
            Json::Obj(vec![
                ("total_written_bytes".to_string(), Json::UInt(4)),
                ("written_bytes".to_string(), Json::UInt(3)),
                ("total_read_bytes".to_string(), Json::UInt(2)),
                ("read_bytes".to_string(), Json::UInt(1)),
            ]),
        ),
        ("thread_kind".to_string(), Json::Null),
        ("environ".to_string(), Json::Arr(vec![
            Json::Str("HOME=/root".to_string()),
            Json::Str("LANG=C".to_string()),
        ])),
    ]);
    assert_eq!(doc, expected);
}

#[test]
fn process_document_serialization_is_deterministic() {
    let a = process_document(&Some(sample_detail()));
    let b = process_document(&Some(sample_detail()));
    assert_eq!(a, b);
    assert_eq!(
        serde_json::to_string(&to_serde(&a)).unwrap(),
        serde_json::to_string(&to_serde(&b)).unwrap()
    );
}
