use hostinfo::aggregate::system_document;
use hostinfo::category::{Category, Selection};
use hostinfo::json::Json;
use hostinfo::records::{
    CpuCoreRecord, CpuReading, CpuSample, DiskRecord, LoadAverage, MemoryStats, NetworkRecord,
    SensorRecord, SnapshotData, SystemIdentity, UserRecord,
};

fn empty_snapshot() -> SnapshotData {
    SnapshotData {
        cpu: None,
        process_count: None,
        memory: None,
        system: None,
        users: None,
        disks: None,
        networks: None,
        sensors: None,
        load_avg: None,
    }
}

fn obj_keys(doc: &Json) -> Vec<String> {
    match doc {
        Json::Obj(pairs) => pairs.iter().map(|p| p.0.clone()).collect(),
        _ => panic!("expected an object"),
    }
}

fn obj_get<'a>(doc: &'a Json, key: &str) -> &'a Json {
    match doc {
        Json::Obj(pairs) => {
            for p in pairs {
                if p.0 == key {
                    return &p.1;
                }
            }
            panic!("key not present");
        }
        _ => panic!("expected an object"),
    }
}

#[test]
fn memory_only_selection_yields_one_key() {
    let sel = Selection::from_requested(&vec![Category::Memory]);
    let mut snap = empty_snapshot();
    snap.memory = Some(MemoryStats {
        total_memory: 8_000_000,
        available_memory: 3_000_000,
        used_memory: 5_000_000,
        total_swap: 1_000_000,
        used_swap: 250,
    });
    let doc = system_document(&sel, &snap);
    assert_eq!(obj_keys(&doc), vec!["memory".to_string()]);
    let expected = Json::Obj(vec![
        ("total_memory".to_string(), Json::UInt(8_000_000)),
        ("available_memory".to_string(), Json::UInt(3_000_000)),
        ("used_memory".to_string(), Json::UInt(5_000_000)),
        ("total_swap".to_string(), Json::UInt(1_000_000)),
        ("used_swap".to_string(), Json::UInt(250)),
    ]);
    assert_eq!(obj_get(&doc, "memory"), &expected);
    // the five fields are unsigned by construction; the sample data also
    // keeps used within total
    match obj_get(&doc, "memory") {
        Json::Obj(pairs) => {
            assert_eq!(pairs.len(), 5);
            for p in &pairs[..] {
                assert!(matches!(p.1, Json::UInt(_)));
            }
        }
        _ => panic!("expected an object"),
    }
}

#[test]
fn empty_request_selects_all_nine() {
    let sel = Selection::from_requested(&vec![]);
    assert!(sel.needs_system_snapshot());
    let mut snap = empty_snapshot();
    snap.cpu = Some(CpuSample {
        physical_core_count: Some(2),
        reading: CpuReading {
            global_usage: (12.5f64).to_bits(),
            cores: vec![CpuCoreRecord {
                name: "cpu0".to_string(),
                brand: "Example Brand".to_string(),
                vendor_id: "GenuineExample".to_string(),
                frequency: 2400,
                usage: (12.5f64).to_bits(),
            }],
        },
    });
    snap.process_count = Some(42);
    snap.memory = Some(MemoryStats {
        total_memory: 100,
        available_memory: 60,
        used_memory: 40,
        total_swap: 10,
        used_swap: 1,
    });
    snap.system = Some(SystemIdentity {
        name: Some("exampleos".to_string()),
        kernel_version: None,
        os_version: None,
        long_os_version: None,
        host_name: Some("box".to_string()),
        boot_time: 1000,
        cpu_arch: Some("riscv".to_string()),
        distribution_id: "exampleos".to_string(),
        uptime: 77,
    });
    snap.users = Some(Vec::<UserRecord>::new());
    snap.disks = Some(Vec::<DiskRecord>::new());
    snap.networks = Some(Vec::<NetworkRecord>::new());
    snap.sensors = Some(Vec::<SensorRecord>::new());
    snap.load_avg = Some(LoadAverage {
        one: (0.5f64).to_bits(),
        five: (0.25f64).to_bits(),
        fifteen: (0.125f64).to_bits(),
    });
    let doc = system_document(&sel, &snap);
    assert_eq!(
        obj_keys(&doc),
        vec![
            "cpu".to_string(),
            "process".to_string(),
            "memory".to_string(),
            "system".to_string(),
            "user".to_string(),
            "disk".to_string(),
            "network".to_string(),
            "temperature".to_string(),
            "load-avg".to_string(),
        ]
    );
    assert_eq!(
        obj_get(&doc, "process"),
        &Json::Obj(vec![("process_count".to_string(), Json::UInt(42))])
    );
}

#[test]
fn subset_request_yields_exactly_those_keys() {
    let sel = Selection::from_requested(&vec![Category::User, Category::Disk]);
    assert!(!sel.needs_system_snapshot());
    let mut snap = empty_snapshot();
    snap.users = Some(Vec::<UserRecord>::new());
    snap.disks = Some(Vec::<DiskRecord>::new());
    let doc = system_document(&sel, &snap);
    assert_eq!(obj_keys(&doc), vec!["user".to_string(), "disk".to_string()]);
}

#[test]
fn repeated_request_entries_collapse() {
    let sel = Selection::from_requested(&vec![Category::Memory, Category::Memory]);
    let mut snap = empty_snapshot();
    snap.memory = Some(MemoryStats {
        total_memory: 1,
        available_memory: 1,
        used_memory: 0,
        total_swap: 0,
        used_swap: 0,
    });
    let doc = system_document(&sel, &snap);
    assert_eq!(obj_keys(&doc), vec!["memory".to_string()]);
}

#[test]
fn explicit_full_request_equals_all_nine_keys() {
    let sel = Selection::from_requested(&vec![
        Category::Cpu,
        Category::Disk,
        Category::LoadAvg,
        Category::Memory,
        Category::Network,
        Category::Process,
        Category::System,
        Category::Temperature,
        Category::User,
    ]);
    let snap = empty_snapshot();
    let doc = system_document(&sel, &snap);
    assert_eq!(obj_keys(&doc).len(), 9);
    // every slice failed to read: every category degrades to null, none is
    // dropped
    match &doc {
        Json::Obj(pairs) => {
            for p in pairs {
                assert_eq!(p.1, Json::Null);
            }
        }
        _ => panic!("expected an object"),
    }
}

#[test]
fn snapshot_needed_only_for_cpu_process_memory() {
    assert!(Selection::from_requested(&vec![Category::Cpu]).needs_system_snapshot());
    assert!(Selection::from_requested(&vec![Category::Process]).needs_system_snapshot());
    assert!(Selection::from_requested(&vec![Category::Memory]).needs_system_snapshot());
    assert!(!Selection::from_requested(&vec![Category::Disk]).needs_system_snapshot());
    assert!(!Selection::from_requested(&vec![
        Category::System,
        Category::User,
        Category::Network,
        Category::Temperature,
        Category::LoadAvg,
    ])
    .needs_system_snapshot());
}

#[test]
fn failed_sensor_read_is_isolated() {
    let sel = Selection::from_requested(&vec![
        Category::Memory,
        Category::Temperature,
        Category::Disk,
    ]);
    let mut snap = empty_snapshot();
    snap.memory = Some(MemoryStats {
        total_memory: 64,
        available_memory: 32,
        used_memory: 32,
        total_swap: 0,
        used_swap: 0,
    });
    snap.disks = Some(vec![DiskRecord {
        mount_point: "/".to_string(),
        name: "root".to_string(),
        kind: "SSD".to_string(),
        file_system: "ext4".to_string(),
        total_space: 500,
        available_space: 100,
        is_removable: false,
    }]);
    // the sensor list failed to refresh: its slice is absent
    snap.sensors = None;
    let doc = system_document(&sel, &snap);
    assert_eq!(
        obj_keys(&doc),
        vec![
            "memory".to_string(),
            "disk".to_string(),
            "temperature".to_string(),
        ]
    );
    assert_eq!(obj_get(&doc, "temperature"), &Json::Null);
    assert_eq!(
        obj_get(&doc, "memory"),
        &Json::Obj(vec![
            ("total_memory".to_string(), Json::UInt(64)),
            ("available_memory".to_string(), Json::UInt(32)),
            ("used_memory".to_string(), Json::UInt(32)),
            ("total_swap".to_string(), Json::UInt(0)),
            ("used_swap".to_string(), Json::UInt(0)),
        ])
    );
    let disks = obj_get(&doc, "disk");
    match disks {
        Json::Obj(pairs) => {
            assert_eq!(pairs.len(), 1);
            assert_eq!(pairs[0].0, "/".to_string());
        }
        _ => panic!("expected an object"),
    }
}

#[test]
fn selected_but_failed_category_renders_null() {
    let sel = Selection::from_requested(&vec![Category::LoadAvg]);
    let snap = empty_snapshot();
    let doc = system_document(&sel, &snap);
    assert_eq!(doc, Json::Obj(vec![("load-avg".to_string(), Json::Null)]));
}
