use hostinfo::json::Json;
use hostinfo::normalize::{
    disk_entry, disks_object, load_avg_object, network_entry, sensor_entry, sensors_object,
    system_object, user_entry, users_object,
};
use hostinfo::records::{
    DiskRecord, GroupRecord, LoadAverage, NetworkRecord, SensorRecord, SystemIdentity, UserRecord,
};
use hostinfo::sampler::sample_cpu;
use hostinfo::normalize::cpu_object;
use hostinfo::records::{CpuCoreRecord, CpuReading};

fn to_serde(v: &Json) -> serde_json::Value {
    match v {
        Json::Null => serde_json::Value::Null,
        Json::Bool(b) => serde_json::Value::Bool(*b),
        Json::UInt(n) => serde_json::Value::from(*n),
        Json::Float(bits) => match serde_json::Number::from_f64(f64::from_bits(*bits)) {
            Some(num) => serde_json::Value::Number(num),
            None => serde_json::Value::Null,
        },
        Json::Str(s) => serde_json::Value::String(s.clone()),
        Json::Arr(items) => serde_json::Value::Array(items.iter().map(to_serde).collect()),
        Json::Obj(pairs) => {
            let mut m = serde_json::Map::new();
            for p in pairs {
                m.insert(p.0.clone(), to_serde(&p.1));
            }
            serde_json::Value::Object(m)
        }
    }
}

fn sample_disk() -> DiskRecord {
    DiskRecord {
        mount_point: "/data".to_string(),
        name: "sda1".to_string(),
        kind: "HDD".to_string(),
        file_system: "xfs".to_string(),
        total_space: 900,
        available_space: 450,
        is_removable: true,
    }
}

fn sample_network() -> NetworkRecord {
    NetworkRecord {
        interface_name: "eth0".to_string(),
        mac_address: "00:11:22:33:44:55".to_string(),
        ip_networks: vec!["192.0.2.1/24".to_string(), "2001:db8::1/64".to_string()],
        received: 1,
        total_received: 2,
        transmitted: 3,
        total_transmitted: 4,
        packets_received: 5,
        total_packets_received: 6,
        packets_transmitted: 7,
        total_packets_transmitted: 8,
        errors_on_received: 9,
        total_errors_on_received: 10,
        errors_on_transmitted: 11,
        total_errors_on_transmitted: 12,
    }
}

#[test]
fn disk_entry_keys_by_mount_point() {
    let (key, value) = disk_entry(&sample_disk());
    assert_eq!(key, "/data".to_string());
    assert!(!key.is_empty());
    let expected = Json::Obj(vec![
        ("name".to_string(), Json::Str("sda1".to_string())),
        ("kind".to_string(), Json::Str("HDD".to_string())),
        ("file_system".to_string(), Json::Str("xfs".to_string())),
        ("total_space".to_string(), Json::UInt(900)),
        ("available_space".to_string(), Json::UInt(450)),
        ("is_removable".to_string(), Json::Bool(true)),
    ]);
    assert_eq!(value, expected);
}

#[test]
fn network_entry_preserves_ip_order() {
    let (key, value) = network_entry(&sample_network());
    assert_eq!(key, "eth0".to_string());
    match &value {
        Json::Obj(pairs) => {
            assert_eq!(pairs[0].0, "mac_address".to_string());
            assert_eq!(pairs[1].0, "ip_networks".to_string());
            assert_eq!(
                pairs[1].1,
                Json::Arr(vec![
                    Json::Str("192.0.2.1/24".to_string()),
                    Json::Str("2001:db8::1/64".to_string()),
                ])
            );
            assert_eq!(pairs.len(), 14);
        }
        _ => panic!("expected an object"),
    }
}

#[test]
fn renormalizing_the_same_record_is_byte_identical() {
    let a = disk_entry(&sample_disk());
    let b = disk_entry(&sample_disk());
    assert_eq!(a, b);
    assert_eq!(
        serde_json::to_string(&to_serde(&a.1)).unwrap(),
        serde_json::to_string(&to_serde(&b.1)).unwrap()
    );
    let na = network_entry(&sample_network());
    let nb = network_entry(&sample_network());
    assert_eq!(na.0, nb.0);
    assert_eq!(
        serde_json::to_string(&to_serde(&na.1)).unwrap(),
        serde_json::to_string(&to_serde(&nb.1)).unwrap()
    );
}

#[test]
fn sensor_label_collision_keeps_the_later_sensor() {
    let sensors = vec![
        SensorRecord {
            label: "coretemp".to_string(),
            temperature: Some((40.0f64).to_bits()),
            max: Some((80.0f64).to_bits()),
            critical: None,
        },
        SensorRecord {
            label: "acpitz".to_string(),
            temperature: Some((30.0f64).to_bits()),
            max: Some((70.0f64).to_bits()),
            critical: Some((90.0f64).to_bits()),
        },
        SensorRecord {
            label: "coretemp".to_string(),
            temperature: Some((45.0f64).to_bits()),
            max: Some((85.0f64).to_bits()),
            critical: Some((95.0f64).to_bits()),
        },
    ];
    let doc = sensors_object(&sensors);
    match &doc {
        Json::Obj(pairs) => {
            assert_eq!(pairs.len(), 2);
            // overwrite happens in place: the colliding label keeps its slot
            assert_eq!(pairs[0].0, "coretemp".to_string());
            assert_eq!(pairs[1].0, "acpitz".to_string());
            assert_eq!(
                pairs[0].1,
                Json::Obj(vec![
                    ("temperature".to_string(), Json::Float((45.0f64).to_bits())),
                    ("max".to_string(), Json::Float((85.0f64).to_bits())),
                    ("critical".to_string(), Json::Float((95.0f64).to_bits())),
                ])
            );
        }
        _ => panic!("expected an object"),
    }
}

#[test]
fn sensor_without_critical_renders_null() {
    let (key, value) = sensor_entry(&SensorRecord {
        label: "edge".to_string(),
        temperature: Some((1.25f64).to_bits()),
        max: Some((2.5f64).to_bits()),
        critical: None,
    });
    assert_eq!(key, "edge".to_string());
    assert_eq!(
        value,
        Json::Obj(vec![
            ("temperature".to_string(), Json::Float((1.25f64).to_bits())),
            ("max".to_string(), Json::Float((2.5f64).to_bits())),
            ("critical".to_string(), Json::Null),
        ])
    );
}

#[test]
fn sensor_unreported_readings_render_null() {
    // a sensor may report any subset of the three temperatures; the missing
    // ones are null, never an error
    let (key, value) = sensor_entry(&SensorRecord {
        label: "bare".to_string(),
        temperature: None,
        max: None,
        critical: None,
    });
    assert_eq!(key, "bare".to_string());
    assert_eq!(
        value,
        Json::Obj(vec![
            ("temperature".to_string(), Json::Null),
            ("max".to_string(), Json::Null),
            ("critical".to_string(), Json::Null),
        ])
    );
}

#[test]
fn user_groups_fold_with_last_write_wins() {
    let user = UserRecord {
        name: "alice".to_string(),
        groups: vec![
            GroupRecord { name: "wheel".to_string(), id: 10 },
            GroupRecord { name: "audio".to_string(), id: 20 },
            GroupRecord { name: "wheel".to_string(), id: 30 },
        ],
    };
    let (key, value) = user_entry(&user);
    assert_eq!(key, "alice".to_string());
    assert_eq!(
        value,
        Json::Obj(vec![(
            "groups".to_string(),
            Json::Obj(vec![
                ("wheel".to_string(), Json::UInt(30)),
                ("audio".to_string(), Json::UInt(20)),
            ])
        )])
    );
}

#[test]
fn duplicate_mount_points_last_write_wins() {
    let mut second = sample_disk();
    second.name = "sdb1".to_string();
    second.total_space = 1000;
    let doc = disks_object(&vec![sample_disk(), second]);
    match &doc {
        Json::Obj(pairs) => {
            assert_eq!(pairs.len(), 1);
            assert_eq!(pairs[0].0, "/data".to_string());
            match &pairs[0].1 {
                Json::Obj(attrs) => {
                    assert_eq!(attrs[0].1, Json::Str("sdb1".to_string()));
                    assert_eq!(attrs[3].1, Json::UInt(1000));
                }
                _ => panic!("expected an object"),
            }
        }
        _ => panic!("expected an object"),
    }
}

#[test]
fn empty_collections_render_empty_objects() {
    assert_eq!(disks_object(&Vec::new()), Json::Obj(vec![]));
    assert_eq!(users_object(&Vec::new()), Json::Obj(vec![]));
    assert_eq!(sensors_object(&Vec::new()), Json::Obj(vec![]));
}

#[test]
fn system_identity_absent_fields_render_null() {
    let doc = system_object(&SystemIdentity {
        name: None,
        kernel_version: Some("6.1".to_string()),
        os_version: None,
        long_os_version: None,
        host_name: None,
        boot_time: 5,
        cpu_arch: None,
        distribution_id: "generic".to_string(),
        uptime: 9,
    });
    assert_eq!(
        doc,
        Json::Obj(vec![
            ("name".to_string(), Json::Null),
            ("kernel_version".to_string(), Json::Str("6.1".to_string())),
            ("os_version".to_string(), Json::Null),
            ("long_os_version".to_string(), Json::Null),
            ("host_name".to_string(), Json::Null),
            ("boot_time".to_string(), Json::UInt(5)),
            ("cpu_arch".to_string(), Json::Null),
            ("distribution_id".to_string(), Json::Str("generic".to_string())),
            ("uptime".to_string(), Json::UInt(9)),
        ])
    );
}

#[test]
fn load_average_passes_bits_through() {
    let doc = load_avg_object(&LoadAverage {
        one: (1.5f64).to_bits(),
        five: (0.75f64).to_bits(),
        fifteen: (0.0f64).to_bits(),
    });
    let text = serde_json::to_string(&to_serde(&doc)).unwrap();
    // serialization orders object keys; the three values pass through exactly
    assert_eq!(text, "{\"fifteen\":0.0,\"five\":0.75,\"one\":1.5}");
}

fn reading(global: f64, usage0: f64) -> CpuReading {
    CpuReading {
        global_usage: global.to_bits(),
        cores: vec![CpuCoreRecord {
            name: "cpu0".to_string(),
            brand: "b".to_string(),
            vendor_id: "v".to_string(),
            frequency: 1000,
            usage: usage0.to_bits(),
        }],
    }
}

#[test]
fn cpu_sample_reports_the_post_wait_reading() {
    // synthetic provider: baseline reading B, post-wait reading P; the
    // sample is a function of P alone, independent of B
    let b1 = reading(99.0, 98.0);
    let b2 = reading(1.0, 2.0);
    let p = || reading(12.5, 25.0);
    let s1 = sample_cpu(b1, p(), Some(4));
    let s2 = sample_cpu(b2, p(), Some(4));
    let d1 = cpu_object(&s1);
    let d2 = cpu_object(&s2);
    assert_eq!(d1, d2);
    let expected = Json::Obj(vec![
        ("physical_core_count".to_string(), Json::UInt(4)),
        ("global_cpu_usage".to_string(), Json::Float((12.5f64).to_bits())),
        (
            "cpus".to_string(),
            Json::Arr(vec![Json::Obj(vec![
                ("name".to_string(), Json::Str("cpu0".to_string())),
                ("brand".to_string(), Json::Str("b".to_string())),
                ("vendor_id".to_string(), Json::Str("v".to_string())),
                ("frequency".to_string(), Json::UInt(1000)),
                ("cpu_usage".to_string(), Json::Float((25.0f64).to_bits())),
            ])]),
        ),
    ]);
    assert_eq!(d1, expected);
}
