use hoshino::binary64::Binary64;
use hoshino::collect::system::{
    cpu_label, diagnostic, normalize, unsupported, PlatformSnapshot, RawDisk,
};
use hoshino::model::SecondsUnit;
use sysinfo::{CpuRefreshKind, Disks, MemoryRefreshKind, RefreshKind, System};

fn number(value: f64) -> Option<Binary64> {
    Some(Binary64 { bits: value.to_bits() })
}

fn raw() -> PlatformSnapshot {
    PlatformSnapshot {
        os_name: Some("TestOS".into()),
        os_version: Some("1".into()),
        architecture: Some("test".into()),
        cpu_label: Some("Test CPU".into()),
        cpu_utilization_percent: number(100.0),
        cpu_frequency_mhz: Some(2_400),
        memory: Some((0, 1)),
        disks: vec![RawDisk {
            mount: "/".into(),
            available_bytes: 0,
            total_bytes: 1,
        }],
        uptime_seconds: Some(0),
    }
}

#[test]
fn preserves_explicit_units_and_boundaries() {
    let facts = normalize(raw());
    assert_eq!(facts.system.memory.unwrap().total_bytes, 1);
    assert_eq!(facts.system.disks[0].used_bytes, 1);
    assert_eq!(facts.system.cpu.unwrap().utilization_percent, number(100.0));
    assert_eq!(facts.system.uptime.unwrap().unit, SecondsUnit::Seconds);
}

#[test]
fn unavailable_and_invalid_values_are_not_fabricated() {
    let mut input = raw();
    input.cpu_frequency_mhz = Some(0);
    input.cpu_utilization_percent = number(100.1);
    input.memory = Some((2, 0));
    input.disks = vec![RawDisk {
        mount: "".into(),
        available_bytes: 2,
        total_bytes: 1,
    }];
    let facts = normalize(input);
    assert_eq!(facts.system.cpu.unwrap().frequency_mhz, None);
    assert_eq!(facts.system.memory, None);
    assert!(facts.system.disks.is_empty());
    assert_eq!(facts.diagnostics.len(), 3);
}

#[test]
fn keeps_multiple_valid_disks() {
    let mut input = raw();
    input.disks.push(RawDisk {
        mount: "/data".into(),
        available_bytes: 8,
        total_bytes: 10,
    });
    let facts = normalize(input);
    assert_eq!(facts.system.disks.len(), 2);
    assert_eq!(facts.system.disks[1].used_bytes, 2);
}

/// What the machine that runs this tells of itself.
fn host() -> PlatformSnapshot {
    let system = System::new_with_specifics(
        RefreshKind::nothing()
            .with_memory(MemoryRefreshKind::nothing().with_ram())
            .with_cpu(CpuRefreshKind::nothing().with_frequency()),
    )
    .unwrap();
    let disks = Disks::new_with_refreshed_list();
    let cpu = system.cpus().first();
    PlatformSnapshot {
        os_name: System::name().ok().or_else(|| Some("macOS".into())),
        os_version: System::os_version().ok(),
        architecture: Some(System::cpu_arch()),
        cpu_label: cpu.and_then(|cpu| cpu_label(cpu.brand())),
        cpu_utilization_percent: None,
        cpu_frequency_mhz: cpu.map(|cpu| cpu.frequency()),
        memory: Some((system.used_memory(), system.total_memory())),
        disks: disks
            .iter()
            .flat_map(|disks| disks.iter())
            .map(|disk| RawDisk {
                mount: disk.mount_point().display().to_string(),
                available_bytes: disk.available_space(),
                total_bytes: disk.total_space(),
            })
            .collect(),
        uptime_seconds: System::uptime().ok(),
    }
}

#[test]
fn host_snapshot_is_plausible_without_machine_specific_values() {
    let facts = normalize(host());
    assert!(facts
        .system
        .os
        .as_ref()
        .is_some_and(|os| !os.name.is_empty()));
    assert!(facts.system.memory.as_ref().is_some_and(
        |memory| memory.total_bytes > 0 && memory.used_bytes <= memory.total_bytes
    ));
    assert!(facts
        .system
        .uptime
        .as_ref()
        .is_some_and(|uptime| uptime.value > 0));
    assert!(facts
        .system
        .disks
        .iter()
        .all(|disk| !disk.mount.is_empty() && disk.used_bytes <= disk.total_bytes));
}

#[test]
fn labels_of_processors_are_trimmed() {
    assert_eq!(cpu_label("  Apple M4  ").as_deref(), Some("Apple M4"));
    assert_eq!(cpu_label("   "), None);
}

#[test]
fn invalid_measurements_are_named_in_order() {
    let mut input = raw();
    input.cpu_utilization_percent = number(f64::NAN);
    input.memory = Some((2, 1));
    input.disks[0].total_bytes = 0;
    let facts = normalize(input);
    let codes: Vec<&str> = facts.diagnostics.iter().map(|item| item.code.as_str()).collect();
    assert_eq!(codes, ["system-memory", "system-disk", "system-cpu"]);
    assert_eq!(facts.diagnostics[1].message, "invalid disk measurement omitted");
}

#[test]
fn nothing_known_of_the_processor_leaves_it_out() {
    let mut input = raw();
    input.cpu_label = None;
    input.cpu_utilization_percent = None;
    input.cpu_frequency_mhz = None;
    assert_eq!(normalize(input).system.cpu, None);
    let none = unsupported();
    assert_eq!(none.diagnostics, vec![diagnostic("system-platform", "unsupported target platform")]);
}
