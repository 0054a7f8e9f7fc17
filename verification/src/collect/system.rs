//! System snapshots normalized into the public model.
use vstd::prelude::*;
use crate::binary64::Binary64;
use crate::model;
use crate::model::{
    push_diagnostic, Cpu, Diagnostic, DiagnosticSeverity, DiagnosticView, Disk, Memory,
    OperatingSystem, Seconds, SecondsUnit, System,
};
use crate::strings;
use crate::strings::{chars_of, trim};

verus! {

pub struct SystemFacts {
    pub system: System,
    pub diagnostics: Vec<Diagnostic>,
}

/// The system as its platform reports it.
#[derive(Debug)]
pub struct PlatformSnapshot {
    pub os_name: Option<String>,
    pub os_version: Option<String>,
    pub architecture: Option<String>,
    pub cpu_label: Option<String>,
    pub cpu_utilization_percent: Option<Binary64>,
    pub cpu_frequency_mhz: Option<u64>,
    /// Bytes used, and all of them.
    pub memory: Option<(u64, u64)>,
    pub disks: Vec<RawDisk>,
    pub uptime_seconds: Option<u64>,
}

#[derive(Debug)]
pub struct RawDisk {
    pub mount: String,
    pub available_bytes: u64,
    pub total_bytes: u64,
}

pub open spec fn warning(code: Seq<char>, message: Seq<char>) -> DiagnosticView {
    DiagnosticView { severity: DiagnosticSeverity::Warning, code, message, subject: None }
}

pub fn diagnostic(code: &str, message: &str) -> (item: Diagnostic)
    ensures
        item@ == warning(code@, message@),
{
    Diagnostic {
        severity: DiagnosticSeverity::Warning,
        code: code.to_owned(),
        message: message.to_owned(),
        subject: None,
    }
}

/// The facts of a platform that none are collected from.
pub fn unsupported() -> (facts: SystemFacts)
    ensures
        facts.system.unknown(),
        model::diagnostic_views(facts.diagnostics@) == seq![
            warning("system-platform"@, "unsupported target platform"@),
        ],
{
    let mut diagnostics: Vec<Diagnostic> = Vec::new();
    diagnostics.push(diagnostic("system-platform", "unsupported target platform"));
    assert(model::diagnostic_views(diagnostics@) =~= seq![
        warning("system-platform"@, "unsupported target platform"@),
    ]);
    SystemFacts { system: System::default(), diagnostics }
}

/// A processor's label without the blanks around it, where anything is left of it.
pub fn cpu_label(brand: &str) -> (label: Option<String>)
    ensures
        strings::optional_text(label) == if strings::trimmed(brand@).len() == 0 {
            None
        } else {
            Some(strings::trimmed(brand@))
        },
{
    let label = trim(brand);
    if chars_of(label.as_str()).len() == 0 {
        None
    } else {
        Some(label)
    }
}

/// Memory can be as it is reported: there is some, and no more is used.
pub open spec fn plausible_memory(memory: (u64, u64)) -> bool {
    memory.1 > 0 && memory.0 <= memory.1
}

/// A disk can be as it is reported: mounted somewhere, of some size, and no more of it
/// available.
pub open spec fn plausible_disk(disk: RawDisk) -> bool {
    disk.mount@.len() > 0 && disk.total_bytes > 0 && disk.available_bytes <= disk.total_bytes
}

pub struct DiskView {
    pub mount: Seq<char>,
    pub used_bytes: u64,
    pub total_bytes: u64,
}

pub open spec fn disk_view(disk: Disk) -> DiskView {
    DiskView {
        mount: disk.mount@,
        used_bytes: disk.used_bytes,
        total_bytes: disk.total_bytes,
    }
}

pub open spec fn disk_views(disks: Seq<Disk>) -> Seq<DiskView> {
    Seq::new(disks.len(), |i: int| disk_view(disks[i]))
}

/// The disks that can be as they are reported, in order.
pub open spec fn known_disks(disks: Seq<RawDisk>) -> Seq<DiskView>
    decreases disks.len(),
{
    if disks.len() == 0 {
        Seq::empty()
    } else {
        let last = disks.last();
        let before = known_disks(disks.drop_last());
        if plausible_disk(last) {
            before.push(
                DiskView {
                    mount: last.mount@,
                    used_bytes: (last.total_bytes - last.available_bytes) as u64,
                    total_bytes: last.total_bytes,
                },
            )
        } else {
            before
        }
    }
}

/// One warning for every disk that cannot.
pub open spec fn disk_warnings(disks: Seq<RawDisk>) -> Seq<DiagnosticView>
    decreases disks.len(),
{
    if disks.len() == 0 {
        Seq::empty()
    } else {
        let before = disk_warnings(disks.drop_last());
        if plausible_disk(disks.last()) {
            before
        } else {
            before.push(warning("system-disk"@, "invalid disk measurement omitted"@))
        }
    }
}

/// A utilization can be as it is reported: a number of percent.
pub open spec fn plausible_utilization(value: Binary64) -> bool {
    value.finite() && value.within(100)
}

pub open spec fn known_utilization(raw: PlatformSnapshot) -> Option<Binary64> {
    if raw.cpu_utilization_percent is Some && plausible_utilization(raw.cpu_utilization_percent->0) {
        raw.cpu_utilization_percent
    } else {
        None
    }
}

/// The warnings of a snapshot: memory, disks, processor.
pub open spec fn warnings_of(raw: PlatformSnapshot) -> Seq<DiagnosticView> {
    let memory = if raw.memory is Some && !plausible_memory(raw.memory->0) {
        seq![warning("system-memory"@, "invalid memory measurement omitted"@)]
    } else {
        Seq::empty()
    };
    let disks = memory + disk_warnings(raw.disks@);
    if raw.cpu_utilization_percent is Some && known_utilization(raw) is None {
        disks.push(warning("system-cpu"@, "invalid CPU utilization omitted"@))
    } else {
        disks
    }
}

/// The facts of a snapshot: what is reported, without what cannot be.
pub open spec fn normalized(raw: PlatformSnapshot, system: System) -> bool {
    &&& match raw.os_name {
        Some(name) => system.os is Some && system.os->0.name == name && system.os->0.version
            == raw.os_version && system.os->0.architecture == raw.architecture,
        None => system.os is None,
    }
    &&& if raw.cpu_label is Some || known_utilization(raw) is Some || raw.cpu_frequency_mhz is Some {
        &&& system.cpu is Some
        &&& system.cpu->0.label == raw.cpu_label
        &&& system.cpu->0.utilization_percent == known_utilization(raw)
        &&& system.cpu->0.frequency_mhz == if raw.cpu_frequency_mhz == Some(0u64) {
            None
        } else {
            raw.cpu_frequency_mhz
        }
    } else {
        system.cpu is None
    }
    &&& if raw.memory is Some && plausible_memory(raw.memory->0) {
        system.memory == Some(
            Memory { used_bytes: (raw.memory->0).0, total_bytes: (raw.memory->0).1 },
        )
    } else {
        system.memory is None
    }
    &&& disk_views(system.disks@) == known_disks(raw.disks@)
    &&& system.uptime == match raw.uptime_seconds {
        Some(value) => Some(Seconds { value, unit: SecondsUnit::Seconds }),
        None => None,
    }
}

/// Takes the disks over that can be as they are reported; tells whether each could.
fn sort_disks(raw: &Vec<RawDisk>, diagnostics: &mut Vec<Diagnostic>) -> (disks: Vec<Disk>)
    ensures
        disk_views(disks@) == known_disks(raw@),
        model::diagnostic_views(final(diagnostics)@) == model::diagnostic_views(
            old(diagnostics)@,
        ) + disk_warnings(raw@),
{
    let ghost before = model::diagnostic_views(diagnostics@);
    let mut disks: Vec<Disk> = Vec::new();
    let mut at: usize = 0;
    assert(disk_views(disks@) =~= known_disks(raw@.take(0)));
    assert(model::diagnostic_views(diagnostics@) =~= before + disk_warnings(raw@.take(0)));
    while at < raw.len()
        invariant
            at <= raw@.len(),
            disk_views(disks@) == known_disks(raw@.take(at as int)),
            model::diagnostic_views(diagnostics@) == before + disk_warnings(raw@.take(at as int)),
        decreases raw@.len() - at,
    {
        assert(raw@.take(at + 1).drop_last() =~= raw@.take(at as int));
        let disk = &raw[at];
        if chars_of(disk.mount.as_str()).len() == 0 || disk.total_bytes == 0
            || disk.available_bytes > disk.total_bytes {
            push_diagnostic(
                diagnostics,
                diagnostic("system-disk", "invalid disk measurement omitted"),
            );
            assert(model::diagnostic_views(diagnostics@) =~= before + disk_warnings(
                raw@.take(at + 1),
            ));
        } else {
            let ghost held = disks@;
            disks.push(
                Disk {
                    mount: disk.mount.as_str().to_owned(),
                    used_bytes: disk.total_bytes - disk.available_bytes,
                    total_bytes: disk.total_bytes,
                },
            );
            assert(disk_views(disks@) =~= disk_views(held).push(disk_view(disks@.last())));
        }
        at = at + 1;
    }
    assert(raw@.take(at as int) =~= raw@);
    disks
}

/// The facts of what a platform reports. What cannot be is left out, with a warning.
pub fn normalize(raw: PlatformSnapshot) -> (facts: SystemFacts)
    ensures
        normalized(raw, facts.system),
        model::diagnostic_views(facts.diagnostics@) == warnings_of(raw),
{
    let mut diagnostics: Vec<Diagnostic> = Vec::new();
    assert(model::diagnostic_views(diagnostics@) =~= Seq::empty());
    let memory = match raw.memory {
        Some((used_bytes, total_bytes)) => if total_bytes > 0 && used_bytes <= total_bytes {
            Some(Memory { used_bytes, total_bytes })
        } else {
            push_diagnostic(
                &mut diagnostics,
                diagnostic("system-memory", "invalid memory measurement omitted"),
            );
            None
        },
        None => None,
    };
    assert(raw.memory is Some && !plausible_memory(raw.memory->0)
        ==> model::diagnostic_views(diagnostics@) =~= seq![
        warning("system-memory"@, "invalid memory measurement omitted"@),
    ]);
    let disks = sort_disks(&raw.disks, &mut diagnostics);
    let utilization_percent = match raw.cpu_utilization_percent {
        Some(value) => if value.is_finite() && value.is_within(100) {
            Some(value)
        } else {
            push_diagnostic(
                &mut diagnostics,
                diagnostic("system-cpu", "invalid CPU utilization omitted"),
            );
            None
        },
        None => None,
    };
    let frequency_mhz = match raw.cpu_frequency_mhz {
        Some(value) => if value > 0 {
            Some(value)
        } else {
            None
        },
        None => None,
    };
    let has_cpu = raw.cpu_label.is_some() || utilization_percent.is_some()
        || raw.cpu_frequency_mhz.is_some();
    let os = match raw.os_name {
        Some(name) => Some(
            OperatingSystem { name, version: raw.os_version, architecture: raw.architecture },
        ),
        None => None,
    };
    let cpu = if has_cpu {
        Some(Cpu { label: raw.cpu_label, utilization_percent, frequency_mhz })
    } else {
        None
    };
    let uptime = match raw.uptime_seconds {
        Some(value) => Some(Seconds { value, unit: SecondsUnit::Seconds }),
        None => None,
    };
    SystemFacts { system: System { os, cpu, memory, disks, uptime }, diagnostics }
}

/// Whatever is reported, memory and disks are used for no more than there is of them, and
/// there is some; every disk that is left out has its warning.
pub proof fn law_measurements_are_plausible(raw: PlatformSnapshot, system: System)
    requires
        normalized(raw, system),
    ensures
        system.memory is Some ==> system.memory->0.total_bytes > 0
            && system.memory->0.used_bytes <= system.memory->0.total_bytes,
        forall|i: int|
            0 <= i < system.disks@.len() ==> {
                &&& (#[trigger] system.disks@[i]).mount@.len() > 0
                &&& system.disks@[i].total_bytes > 0
                &&& system.disks@[i].used_bytes <= system.disks@[i].total_bytes
            },
        known_disks(raw.disks@).len() + disk_warnings(raw.disks@).len() == raw.disks@.len(),
{
    lemma_known_disks(raw.disks@);
    assert forall|i: int| 0 <= i < system.disks@.len() implies {
        &&& (#[trigger] system.disks@[i]).mount@.len() > 0
        &&& system.disks@[i].total_bytes > 0
        &&& system.disks@[i].used_bytes <= system.disks@[i].total_bytes
    } by {
        assert(disk_views(system.disks@)[i] == disk_view(system.disks@[i]));
        assert(known_disks(raw.disks@)[i].mount.len() > 0);
    }
}

proof fn lemma_known_disks(disks: Seq<RawDisk>)
    ensures
        known_disks(disks).len() + disk_warnings(disks).len() == disks.len(),
        forall|i: int|
            0 <= i < known_disks(disks).len() ==> {
                &&& (#[trigger] known_disks(disks)[i]).mount.len() > 0
                &&& known_disks(disks)[i].total_bytes > 0
                &&& known_disks(disks)[i].used_bytes <= known_disks(disks)[i].total_bytes
            },
    decreases disks.len(),
{
    if disks.len() > 0 {
        lemma_known_disks(disks.drop_last());
    }
}

} // verus!
