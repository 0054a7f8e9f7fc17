//! The facts of a snapshot as words and numbers.
use vstd::prelude::*;
use crate::binary64;
use crate::strings;
use crate::render::theme;
use crate::binary64::Binary64;
use crate::model::{
    Coverage, CoverageFormat, Cpu, DiagnosticSeverity, Disk, Freshness, Git, GitHead,
    OperatingSystem, Project, Seconds, Snapshot, Toolchain,
};
use crate::render::theme::{runtime_role, Role, RuntimeRole};
use crate::strings::{
    chars_of, decimal, decimal_two, digit, is_whitespace, join, lower_text, same, sanitize, split,
    string_of, trim_start,
};

verus! {

/// `12.5%`.
pub open spec fn percent_text(value: Binary64) -> Seq<char> {
    binary64::one_decimal_text(value) + "%"@
}

pub fn format_percent(value: Binary64) -> (text: String)
    requires
        value.finite(),
    ensures
        text@ == percent_text(value),
{
    value.one_decimal().concat("%")
}

/// The number where there is one and it is finite.
pub open spec fn finite_of(value: Option<Binary64>) -> Option<Binary64> {
    match value {
        Some(number) => if number.finite() {
            Some(number)
        } else {
            None
        },
        None => None,
    }
}

pub fn finite(value: Option<Binary64>) -> (number: Option<Binary64>)
    ensures
        number == finite_of(value),
{
    match value {
        Some(number) => if number.is_finite() {
            Some(number)
        } else {
            None
        },
        None => None,
    }
}

/// A power of 1024: the bytes in one of the units B, KiB, MiB, GiB, TiB.
pub open spec fn unit_bytes(unit: int) -> nat {
    if unit == 0 {
        1
    } else if unit == 1 {
        0x400
    } else if unit == 2 {
        0x10_0000
    } else if unit == 3 {
        0x4000_0000
    } else {
        0x100_0000_0000
    }
}

pub open spec fn unit_name(unit: int) -> Seq<char> {
    if unit == 0 {
        "B"@
    } else if unit == 1 {
        "KiB"@
    } else if unit == 2 {
        "MiB"@
    } else if unit == 3 {
        "GiB"@
    } else {
        "TiB"@
    }
}

/// The largest unit that `amount` reaches.
pub open spec fn byte_unit(amount: nat) -> int {
    if amount < 0x400 {
        0
    } else if amount < 0x10_0000 {
        1
    } else if amount < 0x4000_0000 {
        2
    } else if amount < 0x100_0000_0000 {
        3
    } else {
        4
    }
}

/// Whole bytes below 1024, else one decimal in the largest unit reached, by the
/// byte count rounded to binary64.
pub open spec fn bytes_text(bytes: u64) -> Seq<char> {
    if bytes < 1024 {
        strings::decimal_text(bytes as nat) + " B"@
    } else {
        let amount = binary64::rounded(bytes as nat);
        let unit = byte_unit(amount);
        let tenths = binary64::nearest_even(amount * 10, unit_bytes(unit));
        (strings::decimal_text(tenths / 10) + "."@).push(
            strings::digit_char(tenths % 10),
        ) + " "@ + unit_name(unit)
    }
}

pub fn format_bytes(bytes: u64) -> (text: String)
    ensures
        text@ == bytes_text(bytes),
{
    if bytes < 1024 {
        return decimal(bytes).concat(" B");
    }
    let amount: u128 = binary64::round_integer(bytes);
    let (size, name): (u128, &str) = if amount < 0x10_0000 {
        (0x400, "KiB")
    } else if amount < 0x4000_0000 {
        (0x10_0000, "MiB")
    } else if amount < 0x100_0000_0000 {
        (0x4000_0000, "GiB")
    } else {
        (0x100_0000_0000, "TiB")
    };
    let tenths: u64 = binary64::nearest_quotient(amount * 10, size) as u64;
    let mut text = decimal(tenths / 10);
    text.append(".");
    text.push(digit((tenths % 10) as u8));
    text.append(" ");
    text.append(name);
    text
}

/// `3d 4h`, `4h 5m` or `5m`; all seconds where `verbose`.
pub open spec fn uptime_text(seconds: Seconds, verbose: bool) -> Seq<char> {
    let value = seconds.value as nat;
    let days = value / 86_400;
    let hours = value % 86_400 / 3_600;
    let minutes = value % 3_600 / 60;
    if verbose {
        strings::decimal_text(value) + " seconds"@
    } else if days > 0 {
        strings::decimal_text(days) + "d "@ + strings::decimal_text(hours) + "h"@
    } else if hours > 0 {
        strings::decimal_text(hours) + "h "@ + strings::decimal_text(minutes) + "m"@
    } else {
        strings::decimal_text(minutes) + "m"@
    }
}

pub fn format_uptime(seconds: Seconds, verbose: bool) -> (text: String)
    ensures
        text@ == uptime_text(seconds, verbose),
{
    if verbose {
        return decimal(seconds.value).concat(" seconds");
    }
    let days: u64 = seconds.value / 86_400;
    let hours: u64 = seconds.value % 86_400 / 3_600;
    let minutes: u64 = seconds.value % 3_600 / 60;
    if days > 0 {
        decimal(days).concat("d ").concat(decimal(hours).as_str()).concat("h")
    } else if hours > 0 {
        decimal(hours).concat("h ").concat(decimal(minutes).as_str()).concat("m")
    } else {
        decimal(minutes).concat("m")
    }
}

/// At least two digits.
pub open spec fn two_digits(value: nat) -> Seq<char> {
    if value < 10 {
        "0"@ + strings::decimal_text(value)
    } else {
        strings::decimal_text(value)
    }
}

/// `UTC+05:30`.
pub open spec fn offset_text(seconds: i32) -> Seq<char> {
    let absolute = (if seconds < 0 {
        -seconds
    } else {
        seconds as int
    }) as nat;
    (if seconds < 0 {
        "UTC-"@
    } else {
        "UTC+"@
    }) + two_digits(absolute / 3_600) + ":"@ + two_digits(absolute / 60 % 60)
}

pub fn format_offset(seconds: i32) -> (text: String)
    ensures
        text@ == offset_text(seconds),
{
    let absolute: u64 = if seconds < 0 {
        (-(seconds as i64)) as u64
    } else {
        seconds as u64
    };
    let mut text = if seconds < 0 {
        "UTC-".to_owned()
    } else {
        "UTC+".to_owned()
    };
    text.append(decimal_two(absolute / 3_600).as_str());
    text.append(":");
    text.append(decimal_two(absolute / 60 % 60).as_str());
    text
}

pub open spec fn os_text(os: OperatingSystem) -> Seq<char> {
    match os.version {
        Some(version) => os.name@ + " "@ + version@,
        None => os.name@,
    }
}

pub fn format_os(os: &OperatingSystem) -> (text: String)
    ensures
        text@ == os_text(*os),
{
    match &os.version {
        Some(version) => os.name.clone().concat(" ").concat(version.as_str()),
        None => os.name.clone(),
    }
}

pub open spec fn head_text(head: GitHead) -> Seq<char> {
    match head {
        GitHead::Branch { name } => name@,
        GitHead::Detached { commit } => "detached@"@ + commit@,
        GitHead::Unborn => "unborn"@,
    }
}

pub fn git_head(git: &Git) -> (text: String)
    ensures
        text@ == head_text(git.head),
{
    match &git.head {
        GitHead::Branch { name } => name.clone(),
        GitHead::Detached { commit } => "detached@".to_owned().concat(commit.as_str()),
        GitHead::Unborn => "unborn".to_owned(),
    }
}

pub open spec fn state_text(git: Git) -> Seq<char> {
    if git.conflicts > 0 {
        "conflict"@
    } else if git.dirty || git.staged > 0 || git.unstaged > 0 {
        "dirty"@
    } else {
        "clean"@
    }
}

/// The counts that are not zero, each with its mark.
pub open spec fn count_texts(git: Git) -> Seq<Seq<char>> {
    let none = Seq::<Seq<char>>::empty();
    let staged = if git.staged > 0 {
        none.push("+"@ + strings::decimal_text(git.staged as nat))
    } else {
        none
    };
    let unstaged = if git.unstaged > 0 {
        staged.push("~"@ + strings::decimal_text(git.unstaged as nat))
    } else {
        staged
    };
    let conflicts = if git.conflicts > 0 {
        unstaged.push("!"@ + strings::decimal_text(git.conflicts as nat))
    } else {
        unstaged
    };
    match git.ahead {
        Some(ahead) => if ahead > 0 {
            conflicts.push("↑"@ + strings::decimal_text(ahead as nat))
        } else {
            conflicts
        },
        None => conflicts,
    }
}

/// `master · dirty · ~1`: head, textual state, then nonzero counts.
pub open spec fn git_text(git: Git) -> Seq<char> {
    let lead = head_text(git.head) + " · "@ + state_text(git);
    let counts = count_texts(git);
    if counts.len() == 0 {
        lead
    } else {
        lead + " · "@ + strings::joined(counts, " "@)
    }
}

/// Adds one text to a list.
pub fn push_text(items: &mut Vec<String>, text: String)
    ensures
        strings::texts(final(items)@) == strings::texts(old(items)@).push(text@),
{
    items.push(text);
    assert(strings::texts(items@) =~= strings::texts(old(items)@).push(text@));
}

/// A list without texts.
pub fn no_texts() -> (items: Vec<String>)
    ensures
        strings::texts(items@) == Seq::<Seq<char>>::empty(),
{
    let items: Vec<String> = Vec::new();
    assert(strings::texts(items@) =~= Seq::<Seq<char>>::empty());
    items
}

pub fn git_value(git: &Git) -> (text: String)
    ensures
        text@ == git_text(*git),
{
    let mut counts = no_texts();
    if git.staged > 0 {
        push_text(&mut counts, "+".to_owned().concat(decimal(git.staged as u64).as_str()));
    }
    if git.unstaged > 0 {
        push_text(&mut counts, "~".to_owned().concat(decimal(git.unstaged as u64).as_str()));
    }
    if git.conflicts > 0 {
        push_text(&mut counts, "!".to_owned().concat(decimal(git.conflicts as u64).as_str()));
    }
    if let Some(ahead) = git.ahead {
        if ahead > 0 {
            push_text(&mut counts, "↑".to_owned().concat(decimal(ahead as u64).as_str()));
        }
    }
    assert(strings::texts(counts@) == count_texts(*git));
    assert(counts@.len() == count_texts(*git).len());
    let mut text = git_head(git);
    text.append(" · ");
    text.append(
        if git.conflicts > 0 {
            "conflict"
        } else if git.dirty || git.staged > 0 || git.unstaged > 0 {
            "dirty"
        } else {
            "clean"
        },
    );
    if counts.len() > 0 {
        text.append(" · ");
        text.append(join(&counts, " ").as_str());
    }
    text
}

/// The last two parts of a deeper path, behind an ellipsis; else the whole.
pub open spec fn short_path_text(path: Seq<char>) -> Seq<char> {
    let clean = strings::sanitized(path);
    let parts = named_parts(strings::split_text(clean, '/'));
    if parts.len() > 2 {
        "…/"@ + parts[parts.len() - 2] + "/"@ + parts[parts.len() - 1]
    } else {
        clean
    }
}

/// The parts that are not empty.
pub open spec fn named_parts(parts: Seq<Seq<char>>) -> Seq<Seq<char>>
    decreases parts.len(),
{
    if parts.len() == 0 {
        Seq::empty()
    } else {
        let before = named_parts(parts.drop_last());
        if parts.last().len() == 0 {
            before
        } else {
            before.push(parts.last())
        }
    }
}

pub fn shortest_path(path: &str) -> (text: String)
    ensures
        text@ == short_path_text(path@),
{
    let clean = sanitize(path);
    let pieces = split(clean.as_str(), '/');
    let mut parts = no_texts();
    let mut i: usize = 0;
    let ghost all = strings::texts(pieces@);
    assert(all.take(0) =~= Seq::empty());
    while i < pieces.len()
        invariant
            i <= pieces@.len(),
            all == strings::texts(pieces@),
            strings::texts(parts@) == named_parts(all.take(i as int)),
        decreases pieces@.len() - i,
    {
        assert(all.take(i + 1).drop_last() =~= all.take(i as int));
        if !pieces[i].as_str().is_empty() {
            push_text(&mut parts, pieces[i].clone());
        }
        i = i + 1;
    }
    assert(all.take(i as int) =~= all);
    let count: usize = parts.len();
    assert(count == named_parts(all).len()) by {
        assert(strings::texts(parts@).len() == parts@.len());
    }
    if count > 2 {
        let mut text = "…/".to_owned();
        text.append(parts[count - 2].as_str());
        text.append("/");
        text.append(parts[count - 1].as_str());
        assert(strings::texts(parts@)[count - 2] == parts@[count - 2]@);
        assert(strings::texts(parts@)[count - 1] == parts@[count - 1]@);
        text
    } else {
        clean
    }
}

/// What follows `prefix` and the white space behind it, where `version` begins
/// with `prefix` in any ASCII case and white space follows.
pub open spec fn without_prefix(version: Seq<char>, prefix: Seq<char>) -> Option<Seq<char>> {
    if prefix.len() < version.len() && strings::lowered(version.take(prefix.len() as int))
        == strings::lowered(prefix) && strings::whitespace(
        version[prefix.len() as int],
    ) {
        Some(strings::trimmed_start(version.skip(prefix.len() as int)))
    } else {
        None
    }
}

pub fn strip_version_prefix(version: &str, prefix: &str) -> (rest: Option<String>)
    ensures
        strings::optional_text(rest) == without_prefix(version@, prefix@),
{
    let chars = chars_of(version);
    let count: usize = chars_of(prefix).len();
    if count >= chars.len() {
        return None;
    }
    let head = string_of(&chars, 0, count);
    assert(head@ =~= version@.take(count as int));
    if same(lower_text(head.as_str()).as_str(), lower_text(prefix).as_str()) && is_whitespace(
        chars[count],
    ) {
        let tail = string_of(&chars, count, chars.len());
        assert(tail@ =~= version@.skip(count as int));
        Some(trim_start(tail.as_str()))
    } else {
        None
    }
}

/// The version of a toolchain without the names of its runtime and language in
/// front; `unknown` where it has none.
pub open spec fn version_text(tool: Toolchain) -> Seq<char> {
    match tool.version {
        None => "unknown"@,
        Some(version) => {
            let once = match without_prefix(version@, tool.runtime@) {
                Some(rest) => rest,
                None => version@,
            };
            let stripped = match without_prefix(once, tool.language@) {
                Some(rest) => rest,
                None => once,
            };
            if stripped.len() == 0 {
                version@
            } else {
                stripped
            }
        },
    }
}

pub fn toolchain_version(tool: &Toolchain) -> (text: String)
    ensures
        text@ == version_text(*tool),
{
    match &tool.version {
        None => "unknown".to_owned(),
        Some(version) => {
            let once = match strip_version_prefix(version.as_str(), tool.runtime.as_str()) {
                Some(rest) => rest,
                None => version.clone(),
            };
            let stripped = match strip_version_prefix(once.as_str(), tool.language.as_str()) {
                Some(rest) => rest,
                None => once,
            };
            if stripped.as_str().is_empty() {
                version.clone()
            } else {
                stripped
            }
        },
    }
}

/// Where the first toolchain of `language`, in any ASCII case, stands at or
/// after `from`; the length where there is none.
pub open spec fn toolchain_from(tools: Seq<Toolchain>, language: Seq<char>, from: int) -> int
    decreases tools.len() - from,
{
    if from >= tools.len() {
        tools.len() as int
    } else if strings::lowered(tools[from].language@) == strings::lowered(language) {
        from
    } else {
        toolchain_from(tools, language, from + 1)
    }
}

/// The first word of `text`, or the empty text.
pub open spec fn first_word(text: Seq<char>) -> Seq<char> {
    let rest = strings::trimmed_start(text);
    rest.take(strings::word_end(rest, 0))
}

pub fn find_first_word(text: &str) -> (word: String)
    ensures
        word@ == first_word(text@),
{
    let rest = chars_of(trim_start(text).as_str());
    let mut end: usize = 0;
    while end < rest.len() && !is_whitespace(rest[end])
        invariant
            end <= rest@.len(),
            strings::word_end(rest@, 0) == strings::word_end(rest@, end as int),
        decreases rest@.len() - end,
    {
        end = end + 1;
    }
    assert(rest@.take(end as int) =~= rest@.subrange(0, end as int));
    string_of(&rest, 0, end)
}

/// The runtime of the primary language with its version: all of it where
/// `full`, else the first word of it; the language alone where no toolchain
/// was found.
pub open spec fn runtime_text(snapshot: Snapshot, full: bool) -> Option<(Seq<char>, RuntimeRole)> {
    match snapshot.project {
        None => None,
        Some(project) => match project.primary_language {
            None => None,
            Some(language) => {
                let tools = project.toolchains@;
                let at = toolchain_from(tools, language@, 0);
                if at < tools.len() {
                    let version = version_text(tools[at]);
                    let word = first_word(version);
                    let shown = if full || word.len() == 0 {
                        version
                    } else {
                        word
                    };
                    Some(
                        (
                            tools[at].runtime@ + " "@ + shown,
                            theme::runtime_role_of(
                                tools[at].language@,
                                tools[at].runtime@,
                            ),
                        ),
                    )
                } else {
                    Some((language@, theme::runtime_role_of(language@, language@)))
                }
            },
        },
    }
}

pub open spec fn runtime_view(value: Option<(String, RuntimeRole)>) -> Option<
    (Seq<char>, RuntimeRole),
> {
    match value {
        Some(pair) => Some((pair.0@, pair.1)),
        None => None,
    }
}

pub fn runtime_value(snapshot: &Snapshot, full: bool) -> (value: Option<(String, RuntimeRole)>)
    ensures
        runtime_view(value) == runtime_text(*snapshot, full),
{
    let project: &Project = match &snapshot.project {
        Some(project) => project,
        None => return None,
    };
    let language: &String = match &project.primary_language {
        Some(language) => language,
        None => return None,
    };
    let small = lower_text(language.as_str());
    let mut at: usize = 0;
    while at < project.toolchains.len()
        invariant
            at <= project.toolchains@.len(),
            small@ == strings::lowered(language@),
            toolchain_from(project.toolchains@, language@, 0) == toolchain_from(
                project.toolchains@,
                language@,
                at as int,
            ),
            snapshot.project == Some(*project),
            project.primary_language == Some(*language),
        decreases project.toolchains@.len() - at,
    {
        let tool = &project.toolchains[at];
        if same(lower_text(tool.language.as_str()).as_str(), small.as_str()) {
            let version = toolchain_version(tool);
            let word = find_first_word(version.as_str());
            let mut text = tool.runtime.clone();
            text.append(" ");
            if full || word.as_str().is_empty() {
                text.append(version.as_str());
            } else {
                text.append(word.as_str());
            }
            return Some((text, runtime_role(tool.language.as_str(), tool.runtime.as_str())));
        }
        at = at + 1;
    }
    Some((language.clone(), runtime_role(language.as_str(), language.as_str())))
}

/// `Apple M4 Pro @ 4512 MHz · 12.5%` from whichever CPU facts exist.
pub open spec fn cpu_text(cpu: Cpu) -> Seq<char> {
    let name = match cpu.label {
        Some(label) => match cpu.frequency_mhz {
            Some(frequency) => label@ + " @ "@ + strings::decimal_text(frequency as nat)
                + " MHz"@,
            None => label@,
        },
        None => match cpu.frequency_mhz {
            Some(frequency) => strings::decimal_text(frequency as nat) + " MHz"@,
            None => Seq::empty(),
        },
    };
    match finite_of(cpu.utilization_percent) {
        Some(percent) => if name.len() == 0 {
            percent_text(percent)
        } else {
            name + " · "@ + percent_text(percent)
        },
        None => name,
    }
}

/// The empty text where no CPU fact exists.
pub fn cpu_value(cpu: &Cpu) -> (text: String)
    ensures
        text@ == cpu_text(*cpu),
{
    let mut name = match &cpu.label {
        Some(label) => match cpu.frequency_mhz {
            Some(frequency) => {
                let mut text = label.clone();
                text.append(" @ ");
                text.append(decimal(frequency).as_str());
                text.append(" MHz");
                text
            },
            None => label.clone(),
        },
        None => match cpu.frequency_mhz {
            Some(frequency) => decimal(frequency).concat(" MHz"),
            None => String::new(),
        },
    };
    if let Some(percent) = finite(cpu.utilization_percent) {
        if name.as_str().is_empty() {
            return format_percent(percent);
        }
        name.append(" · ");
        name.append(format_percent(percent).as_str());
    }
    name
}

/// The disk is not told apart from one of `shown`: the same capacity, and usage
/// that prints the same.
pub open spec fn shown_already(shown: Seq<Disk>, disk: Disk) -> bool {
    exists|i: int|
        0 <= i < shown.len() && (#[trigger] shown[i]).total_bytes == disk.total_bytes && bytes_text(
            shown[i].used_bytes,
        ) == bytes_text(disk.used_bytes)
}

/// The disks in order, without those that a disk already shown stands for.
pub open spec fn distinct_disks(disks: Seq<Disk>) -> Seq<Disk>
    decreases disks.len(),
{
    if disks.len() == 0 {
        Seq::empty()
    } else {
        let before = distinct_disks(disks.drop_last());
        if shown_already(before, disks.last()) {
            before
        } else {
            before.push(disks.last())
        }
    }
}

/// The positions of the disks to show.
pub fn displayed_disks(disks: &Vec<Disk>) -> (shown: Vec<usize>)
    ensures
        forall|i: int| 0 <= i < shown@.len() ==> #[trigger] shown@[i] < disks@.len(),
        Seq::new(shown@.len(), |i: int| disks@[shown@[i] as int]) == distinct_disks(disks@),
{
    let mut shown: Vec<usize> = Vec::new();
    let mut next: usize = 0;
    assert(disks@.take(0) =~= Seq::empty());
    assert(Seq::new(shown@.len(), |i: int| disks@[shown@[i] as int]) =~= distinct_disks(
        disks@.take(0),
    ));
    while next < disks.len()
        invariant
            next <= disks@.len(),
            forall|i: int| 0 <= i < shown@.len() ==> #[trigger] shown@[i] < disks@.len(),
            Seq::new(shown@.len(), |i: int| disks@[shown@[i] as int]) == distinct_disks(
                disks@.take(next as int),
            ),
        decreases disks@.len() - next,
    {
        let disk = &disks[next];
        let used = format_bytes(disk.used_bytes);
        let mut seen = false;
        let mut i: usize = 0;
        let ghost before = distinct_disks(disks@.take(next as int));
        while i < shown.len() && !seen
            invariant
                i <= shown@.len(),
                forall|j: int| 0 <= j < shown@.len() ==> #[trigger] shown@[j] < disks@.len(),
                *disk == disks@[next as int],
                used@ == bytes_text(disk.used_bytes),
                before == Seq::new(shown@.len(), |j: int| disks@[shown@[j] as int]),
                seen ==> shown_already(before, *disk),
                !seen ==> forall|j: int|
                    0 <= j < i ==> !((#[trigger] before[j]).total_bytes == disk.total_bytes
                        && bytes_text(before[j].used_bytes) == bytes_text(disk.used_bytes)),
            decreases shown@.len() - i + (if seen {
                0int
            } else {
                1int
            }),
        {
            let other = &disks[shown[i]];
            assert(before[i as int] == *other);
            if other.total_bytes == disk.total_bytes && same(
                format_bytes(other.used_bytes).as_str(),
                used.as_str(),
            ) {
                seen = true;
            } else {
                i = i + 1;
            }
        }
        assert(disks@.take(next + 1).drop_last() =~= disks@.take(next as int));
        if !seen {
            shown.push(next);
            assert(Seq::new(shown@.len(), |j: int| disks@[shown@[j] as int]) =~= before.push(
                *disk,
            ));
        }
        next = next + 1;
    }
    assert(disks@.take(next as int) =~= disks@);
    shown
}

/// Clock, date and zone, as far as they are known.
pub open spec fn time_parts(snapshot: Snapshot) -> Seq<Seq<char>> {
    let none = Seq::<Seq<char>>::empty();
    let local = match snapshot.time.local {
        Some(value) => none.push(value@),
        None => none,
    };
    let date = match snapshot.time.date {
        Some(value) => local.push(value@),
        None => local,
    };
    match snapshot.time.timezone_name {
        Some(value) => date.push(value@),
        None => match snapshot.time.timezone_offset_seconds {
            Some(value) => date.push(offset_text(value)),
            None => date,
        },
    }
}

pub open spec fn time_text(snapshot: Snapshot) -> Option<Seq<char>> {
    let parts = time_parts(snapshot);
    if parts.len() == 0 {
        None
    } else {
        Some(strings::joined(parts, " · "@))
    }
}

pub fn time_value(snapshot: &Snapshot) -> (text: Option<String>)
    ensures
        strings::optional_text(text) == time_text(*snapshot),
{
    let mut parts = no_texts();
    if let Some(value) = &snapshot.time.local {
        push_text(&mut parts, value.clone());
    }
    if let Some(value) = &snapshot.time.date {
        push_text(&mut parts, value.clone());
    }
    if let Some(value) = &snapshot.time.timezone_name {
        push_text(&mut parts, value.clone());
    } else if let Some(value) = snapshot.time.timezone_offset_seconds {
        push_text(&mut parts, format_offset(value));
    }
    assert(strings::texts(parts@).len() == parts@.len());
    if parts.len() == 0 {
        None
    } else {
        Some(join(&parts, " · "))
    }
}

/// The place of work: the worktree, or else the directory.
pub open spec fn workspace_text(snapshot: Snapshot) -> Option<Seq<char>> {
    match snapshot.context.worktree {
        Some(path) => Some(path@),
        None => strings::optional_text(snapshot.context.directory),
    }
}

pub fn workspace(snapshot: &Snapshot) -> (path: Option<&str>)
    ensures
        path is Some == workspace_text(*snapshot) is Some,
        path is Some ==> path->0@ == workspace_text(*snapshot)->0,
{
    match &snapshot.context.worktree {
        Some(path) => Some(path.as_str()),
        None => match &snapshot.context.directory {
            Some(path) => Some(path.as_str()),
            None => None,
        },
    }
}

pub open spec fn coverage_role_of(stale: Freshness) -> Role {
    match stale {
        Freshness::Current => Role::Coverage,
        Freshness::Stale => Role::Warning,
        Freshness::Unknown => Role::Secondary,
    }
}

pub fn coverage_role(coverage: &Coverage) -> (role: Role)
    ensures
        role == coverage_role_of(coverage.stale),
{
    match coverage.stale {
        Freshness::Current => Role::Coverage,
        Freshness::Stale => Role::Warning,
        Freshness::Unknown => Role::Secondary,
    }
}

pub open spec fn diagnostic_role_of(severity: DiagnosticSeverity) -> Role {
    match severity {
        DiagnosticSeverity::Info => Role::Secondary,
        DiagnosticSeverity::Warning => Role::Warning,
        DiagnosticSeverity::Error => Role::Error,
    }
}

pub fn diagnostic_role(severity: DiagnosticSeverity) -> (role: Role)
    ensures
        role == diagnostic_role_of(severity),
{
    match severity {
        DiagnosticSeverity::Info => Role::Secondary,
        DiagnosticSeverity::Warning => Role::Warning,
        DiagnosticSeverity::Error => Role::Error,
    }
}

pub open spec fn severity_text(severity: DiagnosticSeverity) -> Seq<char> {
    match severity {
        DiagnosticSeverity::Info => "info"@,
        DiagnosticSeverity::Warning => "warning"@,
        DiagnosticSeverity::Error => "error"@,
    }
}

pub fn severity_name(severity: DiagnosticSeverity) -> (name: &'static str)
    ensures
        name@ == severity_text(severity),
{
    match severity {
        DiagnosticSeverity::Info => "info",
        DiagnosticSeverity::Warning => "warning",
        DiagnosticSeverity::Error => "error",
    }
}

pub open spec fn coverage_format_text(format: CoverageFormat) -> Seq<char> {
    match format {
        CoverageFormat::Lcov => "lcov"@,
        CoverageFormat::CoberturaXml => "cobertura-xml"@,
        CoverageFormat::JacocoXml => "jacoco-xml"@,
        CoverageFormat::GoCoverprofile => "go-coverprofile"@,
        CoverageFormat::IstanbulSummary => "istanbul-summary"@,
    }
}

pub fn coverage_format_name(format: CoverageFormat) -> (name: &'static str)
    ensures
        name@ == coverage_format_text(format),
{
    match format {
        CoverageFormat::Lcov => "lcov",
        CoverageFormat::CoberturaXml => "cobertura-xml",
        CoverageFormat::JacocoXml => "jacoco-xml",
        CoverageFormat::GoCoverprofile => "go-coverprofile",
        CoverageFormat::IstanbulSummary => "istanbul-summary",
    }
}

pub open spec fn freshness_text(value: Freshness) -> Seq<char> {
    match value {
        Freshness::Current => "current"@,
        Freshness::Stale => "stale"@,
        Freshness::Unknown => "unknown"@,
    }
}

pub fn freshness_name(value: Freshness) -> (name: &'static str)
    ensures
        name@ == freshness_text(value),
{
    match value {
        Freshness::Current => "current",
        Freshness::Stale => "stale",
        Freshness::Unknown => "unknown",
    }
}

} // verus!
