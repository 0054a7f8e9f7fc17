//! What the words and numbers of a card promise of the facts that they are made of.
use vstd::prelude::*;
use crate::binary64;
use crate::binary64::Binary64;
use crate::model::{
    Cpu, Disk, Git, GitHead, OperatingSystem, Seconds, Snapshot, Toolchain,
};
use crate::render::values;
use crate::strings;
use crate::strings_laws;

verus! {

/// A time of so many days, hours, minutes and seconds is told in days and hours, from a day
/// on; in hours and minutes, from an hour on; and else in minutes.
pub proof fn law_uptimes_are_told_in_their_largest_units(
    time: Seconds,
    days: nat,
    hours: nat,
    minutes: nat,
    seconds: nat,
)
    requires
        hours < 24,
        minutes < 60,
        seconds < 60,
        time.value == days * 86_400 + hours * 3_600 + minutes * 60 + seconds,
    ensures
        days > 0 ==> values::uptime_text(time, false) == strings::decimal_text(days) + "d "@
            + strings::decimal_text(hours) + "h"@,
        days == 0 && hours > 0 ==> values::uptime_text(time, false) == strings::decimal_text(hours)
            + "h "@ + strings::decimal_text(minutes) + "m"@,
        days == 0 && hours == 0 ==> values::uptime_text(time, false) == strings::decimal_text(
            minutes,
        ) + "m"@,
        values::uptime_text(time, true) == strings::decimal_text(time.value as nat) + " seconds"@,
{
    let value = time.value as nat;
    assert(value / 86_400 == days);
    assert(value % 86_400 / 3_600 == hours);
    assert(value % 3_600 / 60 == minutes);
}

/// An offset of so many hours and minutes is told as such, two digits each, with the sign
/// of its side of Greenwich.
pub proof fn law_offsets_are_told_in_hours_and_minutes(seconds: i32, hours: nat, minutes: nat, rest: nat)
    requires
        minutes < 60,
        rest < 60,
        hours >= 10,
        minutes >= 10,
        seconds == hours * 3_600 + minutes * 60 + rest || seconds == -(hours * 3_600 + minutes * 60
            + rest),
    ensures
        seconds >= 0 ==> values::offset_text(seconds) == "UTC+"@ + strings::decimal_text(hours)
            + ":"@ + strings::decimal_text(minutes),
        seconds < 0 ==> values::offset_text(seconds) == "UTC-"@ + strings::decimal_text(hours)
            + ":"@ + strings::decimal_text(minutes),
{
    let absolute = hours * 3_600 + minutes * 60 + rest;
    assert(absolute / 3_600 == hours);
    assert(absolute / 60 % 60 == minutes);
}

/// Hours and minutes below ten have a zero in front.
pub proof fn law_single_digits_of_an_offset_are_padded(seconds: i32, hours: nat, minutes: nat, rest: nat)
    requires
        minutes < 10,
        rest < 60,
        hours < 10,
        seconds == hours * 3_600 + minutes * 60 + rest || seconds == -(hours * 3_600 + minutes * 60
            + rest),
    ensures
        seconds >= 0 ==> values::offset_text(seconds) == "UTC+"@ + ("0"@ + strings::decimal_text(
            hours,
        )) + ":"@ + ("0"@ + strings::decimal_text(minutes)),
        seconds < 0 ==> values::offset_text(seconds) == "UTC-"@ + ("0"@ + strings::decimal_text(
            hours,
        )) + ":"@ + ("0"@ + strings::decimal_text(minutes)),
{
    let absolute = hours * 3_600 + minutes * 60 + rest;
    assert(absolute / 3_600 == hours);
    assert(absolute / 60 % 60 == minutes);
}

/// A number of bytes below 1024 is told in bytes, and from there on in the largest unit of
/// which it holds a whole one: in tenths of that unit, to the nearest.
pub proof fn law_bytes_are_told_in_their_largest_unit(bytes: u64)
    requires
        bytes < 0x20_0000_0000_0000,
    ensures
        bytes < 1024 ==> values::bytes_text(bytes) == strings::decimal_text(bytes as nat) + " B"@,
        1024 <= bytes < 1024 * 1024 ==> told_in(bytes, 1024, "KiB"@),
        1024 * 1024 <= bytes < 1024 * 1024 * 1024 ==> told_in(bytes, 1024 * 1024, "MiB"@),
        1024 * 1024 * 1024 <= bytes < 1024 * 1024 * 1024 * 1024 ==> told_in(
            bytes,
            1024 * 1024 * 1024,
            "GiB"@,
        ),
        1024 * 1024 * 1024 * 1024 <= bytes ==> told_in(bytes, 1024 * 1024 * 1024 * 1024, "TiB"@),
{
    let amount = bytes as nat;
    assert(binary64::rounded(amount) == amount) by {
        assert(binary64::spacing(amount) == 1);
        assert(amount % 1 == 0 && amount / 1 == amount);
    }
    if bytes >= 1024 {
        let unit = values::byte_unit(amount);
        let size = values::unit_bytes(unit);
        let tenths = binary64::nearest_even(amount * 10, size);
        lemma_nearest(amount * 10, size);
        assert(values::bytes_text(bytes) == (strings::decimal_text(tenths / 10) + "."@).push(
            strings::digit_char(tenths % 10),
        ) + " "@ + values::unit_name(unit));
        assert(tenths_near(bytes, size, tenths));
        assert(told_in(bytes, size, values::unit_name(unit)));
    }
}

/// So many tenths of a unit are no farther than half a tenth from the bytes.
pub open spec fn tenths_near(bytes: u64, unit: nat, tenths: nat) -> bool {
    2 * tenths * unit <= 20 * bytes + unit && 20 * bytes <= 2 * tenths * unit + unit
}

pub open spec fn told_in(bytes: u64, unit: nat, name: Seq<char>) -> bool {
    exists|tenths: nat|
        #[trigger] tenths_near(bytes, unit, tenths) && values::bytes_text(bytes) == (
        strings::decimal_text(tenths / 10) + "."@).push(strings::digit_char(tenths % 10)) + " "@
            + name
}

/// Rounding to the nearest is never farther off than a half.
pub proof fn lemma_nearest(numerator: nat, denominator: nat)
    requires
        denominator > 0,
    ensures
        2 * binary64::nearest_even(numerator, denominator) * denominator <= 2 * numerator
            + denominator,
        2 * numerator <= 2 * binary64::nearest_even(numerator, denominator) * denominator
            + denominator,
{
    let q = numerator / denominator;
    let r = numerator % denominator;
    vstd::arithmetic::div_mod::lemma_fundamental_div_mod(numerator as int, denominator as int);
    let n = binary64::nearest_even(numerator, denominator);
    assert(2 * n * denominator <= 2 * numerator + denominator && 2 * numerator <= 2 * n
        * denominator + denominator) by (nonlinear_arith)
        requires
            numerator == denominator * q + r,
            0 <= r < denominator,
            (n == q && 2 * r <= denominator) || (n == q + 1 && 2 * r >= denominator),
    ;
}

/// A percentage is told with one decimal, the nearest to the number, and the sign where it
/// is negative.
pub proof fn law_percentages_are_told_to_the_nearest_tenth(value: Binary64)
    requires
        value.finite(),
        value.exponent() < 0,
    ensures
        ({
            let scale = binary64::two_to((-value.exponent()) as nat);
            let tenths = value.tenths();
            let number = (strings::decimal_text(tenths / 10) + "."@).push(
                strings::digit_char(tenths % 10),
            );
            &&& 2 * tenths * scale <= 2 * (value.mantissa() * 10) + scale
            &&& 2 * (value.mantissa() * 10) <= 2 * tenths * scale + scale
            &&& !value.negative() ==> values::percent_text(value) == number + "%"@
            &&& value.negative() ==> values::percent_text(value) == "-"@ + number + "%"@
        }),
{
    let scale = binary64::two_to((-value.exponent()) as nat);
    lemma_two_to_positive((-value.exponent()) as nat);
    lemma_nearest(value.mantissa() * 10, scale);
    let tenths = value.tenths();
    let number = (strings::decimal_text(tenths / 10) + "."@).push(
        strings::digit_char(tenths % 10),
    );
    if value.negative() {
        assert(values::percent_text(value) =~= "-"@ + number + "%"@);
    } else {
        assert(values::percent_text(value) =~= number + "%"@);
    }
}

proof fn lemma_two_to_positive(exponent: nat)
    ensures
        binary64::two_to(exponent) >= 1,
    decreases exponent,
{
    if exponent > 0 {
        lemma_two_to_positive((exponent - 1) as nat);
    }
}

/// A repository is told by its head, by one word for its state, and by the counts that are
/// not zero: `conflict` before `dirty` before `clean`.
pub proof fn law_repositories_are_told_by_head_and_state(git: Git)
    ensures
        ({
            let word = if git.conflicts > 0 {
                "conflict"@
            } else if git.dirty || git.staged > 0 || git.unstaged > 0 {
                "dirty"@
            } else {
                "clean"@
            };
            let head = match git.head {
                GitHead::Branch { name } => name@,
                GitHead::Detached { commit } => "detached@"@ + commit@,
                GitHead::Unborn => "unborn"@,
            };
            let told = git.ahead is Some && git.ahead->0 > 0;
            let text = values::git_text(git);
            &&& strings::begins_with(text, head + " · "@ + word)
            &&& git.staged == 0 && git.unstaged == 0 && git.conflicts == 0 && !told ==> text == head
                + " · "@ + word
            &&& git.staged > 0 && git.unstaged == 0 && git.conflicts == 0 && !told ==> text == head
                + " · "@ + word + " · "@ + ("+"@ + strings::decimal_text(git.staged as nat))
            &&& git.staged == 0 && git.unstaged > 0 && git.conflicts == 0 && !told ==> text == head
                + " · "@ + word + " · "@ + ("~"@ + strings::decimal_text(git.unstaged as nat))
            &&& git.staged == 0 && git.unstaged == 0 && git.conflicts > 0 && !told ==> text == head
                + " · "@ + word + " · "@ + ("!"@ + strings::decimal_text(git.conflicts as nat))
            &&& git.staged == 0 && git.unstaged == 0 && git.conflicts == 0 && told ==> text == head
                + " · "@ + word + " · "@ + ("↑"@ + strings::decimal_text(git.ahead->0 as nat))
        }),
{
    let lead = values::head_text(git.head) + " · "@ + values::state_text(git);
    let text = values::git_text(git);
    assert(text.subrange(0, lead.len() as int) =~= lead);
}

/// One more kind of count adds its words behind the others, and the order is staged,
/// unstaged, conflicts, ahead.
pub proof fn law_counts_stand_in_their_order(git: Git)
    ensures
        ({
            let counts = values::count_texts(git);
            let told = git.ahead is Some && git.ahead->0 > 0;
            &&& counts.len() == (if git.staged > 0 {
                1int
            } else {
                0
            }) + (if git.unstaged > 0 {
                1int
            } else {
                0
            }) + (if git.conflicts > 0 {
                1int
            } else {
                0
            }) + (if told {
                1int
            } else {
                0
            })
            &&& git.staged > 0 ==> counts[0] == "+"@ + strings::decimal_text(git.staged as nat)
            &&& told ==> counts.last() == "↑"@ + strings::decimal_text(git.ahead->0 as nat)
            &&& git.unstaged > 0 ==> counts[if git.staged > 0 {
                1int
            } else {
                0
            }] == "~"@ + strings::decimal_text(git.unstaged as nat)
            &&& git.conflicts > 0 && !told ==> counts.last() == "!"@ + strings::decimal_text(
                git.conflicts as nat,
            )
            &&& git.conflicts > 0 && told ==> counts[counts.len() - 2] == "!"@
                + strings::decimal_text(git.conflicts as nat)
        }),
{
}

proof fn lemma_named_parts_push(parts: Seq<Seq<char>>, last: Seq<char>)
    ensures
        values::named_parts(parts.push(last)) == if last.len() == 0 {
            values::named_parts(parts)
        } else {
            values::named_parts(parts).push(last)
        },
{
    assert(parts.push(last).drop_last() =~= parts);
}

proof fn lemma_split_at_the_end(front: Seq<char>, c: char, last: Seq<char>)
    requires
        strings_laws::free_of(last, c),
    ensures
        strings::split_text(front.push(c) + last, c) == strings::split_text(front, c).push(last),
    decreases front.len(),
{
    let whole = front.push(c) + last;
    if strings_laws::free_of(front, c) {
        strings_laws::law_pieces_are_what_stands_between(front, c, last);
        strings_laws::law_pieces_are_what_stands_between(last, c, last);
        assert(seq![front] + seq![last] =~= seq![front].push(last));
    } else {
        let at = choose|at: int| 0 <= at < front.len() && front[at] == c && strings_laws::free_of(
            front.take(at),
            c,
        );
        lemma_first_of(front, c);
        let first = front.take(at);
        let rest = front.skip(at + 1);
        assert(first.push(c) + rest =~= front);
        strings_laws::law_pieces_are_what_stands_between(first, c, rest);
        lemma_split_at_the_end(rest, c, last);
        assert(whole =~= first.push(c) + (rest.push(c) + last));
        strings_laws::law_pieces_are_what_stands_between(first, c, rest.push(c) + last);
        assert(seq![first] + strings::split_text(rest, c).push(last) =~= (seq![first]
            + strings::split_text(rest, c)).push(last));
    }
}

proof fn lemma_first_of(text: Seq<char>, c: char)
    requires
        !strings_laws::free_of(text, c),
    ensures
        exists|at: int|
            0 <= at < text.len() && text[at] == c && strings_laws::free_of(text.take(at), c),
    decreases text.len(),
{
    let at = choose|at: int| 0 <= at < text.len() && text[at] == c;
    if !strings_laws::free_of(text.take(at), c) {
        let front = text.take(at);
        lemma_first_of(front, c);
        let first = choose|i: int|
            0 <= i < front.len() && front[i] == c && strings_laws::free_of(front.take(i), c);
        assert(front.take(first) =~= text.take(first));
        assert(text[first] == c);
    }
}

/// A path of more than two names is told by its last two, behind an ellipsis.
pub proof fn law_deep_paths_are_told_by_their_last_two_names(
    front: Seq<char>,
    parent: Seq<char>,
    name: Seq<char>,
)
    requires
        parent.len() > 0,
        name.len() > 0,
        strings_laws::free_of(parent, '/'),
        strings_laws::free_of(name, '/'),
        values::named_parts(strings::split_text(front, '/')).len() > 0,
        strings::sanitized(front) == front,
        strings::sanitized(parent) == parent,
        strings::sanitized(name) == name,
    ensures
        values::short_path_text(front.push('/') + parent.push('/') + name) == "…/"@ + parent + "/"@
            + name,
{
    let lead = front.push('/') + parent;
    let path = front.push('/') + parent.push('/') + name;
    assert(path =~= lead.push('/') + name);
    assert(strings::sanitized(path) =~= path) by {
        assert forall|i: int| 0 <= i < path.len() implies !strings::control(#[trigger] path[i]) by {
            if i < front.len() {
                assert(path[i] == front[i] && strings::sanitized(front)[i] == front[i]);
            } else if front.len() < i < front.len() + 1 + parent.len() {
                let j = i - front.len() - 1;
                assert(path[i] == parent[j] && strings::sanitized(parent)[j] == parent[j]);
            } else if i > front.len() + 1 + parent.len() {
                let j = i - front.len() - 1 - parent.len() - 1;
                assert(path[i] == name[j] && strings::sanitized(name)[j] == name[j]);
            }
        }
    }
    lemma_split_at_the_end(front, '/', parent);
    lemma_split_at_the_end(lead, '/', name);
    let parts = strings::split_text(front, '/');
    lemma_named_parts_push(parts, parent);
    lemma_named_parts_push(parts.push(parent), name);
}

/// A path of two names or fewer is told as it is.
pub proof fn law_short_paths_are_told_whole(parent: Seq<char>, name: Seq<char>)
    requires
        strings_laws::free_of(parent, '/'),
        strings_laws::free_of(name, '/'),
        strings::sanitized(parent) == parent,
        strings::sanitized(name) == name,
    ensures
        values::short_path_text(name) == name,
        values::short_path_text(parent.push('/') + name) == parent.push('/') + name,
{
    let path = parent.push('/') + name;
    assert(strings::sanitized(path) =~= path) by {
        assert forall|i: int| 0 <= i < path.len() implies !strings::control(#[trigger] path[i]) by {
            if i < parent.len() {
                assert(path[i] == parent[i] && strings::sanitized(parent)[i] == parent[i]);
            } else if i > parent.len() {
                let j = i - parent.len() - 1;
                assert(path[i] == name[j] && strings::sanitized(name)[j] == name[j]);
            }
        }
    }
    strings_laws::law_pieces_are_what_stands_between(parent, '/', name);
    strings_laws::law_pieces_are_what_stands_between(name, '/', name);
    lemma_split_at_the_end(parent, '/', name);
    let none = Seq::<Seq<char>>::empty();
    assert(seq![parent] =~= none.push(parent));
    assert(seq![name] =~= none.push(name));
    lemma_named_parts_push(none, parent);
    lemma_named_parts_push(none, name);
    lemma_named_parts_push(seq![parent], name);
}

/// The place of work is the worktree wherever there is one, and the directory only where
/// there is none.
pub proof fn law_the_worktree_goes_before_the_directory(snapshot: Snapshot)
    ensures
        snapshot.context.worktree is Some ==> values::workspace_text(snapshot) == Some(
            snapshot.context.worktree->0@,
        ),
        snapshot.context.worktree is None && snapshot.context.directory is Some
            ==> values::workspace_text(snapshot) == Some(snapshot.context.directory->0@),
        snapshot.context.worktree is None && snapshot.context.directory is None
            ==> values::workspace_text(snapshot) is None,
{
}

/// The runtime that is told is that of the first toolchain of the primary language, in any
/// case; no toolchain of another language is told, and where there is none the language
/// stands alone.
pub proof fn law_the_first_toolchain_of_the_language_is_told(
    snapshot: Snapshot,
    full: bool,
    at: int,
)
    requires
        snapshot.project is Some,
        snapshot.project->0.primary_language is Some,
        0 <= at <= snapshot.project->0.toolchains@.len(),
        forall|i: int|
            0 <= i < at ==> strings::lowered(
                (#[trigger] snapshot.project->0.toolchains@[i]).language@,
            ) != strings::lowered(snapshot.project->0.primary_language->0@),
        at < snapshot.project->0.toolchains@.len() ==> strings::lowered(
            snapshot.project->0.toolchains@[at].language@,
        ) == strings::lowered(snapshot.project->0.primary_language->0@),
    ensures
        values::runtime_text(snapshot, full) is Some,
        ({
            let tools = snapshot.project->0.toolchains@;
            let text = (values::runtime_text(snapshot, full)->0).0;
            &&& at == tools.len() ==> text == snapshot.project->0.primary_language->0@
            &&& at < tools.len() && full ==> text == tools[at].runtime@ + " "@
                + values::version_text(tools[at])
            &&& at < tools.len() && !full && values::first_word(values::version_text(tools[at])).len()
                > 0 ==> text == tools[at].runtime@ + " "@ + values::first_word(
                values::version_text(tools[at]),
            )
        }),
{
    lemma_toolchain_from(
        snapshot.project->0.toolchains@,
        snapshot.project->0.primary_language->0@,
        0,
        at,
    );
}

proof fn lemma_toolchain_from(tools: Seq<Toolchain>, language: Seq<char>, from: int, at: int)
    requires
        0 <= from <= at <= tools.len(),
        forall|i: int|
            from <= i < at ==> strings::lowered((#[trigger] tools[i]).language@)
                != strings::lowered(language),
        at < tools.len() ==> strings::lowered(tools[at].language@) == strings::lowered(language),
    ensures
        values::toolchain_from(tools, language, from) == at,
    decreases at - from,
{
    if from < at {
        assert(strings::lowered(tools[from].language@) != strings::lowered(language));
        lemma_toolchain_from(tools, language, from + 1, at);
    }
}

/// A version that begins with the name of its runtime and a space is told without it; one
/// that begins with neither the name of the runtime nor that of the language is told as it
/// is, and an unknown one is said to be unknown.
pub proof fn law_versions_are_told_without_their_names(tool: Toolchain, rest: Seq<char>)
    ensures
        tool.version is None ==> values::version_text(tool) == "unknown"@,
        tool.version is Some && tool.version->0@ == tool.runtime@.push(' ') + rest && rest.len() > 0
            && !strings::whitespace(rest[0]) && (rest.len() <= tool.language@.len()
            || strings::lowered(rest.take(tool.language@.len() as int)) != strings::lowered(
            tool.language@,
        )) ==> values::version_text(tool) == rest,
        tool.version is Some && tool.version->0@.len() > 0 && (tool.version->0@.len()
            <= tool.runtime@.len() || !strings::whitespace(
            tool.version->0@[tool.runtime@.len() as int],
        )) && (tool.version->0@.len() <= tool.language@.len() || !strings::whitespace(
            tool.version->0@[tool.language@.len() as int],
        )) ==> values::version_text(tool) == tool.version->0@,
{
    if tool.version is Some {
        let version = tool.version->0@;
        if version == tool.runtime@.push(' ') + rest && rest.len() > 0 && !strings::whitespace(
            rest[0],
        ) {
            let size = tool.runtime@.len() as int;
            assert(version.take(size) =~= tool.runtime@);
            assert(version[size] == ' ');
            let tail = version.skip(size);
            assert(tail[0] == ' ');
            assert(tail.drop_first() =~= rest);
            assert(strings::trimmed_start(tail) == strings::trimmed_start(rest));
            assert(strings::trimmed_start(rest) == rest);
        }
    }
}

/// What is known of a CPU is told, its name before its frequency before its load, and
/// nothing else.
pub proof fn law_cpus_are_told_by_what_is_known(cpu: Cpu)
    ensures
        ({
            let load = cpu.utilization_percent;
            let told = load is Some && load->0.finite();
            let mhz = strings::decimal_text(cpu.frequency_mhz->0 as nat) + " MHz"@;
            let text = values::cpu_text(cpu);
            &&& cpu.label is None && cpu.frequency_mhz is None && !told ==> text.len() == 0
            &&& cpu.label is Some && cpu.frequency_mhz is None && !told ==> text == cpu.label->0@
            &&& cpu.label is None && cpu.frequency_mhz is Some && !told ==> text == mhz
            &&& cpu.label is None && cpu.frequency_mhz is None && told ==> text
                == values::percent_text(load->0)
            &&& cpu.label is Some && cpu.frequency_mhz is Some && !told ==> text == cpu.label->0@
                + " @ "@ + mhz
            &&& cpu.label is Some && cpu.label->0@.len() > 0 && cpu.frequency_mhz is Some && told
                ==> text == cpu.label->0@ + " @ "@ + mhz + " · "@ + values::percent_text(load->0)
            &&& cpu.label is Some && cpu.label->0@.len() > 0 && cpu.frequency_mhz is None && told
                ==> text == cpu.label->0@ + " · "@ + values::percent_text(load->0)
        }),
{
    let mhz = strings::decimal_text(cpu.frequency_mhz->0 as nat) + " MHz"@;
    if cpu.label is Some && cpu.frequency_mhz is Some {
        assert(cpu.label->0@ + " @ "@ + strings::decimal_text(cpu.frequency_mhz->0 as nat) + " MHz"@
            =~= cpu.label->0@ + " @ "@ + mhz);
    }
}

/// A system is told by its name, and by its version where that is known.
pub proof fn law_systems_are_told_by_name_and_version(os: OperatingSystem)
    ensures
        os.version is Some ==> values::os_text(os) == os.name@ + " "@ + os.version->0@,
        os.version is None ==> values::os_text(os) == os.name@,
{
}

/// Time is told by clock, date and zone, in this order; the name of the zone goes before
/// its offset.
pub proof fn law_times_are_told_in_order(snapshot: Snapshot)
    ensures
        ({
            let time = snapshot.time;
            let parts = values::time_parts(snapshot);
            let zoned = time.timezone_name is Some || time.timezone_offset_seconds is Some;
            &&& parts.len() == (if time.local is Some {
                1int
            } else {
                0
            }) + (if time.date is Some {
                1int
            } else {
                0
            }) + (if zoned {
                1int
            } else {
                0
            })
            &&& time.local is Some ==> parts[0] == time.local->0@
            &&& time.date is Some ==> parts[if time.local is Some {
                1int
            } else {
                0
            }] == time.date->0@
            &&& time.timezone_name is Some ==> parts.last() == time.timezone_name->0@
            &&& time.timezone_name is None && time.timezone_offset_seconds is Some ==> parts.last()
                == values::offset_text(time.timezone_offset_seconds->0)
            &&& values::time_text(snapshot) is Some <==> parts.len() > 0
            &&& parts.len() > 0 ==> values::time_text(snapshot)->0 == strings::joined(
                parts,
                " · "@,
            )
        }),
{
}

/// A disk is told apart from another by its capacity or by its printed usage.
pub open spec fn told_apart(first: Disk, second: Disk) -> bool {
    first.total_bytes != second.total_bytes || values::bytes_text(first.used_bytes)
        != values::bytes_text(second.used_bytes)
}

/// The disks that are shown are told apart from one another.
pub proof fn law_shown_disks_are_told_apart(disks: Seq<Disk>)
    ensures
        forall|i: int, j: int|
            0 <= i < j < values::distinct_disks(disks).len() ==> told_apart(
                #[trigger] values::distinct_disks(disks)[i],
                #[trigger] values::distinct_disks(disks)[j],
            ),
    decreases disks.len(),
{
    if disks.len() > 0 {
        let front = disks.drop_last();
        law_shown_disks_are_told_apart(front);
        let before = values::distinct_disks(front);
        let shown = values::distinct_disks(disks);
        if !values::shown_already(before, disks.last()) {
            assert forall|i: int, j: int| 0 <= i < j < shown.len() implies told_apart(
                #[trigger] shown[i],
                #[trigger] shown[j],
            ) by {
                assert(shown[i] == before[i]);
                if j < before.len() {
                    assert(shown[j] == before[j]);
                }
            }
        }
    }
}

/// Every disk is shown, or is not told apart from one that is.
pub proof fn law_every_disk_is_stood_for(disks: Seq<Disk>, at: int) -> (place: int)
    requires
        0 <= at < disks.len(),
    ensures
        0 <= place < values::distinct_disks(disks).len(),
        !told_apart(values::distinct_disks(disks)[place], disks[at]),
    decreases disks.len(),
{
    let front = disks.drop_last();
    let before = values::distinct_disks(front);
    if at < front.len() {
        law_every_disk_is_stood_for(front, at)
    } else if values::shown_already(before, disks.last()) {
        choose|j: int|
            0 <= j < before.len() && (#[trigger] before[j]).total_bytes == disks.last().total_bytes
                && values::bytes_text(before[j].used_bytes) == values::bytes_text(
                disks.last().used_bytes,
            )
    } else {
        before.len() as int
    }
}

/// What is shown is one of the disks, and the first of them is shown first.
pub proof fn law_shown_disks_are_disks(disks: Seq<Disk>, place: int) -> (at: int)
    requires
        0 <= place < values::distinct_disks(disks).len(),
    ensures
        0 <= at < disks.len(),
        disks[at] == values::distinct_disks(disks)[place],
        place == 0 ==> at == 0,
        place <= at,
    decreases disks.len(),
{
    let front = disks.drop_last();
    let before = values::distinct_disks(front);
    if place < before.len() {
        law_shown_disks_are_disks(front, place)
    } else {
        if front.len() > 0 {
            let stood = law_every_disk_is_stood_for(front, 0);
        }
        lemma_no_more_shown(front);
        disks.len() - 1
    }
}

proof fn lemma_no_more_shown(disks: Seq<Disk>)
    ensures
        values::distinct_disks(disks).len() <= disks.len(),
    decreases disks.len(),
{
    if disks.len() > 0 {
        lemma_no_more_shown(disks.drop_last());
    }
}

/// A number is told where there is one that is finite, and only there.
pub proof fn law_only_finite_numbers_are_told(value: Option<Binary64>)
    ensures
        values::finite_of(value) is Some <==> value is Some && value->0.finite(),
        values::finite_of(value) is Some ==> values::finite_of(value) == value,
{
}

/// A version that is nothing but the name of its runtime is told whole.
pub proof fn law_versions_of_names_alone_are_told_whole(tool: Toolchain)
    requires
        tool.version is Some,
        tool.version->0@ == tool.runtime@.push(' '),
    ensures
        values::version_text(tool) == tool.version->0@,
{
    let version = tool.version->0@;
    let size = tool.runtime@.len() as int;
    assert(version.take(size) =~= tool.runtime@);
    let tail = version.skip(size);
    assert(tail.len() == 1 && tail[0] == ' ');
    assert(tail.drop_first() =~= Seq::empty());
    assert(strings::trimmed_start(tail) == strings::trimmed_start(Seq::empty()));
}

} // verus!
