//! Every limit of the program, its default and its hard ceiling.
use vstd::prelude::*;
use crate::strings;
use crate::strings::decimal;

verus! {

#[derive(Clone, Debug, PartialEq, Eq)]
pub struct LimitOverrides {
    pub subprocess_timeout_ms: Option<u64>,
    pub subprocess_output_bytes: Option<u64>,
    pub scan_max_files: Option<u64>,
    pub scan_max_file_bytes: Option<u64>,
    pub scan_max_read_bytes: Option<u64>,
    pub scan_elapsed_ms: Option<u64>,
    pub coverage_max_bytes: Option<u64>,
    pub image_max_file_bytes: Option<u64>,
    pub image_max_dimension_px: Option<u32>,
    pub image_max_decoded_bytes: Option<u64>,
    pub image_max_frames: Option<u32>,
    pub live_refresh_ms: Option<u64>,
    pub frame_min_delay_ms: Option<u64>,
    pub frame_max_delay_ms: Option<u64>,
}

impl Default for LimitOverrides {
    fn default() -> (overrides: Self)
        ensures
            overrides == (LimitOverrides {
                subprocess_timeout_ms: None,
                subprocess_output_bytes: None,
                scan_max_files: None,
                scan_max_file_bytes: None,
                scan_max_read_bytes: None,
                scan_elapsed_ms: None,
                coverage_max_bytes: None,
                image_max_file_bytes: None,
                image_max_dimension_px: None,
                image_max_decoded_bytes: None,
                image_max_frames: None,
                live_refresh_ms: None,
                frame_min_delay_ms: None,
                frame_max_delay_ms: None,
            }),
    {
        LimitOverrides {
            subprocess_timeout_ms: None,
            subprocess_output_bytes: None,
            scan_max_files: None,
            scan_max_file_bytes: None,
            scan_max_read_bytes: None,
            scan_elapsed_ms: None,
            coverage_max_bytes: None,
            image_max_file_bytes: None,
            image_max_dimension_px: None,
            image_max_decoded_bytes: None,
            image_max_frames: None,
            live_refresh_ms: None,
            frame_min_delay_ms: None,
            frame_max_delay_ms: None,
        }
    }
}

#[derive(Clone, Debug, PartialEq, Eq)]
pub struct Limits {
    pub subprocess_timeout_ms: u64,
    pub subprocess_output_bytes: u64,
    pub scan_max_files: u64,
    pub scan_max_file_bytes: u64,
    pub scan_max_read_bytes: u64,
    pub scan_elapsed_ms: u64,
    pub coverage_max_bytes: u64,
    pub image_max_file_bytes: u64,
    pub image_max_dimension_px: u32,
    pub image_max_decoded_bytes: u64,
    pub image_max_frames: u32,
    pub live_refresh_ms: u64,
    pub frame_min_delay_ms: u64,
    pub frame_max_delay_ms: u64,
}

pub open spec fn default_limits() -> Limits {
    Limits {
        subprocess_timeout_ms: 500,
        subprocess_output_bytes: 65_536,
        scan_max_files: 10_000,
        scan_max_file_bytes: 1_048_576,
        scan_max_read_bytes: 8_388_608,
        scan_elapsed_ms: 250,
        coverage_max_bytes: 8_388_608,
        image_max_file_bytes: 16_777_216,
        image_max_dimension_px: 4_096,
        image_max_decoded_bytes: 67_108_864,
        image_max_frames: 120,
        live_refresh_ms: 1_000,
        frame_min_delay_ms: 20,
        frame_max_delay_ms: 10_000,
    }
}

impl Default for Limits {
    fn default() -> (limits: Self)
        ensures
            limits == default_limits(),
    {
        Limits {
            subprocess_timeout_ms: 500,
            subprocess_output_bytes: 65_536,
            scan_max_files: 10_000,
            scan_max_file_bytes: 1_048_576,
            scan_max_read_bytes: 8_388_608,
            scan_elapsed_ms: 250,
            coverage_max_bytes: 8_388_608,
            image_max_file_bytes: 16_777_216,
            image_max_dimension_px: 4_096,
            image_max_decoded_bytes: 67_108_864,
            image_max_frames: 120,
            live_refresh_ms: 1_000,
            frame_min_delay_ms: 20,
            frame_max_delay_ms: 10_000,
        }
    }
}

#[derive(Clone, Debug, PartialEq, Eq)]
pub struct LimitError {
    pub field: &'static str,
    pub message: String,
}

impl LimitError {
    /// The error as the user reads it.
    pub fn to_text(&self) -> (text: String)
        ensures
            text@ == "limits."@ + self.field@ + " "@ + self.message@,
    {
        "limits.".to_owned().concat(self.field).concat(" ").concat(self.message.as_str())
    }
}

/// How many limits there are.
pub const LIMIT_COUNT: usize = 14;

/// The name of a limit, in the order in which they are set.
pub open spec fn limit_name(index: int) -> Seq<char> {
    if index == 0 {
        "subprocess_timeout_ms"@
    } else if index == 1 {
        "subprocess_output_bytes"@
    } else if index == 2 {
        "scan_max_files"@
    } else if index == 3 {
        "scan_max_file_bytes"@
    } else if index == 4 {
        "scan_max_read_bytes"@
    } else if index == 5 {
        "scan_elapsed_ms"@
    } else if index == 6 {
        "coverage_max_bytes"@
    } else if index == 7 {
        "image_max_file_bytes"@
    } else if index == 8 {
        "image_max_dimension_px"@
    } else if index == 9 {
        "image_max_decoded_bytes"@
    } else if index == 10 {
        "image_max_frames"@
    } else if index == 11 {
        "live_refresh_ms"@
    } else if index == 12 {
        "frame_min_delay_ms"@
    } else {
        "frame_max_delay_ms"@
    }
}

/// The least value that a limit accepts.
pub open spec fn limit_floor(index: int) -> nat {
    if index == 11 {
        100
    } else {
        1
    }
}

/// The hard ceiling of a limit.
pub open spec fn limit_ceiling(index: int) -> nat {
    if index == 0 {
        10_000
    } else if index == 1 {
        1_048_576
    } else if index == 2 {
        100_000
    } else if index == 3 {
        16_777_216
    } else if index == 4 {
        134_217_728
    } else if index == 5 {
        10_000
    } else if index == 6 {
        67_108_864
    } else if index == 7 {
        67_108_864
    } else if index == 8 {
        16_384
    } else if index == 9 {
        536_870_912
    } else if index == 10 {
        1_000
    } else if index == 11 {
        60_000
    } else if index == 12 {
        1_000
    } else {
        60_000
    }
}

pub open spec fn widened(value: Option<u32>) -> Option<u64> {
    match value {
        Some(number) => Some(number as u64),
        None => None,
    }
}

/// The value that is given for a limit.
pub open spec fn override_at(values: LimitOverrides, index: int) -> Option<u64> {
    if index == 0 {
        values.subprocess_timeout_ms
    } else if index == 1 {
        values.subprocess_output_bytes
    } else if index == 2 {
        values.scan_max_files
    } else if index == 3 {
        values.scan_max_file_bytes
    } else if index == 4 {
        values.scan_max_read_bytes
    } else if index == 5 {
        values.scan_elapsed_ms
    } else if index == 6 {
        values.coverage_max_bytes
    } else if index == 7 {
        values.image_max_file_bytes
    } else if index == 8 {
        widened(values.image_max_dimension_px)
    } else if index == 9 {
        values.image_max_decoded_bytes
    } else if index == 10 {
        widened(values.image_max_frames)
    } else if index == 11 {
        values.live_refresh_ms
    } else if index == 12 {
        values.frame_min_delay_ms
    } else {
        values.frame_max_delay_ms
    }
}

/// The value of a limit.
pub open spec fn limit_at(limits: Limits, index: int) -> u64 {
    if index == 0 {
        limits.subprocess_timeout_ms
    } else if index == 1 {
        limits.subprocess_output_bytes
    } else if index == 2 {
        limits.scan_max_files
    } else if index == 3 {
        limits.scan_max_file_bytes
    } else if index == 4 {
        limits.scan_max_read_bytes
    } else if index == 5 {
        limits.scan_elapsed_ms
    } else if index == 6 {
        limits.coverage_max_bytes
    } else if index == 7 {
        limits.image_max_file_bytes
    } else if index == 8 {
        limits.image_max_dimension_px as u64
    } else if index == 9 {
        limits.image_max_decoded_bytes
    } else if index == 10 {
        limits.image_max_frames as u64
    } else if index == 11 {
        limits.live_refresh_ms
    } else if index == 12 {
        limits.frame_min_delay_ms
    } else {
        limits.frame_max_delay_ms
    }
}

/// A value given for a limit lies in its range; none is always fine.
pub open spec fn accepted(values: LimitOverrides, index: int) -> bool {
    match override_at(values, index) {
        Some(value) => limit_floor(index) <= value <= limit_ceiling(index),
        None => true,
    }
}

/// The first limit at or after `from` whose value is refused, or the count.
pub open spec fn refused_from(values: LimitOverrides, from: int) -> int
    decreases LIMIT_COUNT - from,
{
    if from >= LIMIT_COUNT {
        LIMIT_COUNT as int
    } else if !accepted(values, from) {
        from
    } else {
        refused_from(values, from + 1)
    }
}

/// The value of a limit once it is set.
pub open spec fn chosen(limits: Limits, values: LimitOverrides, index: int) -> u64 {
    match override_at(values, index) {
        Some(value) => value,
        None => limit_at(limits, index),
    }
}

/// The message of a value out of range.
pub open spec fn range_message(index: int) -> Seq<char> {
    "must be between "@ + strings::decimal_text(limit_floor(index)) + " and "@
        + strings::decimal_text(limit_ceiling(index))
}

/// `after` holds the values given for the limits before `count`, and the old
/// ones from there on.
pub open spec fn set_before(
    before: Limits,
    after: Limits,
    values: LimitOverrides,
    count: int,
) -> bool {
    forall|index: int|
        0 <= index < LIMIT_COUNT ==> #[trigger] limit_at(after, index) == if index < count {
            chosen(before, values, index)
        } else {
            limit_at(before, index)
        }
}

fn out_of_range(name: &'static str, min: u64, max: u64) -> (error: LimitError)
    ensures
        error.field@ == name@,
        error.message@ == "must be between "@ + strings::decimal_text(min as nat) + " and "@
            + strings::decimal_text(max as nat),
{
    let mut message = "must be between ".to_owned();
    message.append(decimal(min).as_str());
    message.append(" and ");
    message.append(decimal(max).as_str());
    LimitError { field: name, message }
}

fn set(
    target: &mut u64,
    value: Option<u64>,
    name: &'static str,
    min: u64,
    max: u64,
) -> (outcome: Result<(), LimitError>)
    ensures
        outcome is Ok == (value is Some ==> min <= value->0 <= max),
        outcome is Ok ==> *final(target) == match value {
            Some(value) => value,
            None => *old(target),
        },
        outcome is Err ==> *final(target) == *old(target) && outcome->Err_0.field@ == name@
            && outcome->Err_0.message@ == "must be between "@ + strings::decimal_text(min as nat)
            + " and "@ + strings::decimal_text(max as nat),
{
    if let Some(value) = value {
        if value < min || value > max {
            return Err(out_of_range(name, min, max));
        }
        *target = value;
    }
    Ok(())
}

fn set_narrow(
    target: &mut u32,
    value: Option<u32>,
    name: &'static str,
    min: u32,
    max: u32,
) -> (outcome: Result<(), LimitError>)
    ensures
        outcome is Ok == (value is Some ==> min <= value->0 <= max),
        outcome is Ok ==> *final(target) == match value {
            Some(value) => value,
            None => *old(target),
        },
        outcome is Err ==> *final(target) == *old(target) && outcome->Err_0.field@ == name@
            && outcome->Err_0.message@ == "must be between "@ + strings::decimal_text(min as nat)
            + " and "@ + strings::decimal_text(max as nat),
{
    if let Some(value) = value {
        if value < min || value > max {
            return Err(out_of_range(name, min as u64, max as u64));
        }
        *target = value;
    }
    Ok(())
}

impl Limits {
    /// The limits up to the image's.
    fn apply_first(&mut self, values: &LimitOverrides) -> (outcome: Result<(), LimitError>)
        ensures
            ({
                let refused = refused_from(*values, 0);
                let count = if refused < 7 {
                    refused
                } else {
                    7
                };
                &&& set_before(*old(self), *final(self), *values, count)
                &&& outcome is Ok == (refused >= 7)
                &&& outcome is Err ==> outcome->Err_0.field@ == limit_name(refused)
                    && outcome->Err_0.message@ == range_message(refused)
            }),
    {
        proof {
            lemma_refused_split(*values);
            reveal_with_fuel(refused_from, 8);
        }
        match set(
            &mut self.subprocess_timeout_ms,
            values.subprocess_timeout_ms,
            "subprocess_timeout_ms",
            1,
            10_000,
        ) {
            Ok(()) => {},
            Err(error) => return Err(error),
        }
        match set(
            &mut self.subprocess_output_bytes,
            values.subprocess_output_bytes,
            "subprocess_output_bytes",
            1,
            1_048_576,
        ) {
            Ok(()) => {},
            Err(error) => return Err(error),
        }
        match set(&mut self.scan_max_files, values.scan_max_files, "scan_max_files", 1, 100_000) {
            Ok(()) => {},
            Err(error) => return Err(error),
        }
        match set(
            &mut self.scan_max_file_bytes,
            values.scan_max_file_bytes,
            "scan_max_file_bytes",
            1,
            16_777_216,
        ) {
            Ok(()) => {},
            Err(error) => return Err(error),
        }
        match set(
            &mut self.scan_max_read_bytes,
            values.scan_max_read_bytes,
            "scan_max_read_bytes",
            1,
            134_217_728,
        ) {
            Ok(()) => {},
            Err(error) => return Err(error),
        }
        match set(&mut self.scan_elapsed_ms, values.scan_elapsed_ms, "scan_elapsed_ms", 1, 10_000) {
            Ok(()) => {},
            Err(error) => return Err(error),
        }
        set(
            &mut self.coverage_max_bytes,
            values.coverage_max_bytes,
            "coverage_max_bytes",
            1,
            67_108_864,
        )
    }

    /// The limits of images and animations.
    fn apply_last(&mut self, values: &LimitOverrides) -> (outcome: Result<(), LimitError>)
        ensures
            ({
                let refused = refused_from(*values, 7);
                &&& forall|index: int|
                    0 <= index < 7 ==> #[trigger] limit_at(*final(self), index) == limit_at(
                        *old(self),
                        index,
                    )
                &&& forall|index: int|
                    7 <= index < LIMIT_COUNT ==> #[trigger] limit_at(*final(self), index) == if index
                        < refused {
                        chosen(*old(self), *values, index)
                    } else {
                        limit_at(*old(self), index)
                    }
                &&& outcome is Ok == (refused >= LIMIT_COUNT)
                &&& outcome is Err ==> outcome->Err_0.field@ == limit_name(refused)
                    && outcome->Err_0.message@ == range_message(refused)
            }),
    {
        proof {
            reveal_with_fuel(refused_from, 8);
        }
        match set(
            &mut self.image_max_file_bytes,
            values.image_max_file_bytes,
            "image_max_file_bytes",
            1,
            67_108_864,
        ) {
            Ok(()) => {},
            Err(error) => return Err(error),
        }
        match set_narrow(
            &mut self.image_max_dimension_px,
            values.image_max_dimension_px,
            "image_max_dimension_px",
            1,
            16_384,
        ) {
            Ok(()) => {},
            Err(error) => return Err(error),
        }
        match set(
            &mut self.image_max_decoded_bytes,
            values.image_max_decoded_bytes,
            "image_max_decoded_bytes",
            1,
            536_870_912,
        ) {
            Ok(()) => {},
            Err(error) => return Err(error),
        }
        match set_narrow(
            &mut self.image_max_frames,
            values.image_max_frames,
            "image_max_frames",
            1,
            1_000,
        ) {
            Ok(()) => {},
            Err(error) => return Err(error),
        }
        match set(
            &mut self.live_refresh_ms,
            values.live_refresh_ms,
            "live_refresh_ms",
            100,
            60_000,
        ) {
            Ok(()) => {},
            Err(error) => return Err(error),
        }
        match set(
            &mut self.frame_min_delay_ms,
            values.frame_min_delay_ms,
            "frame_min_delay_ms",
            1,
            1_000,
        ) {
            Ok(()) => {},
            Err(error) => return Err(error),
        }
        set(
            &mut self.frame_max_delay_ms,
            values.frame_max_delay_ms,
            "frame_max_delay_ms",
            1,
            60_000,
        )
    }

    /// Set the values that are given. The first one out of its range is the
    /// error, and those before it stay set; the animation's delays must be in order.
    pub fn apply(&mut self, values: &LimitOverrides) -> (outcome: Result<(), LimitError>)
        ensures
            set_before(*old(self), *final(self), *values, refused_from(*values, 0)),
            refused_from(*values, 0) < LIMIT_COUNT ==> outcome is Err && outcome->Err_0.field@
                == limit_name(refused_from(*values, 0)) && outcome->Err_0.message@ == range_message(
                refused_from(*values, 0),
            ),
            refused_from(*values, 0) >= LIMIT_COUNT ==> outcome is Ok == (
            final(self).frame_min_delay_ms <= final(self).frame_max_delay_ms) && (outcome is Err
                ==> outcome->Err_0.field@ == "frame_min_delay_ms"@ && outcome->Err_0.message@
                == "must not exceed frame_max_delay_ms"@),
    {
        proof {
            lemma_refused_split(*values);
        }
        match self.apply_first(values) {
            Ok(()) => {},
            Err(error) => return Err(error),
        }
        let ghost middle = *self;
        match self.apply_last(values) {
            Ok(()) => {},
            Err(error) => {
                proof {
                    lemma_two_steps(*old(self), middle, *self, *values);
                }
                return Err(error);
            },
        }
        proof {
            lemma_two_steps(*old(self), middle, *self, *values);
        }
        if self.frame_min_delay_ms > self.frame_max_delay_ms {
            return Err(
                LimitError {
                    field: "frame_min_delay_ms",
                    message: "must not exceed frame_max_delay_ms".to_owned(),
                },
            );
        }
        Ok(())
    }
}

pub proof fn lemma_refused_bounds(values: LimitOverrides)
    ensures
        0 <= refused_from(values, 0) <= LIMIT_COUNT,
{
    lemma_refused_split(values);
}

proof fn lemma_refused_split(values: LimitOverrides)
    ensures
        0 <= refused_from(values, 0) <= LIMIT_COUNT,
        7 <= refused_from(values, 7) <= LIMIT_COUNT,
        refused_from(values, 0) >= 7 ==> refused_from(values, 0) == refused_from(values, 7),
{
    reveal_with_fuel(refused_from, 15);
}

proof fn lemma_two_steps(before: Limits, middle: Limits, after: Limits, values: LimitOverrides)
    requires
        refused_from(values, 0) == refused_from(values, 7),
        7 <= refused_from(values, 0),
        set_before(before, middle, values, 7),
        forall|index: int|
            0 <= index < 7 ==> #[trigger] limit_at(after, index) == limit_at(middle, index),
        forall|index: int|
            7 <= index < LIMIT_COUNT ==> #[trigger] limit_at(after, index) == if index
                < refused_from(values, 7) {
                chosen(middle, values, index)
            } else {
                limit_at(middle, index)
            },
    ensures
        set_before(before, after, values, refused_from(values, 0)),
{
    assert forall|index: int| 0 <= index < LIMIT_COUNT implies #[trigger] limit_at(after, index)
        == if index < refused_from(values, 0) {
        chosen(before, values, index)
    } else {
        limit_at(before, index)
    } by {
        assert(limit_at(middle, index) == if index < 7 {
            chosen(before, values, index)
        } else {
            limit_at(before, index)
        });
    }
}

/// Every limit lies in its range and the animation's delays are in order.
pub open spec fn bounded(limits: Limits) -> bool {
    &&& forall|index: int|
        0 <= index < LIMIT_COUNT ==> limit_floor(index) <= #[trigger] limit_at(limits, index)
            <= limit_ceiling(index)
    &&& limits.frame_min_delay_ms <= limits.frame_max_delay_ms
}

/// The defaults are within their ceilings, and settings that are accepted leave
/// every limit within its own.
pub proof fn law_limits_keep_their_ceilings(
    before: Limits,
    after: Limits,
    values: LimitOverrides,
)
    requires
        bounded(before),
        set_before(before, after, values, refused_from(values, 0)),
        refused_from(values, 0) >= LIMIT_COUNT,
        after.frame_min_delay_ms <= after.frame_max_delay_ms,
    ensures
        bounded(default_limits()),
        bounded(after),
{
    assert forall|index: int| 0 <= index < LIMIT_COUNT implies limit_floor(index)
        <= #[trigger] limit_at(after, index) <= limit_ceiling(index) by {
        lemma_accepted_before(values, 0, index);
        assert(limit_floor(index) <= limit_at(before, index) <= limit_ceiling(index));
    }
}

/// Limits that keep to their ceilings leave room to count what a scan reads.
pub proof fn law_scans_can_be_counted(limits: Limits)
    requires
        bounded(limits),
    ensures
        limits.scan_max_read_bytes + limits.scan_max_files <= u64::MAX,
        limits.frame_min_delay_ms <= limits.frame_max_delay_ms,
{
    assert(limit_at(limits, 2) <= limit_ceiling(2));
    assert(limit_at(limits, 4) <= limit_ceiling(4));
}

proof fn lemma_accepted_before(values: LimitOverrides, from: int, index: int)
    requires
        0 <= from <= index < LIMIT_COUNT,
        refused_from(values, from) >= LIMIT_COUNT,
    ensures
        accepted(values, index),
    decreases index - from,
{
    if from < index {
        lemma_accepted_before(values, from + 1, index);
    }
}

} // verus!
