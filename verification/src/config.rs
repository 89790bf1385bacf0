//! Choice of an input stream configuration among the ranges a device offers.
use vstd::prelude::*;

verus! {

/// Sample formats an input device can deliver.
#[derive(Clone, Copy, Debug, PartialEq, Eq, Structural)]
pub enum SampleFormat {
    I8,
    I16,
    I32,
    I64,
    U8,
    U16,
    U32,
    U64,
    F32,
    F64,
    /// A format this library does not know by name.
    Other,
}

/// One range of stream configurations that a device supports: a channel count,
/// an inclusive range of sample rates and a sample format.
#[derive(Clone, Copy, Debug, PartialEq, Eq, Structural)]
pub struct ConfigRange {
    pub channels: u16,
    pub min_sample_rate: u32,
    pub max_sample_rate: u32,
    pub sample_format: SampleFormat,
}

/// The configuration picked for a recording.
#[derive(Clone, Copy, Debug, PartialEq, Eq, Structural)]
pub enum ConfigChoice {
    /// Use the range at `index` of the offered list, at `sample_rate`.
    Range { index: usize, sample_rate: u32 },
    /// No offered range fits: fall back to the device's own default configuration.
    DeviceDefault,
}

/// Why no configuration could be chosen.
#[derive(Clone, Copy, Debug, PartialEq, Eq, Structural)]
pub enum ConfigError {
    /// None of the offered ranges has a format the recorder can write.
    NoSupportedFormat,
    /// The fallback to the device default found no default configuration.
    NoSuitableConfig,
}

/// The sample rate used when the caller states no preference.
pub const DEFAULT_SAMPLE_RATE: u32 = 16000;

/// Formats the recorder can convert and write: 32-bit float, signed and unsigned 16-bit.
pub open spec fn supported_format(format: SampleFormat) -> bool {
    format == SampleFormat::F32 || format == SampleFormat::I16 || format == SampleFormat::U16
}

/// The sample rate a session aims for.
pub open spec fn target_rate(preferred: Option<u32>) -> u32 {
    match preferred {
        Some(rate) => rate,
        None => DEFAULT_SAMPLE_RATE,
    }
}

pub open spec fn covers(c: ConfigRange, rate: u32) -> bool {
    c.min_sample_rate <= rate && rate <= c.max_sample_rate
}

pub open spec fn well_formed_range(c: ConfigRange) -> bool {
    c.min_sample_rate <= c.max_sample_rate
}

/// A supported mono range.
pub open spec fn mono_usable(c: ConfigRange) -> bool {
    supported_format(c.sample_format) && c.channels == 1
}

/// A supported mono range that covers the rate.
pub open spec fn mono_cover(c: ConfigRange, rate: u32) -> bool {
    mono_usable(c) && covers(c, rate)
}

/// A supported range, of any channel count, that covers the rate.
pub open spec fn any_cover(c: ConfigRange, rate: u32) -> bool {
    supported_format(c.sample_format) && covers(c, rate)
}

/// The rate of the range nearest to `target`.
pub open spec fn closest_rate(c: ConfigRange, target: u32) -> u32 {
    if target < c.min_sample_rate {
        c.min_sample_rate
    } else if target > c.max_sample_rate {
        c.max_sample_rate
    } else {
        target
    }
}

/// Distance between two rates.
pub open spec fn rate_distance(a: u32, b: u32) -> nat {
    if a >= b {
        (a - b) as nat
    } else {
        (b - a) as nat
    }
}

pub open spec fn fallback_distance(c: ConfigRange, target: u32) -> nat {
    rate_distance(closest_rate(c, target), target)
}

pub open spec fn has_supported(s: Seq<ConfigRange>) -> bool {
    exists|j: int| 0 <= j < s.len() && supported_format(#[trigger] s[j].sample_format)
}

pub open spec fn has_mono_cover(s: Seq<ConfigRange>, t: u32) -> bool {
    exists|j: int| 0 <= j < s.len() && mono_cover(#[trigger] s[j], t)
}

pub open spec fn has_any_cover(s: Seq<ConfigRange>, t: u32) -> bool {
    exists|j: int| 0 <= j < s.len() && any_cover(#[trigger] s[j], t)
}

pub open spec fn has_mono_usable(s: Seq<ConfigRange>) -> bool {
    exists|j: int| 0 <= j < s.len() && mono_usable(#[trigger] s[j])
}

/// In the nearest-rate search, the supported mono range at `i` beats every supported mono
/// range before it: it becomes the best found so far when the search reaches it.
pub open spec fn becomes_best(s: Seq<ConfigRange>, t: u32, i: int) -> bool {
    &&& 0 <= i < s.len()
    &&& mono_usable(s[i])
    &&& forall|j: int|
        0 <= j < i && mono_usable(#[trigger] s[j]) ==> fallback_distance(s[i], t)
            < fallback_distance(s[j], t)
}

/// The nearest-rate search runs (no supported range covers the target) and a range whose
/// lowest rate exceeds its highest becomes the best found so far. Building a stream
/// configuration at a rate outside such a range panics, so the selection does not
/// handle these inputs.
pub open spec fn nearest_search_meets_malformed(s: Seq<ConfigRange>, t: u32) -> bool {
    &&& !has_any_cover(s, t)
    &&& exists|i: int| becomes_best(s, t, i) && !well_formed_range(#[trigger] s[i])
}

/// What the selection picks, stage by stage:
/// 1. the first supported mono range covering the target, at the target;
/// 2. else the first supported range covering the target, at the target;
/// 3. else the supported mono range whose nearest rate is nearest the target
///    (the first such on ties), at that nearest rate;
/// 4. else the device default.
pub open spec fn is_optimal_choice(s: Seq<ConfigRange>, t: u32, choice: ConfigChoice) -> bool {
    match choice {
        ConfigChoice::Range { index, sample_rate } => {
            let i = index as int;
            &&& 0 <= i < s.len()
            &&& supported_format(s[i].sample_format)
            &&& {
                ||| {
                    &&& mono_cover(s[i], t)
                    &&& sample_rate == t
                    &&& forall|j: int| 0 <= j < i ==> !mono_cover(#[trigger] s[j], t)
                }
                ||| {
                    &&& !has_mono_cover(s, t)
                    &&& any_cover(s[i], t)
                    &&& sample_rate == t
                    &&& forall|j: int| 0 <= j < i ==> !any_cover(#[trigger] s[j], t)
                }
                ||| {
                    &&& !has_any_cover(s, t)
                    &&& mono_usable(s[i])
                    &&& sample_rate == closest_rate(s[i], t)
                    &&& forall|j: int|
                        0 <= j < s.len() && mono_usable(#[trigger] s[j]) ==> fallback_distance(
                            s[i],
                            t,
                        ) <= fallback_distance(s[j], t)
                    &&& forall|j: int|
                        0 <= j < i && mono_usable(#[trigger] s[j]) ==> fallback_distance(s[i], t)
                            < fallback_distance(s[j], t)
                }
            }
        },
        ConfigChoice::DeviceDefault => {
            &&& has_supported(s)
            &&& !has_any_cover(s, t)
            &&& !has_mono_usable(s)
        },
    }
}

pub open spec fn config_error_text(e: ConfigError) -> Seq<char> {
    match e {
        ConfigError::NoSupportedFormat => "No supported input configurations (need F32, I16, or U16 format)"@,
        ConfigError::NoSuitableConfig => "Failed to find suitable audio configuration"@,
    }
}

impl ConfigError {
    /// The message the recorder reports for this error.
    pub fn message(&self) -> (r: String)
        ensures
            r@ == config_error_text(*self),
    {
        match self {
            ConfigError::NoSupportedFormat => String::from_str(
                "No supported input configurations (need F32, I16, or U16 format)",
            ),
            ConfigError::NoSuitableConfig => String::from_str(
                "Failed to find suitable audio configuration",
            ),
        }
    }
}

/// The name of a sample format, as its debug form prints it.
pub open spec fn format_name(format: SampleFormat) -> Seq<char> {
    match format {
        SampleFormat::I8 => "I8"@,
        SampleFormat::I16 => "I16"@,
        SampleFormat::I32 => "I32"@,
        SampleFormat::I64 => "I64"@,
        SampleFormat::U8 => "U8"@,
        SampleFormat::U16 => "U16"@,
        SampleFormat::U32 => "U32"@,
        SampleFormat::U64 => "U64"@,
        SampleFormat::F32 => "F32"@,
        SampleFormat::F64 => "F64"@,
        SampleFormat::Other => "Other"@,
    }
}

/// The name of a sample format.
pub fn sample_format_name(format: SampleFormat) -> (r: &'static str)
    ensures
        r@ == format_name(format),
{
    match format {
        SampleFormat::I8 => "I8",
        SampleFormat::I16 => "I16",
        SampleFormat::I32 => "I32",
        SampleFormat::I64 => "I64",
        SampleFormat::U8 => "U8",
        SampleFormat::U16 => "U16",
        SampleFormat::U32 => "U32",
        SampleFormat::U64 => "U64",
        SampleFormat::F32 => "F32",
        SampleFormat::F64 => "F64",
        SampleFormat::Other => "Other",
    }
}

/// The message when a stream cannot be built for a format: the manual recorder's, or the
/// voice activity recorder's when `voice_activity` is set.
pub fn unsupported_format_message(format: SampleFormat, voice_activity: bool) -> (r: String)
    ensures
        r@ == (if voice_activity {
            "Unsupported sample format for VAD: "@
        } else {
            "Unsupported sample format: "@
        }) + format_name(format),
{
    let mut message = if voice_activity {
        String::from_str("Unsupported sample format for VAD: ")
    } else {
        String::from_str("Unsupported sample format: ")
    };
    message.append(sample_format_name(format));
    message
}

/// Whether the recorder can write samples of this format.
pub fn is_supported_format(format: SampleFormat) -> (r: bool)
    ensures
        r == supported_format(format),
        r <==> (format == SampleFormat::F32 || format == SampleFormat::I16 || format
            == SampleFormat::U16),
{
    matches!(format, SampleFormat::F32 | SampleFormat::I16 | SampleFormat::U16)
}

/// The preferred sample rate, or 16 kHz (the rate voice models expect) when none is given.
pub fn target_sample_rate(preferred: Option<u32>) -> (r: u32)
    ensures
        r == target_rate(preferred),
{
    match preferred {
        Some(rate) => rate,
        None => DEFAULT_SAMPLE_RATE,
    }
}

/// The rate of `c` nearest to `target`.
pub fn nearest_rate(c: &ConfigRange, target: u32) -> (r: u32)
    ensures
        r == closest_rate(*c, target),
{
    if target < c.min_sample_rate {
        c.min_sample_rate
    } else if target > c.max_sample_rate {
        c.max_sample_rate
    } else {
        target
    }
}

/// Distance between two sample rates.
pub fn distance_between(a: u32, b: u32) -> (r: u32)
    ensures
        r as nat == rate_distance(a, b),
{
    if a >= b {
        a - b
    } else {
        b - a
    }
}

/// Whether the nearest-rate search would meet an inverted range (see
/// `nearest_search_meets_malformed`): the inputs `get_optimal_config` does not take.
pub fn nearest_search_meets_inverted_range(
    configs: &Vec<ConfigRange>,
    preferred_sample_rate: Option<u32>,
) -> (r: bool)
    ensures
        r == nearest_search_meets_malformed(configs@, target_rate(preferred_sample_rate)),
{
    let target = target_sample_rate(preferred_sample_rate);
    let n = configs.len();
    let ghost s = configs@;
    let mut i: usize = 0;
    while i < n
        invariant
            n == s.len(),
            s == configs@,
            i <= n,
            target == target_rate(preferred_sample_rate),
            forall|j: int| 0 <= j < i ==> !any_cover(#[trigger] s[j], target),
        decreases n - i,
    {
        let c = configs[i];
        if is_supported_format(c.sample_format) && c.min_sample_rate <= target
            && c.max_sample_rate >= target {
            assert(any_cover(s[i as int], target));
            assert(has_any_cover(s, target));
            return false;
        }
        i += 1;
    }
    assert(!has_any_cover(s, target));
    let mut found = false;
    let mut best: Option<u32> = None;
    let mut i: usize = 0;
    while i < n
        invariant
            n == s.len(),
            s == configs@,
            i <= n,
            target == target_rate(preferred_sample_rate),
            !has_any_cover(s, target),
            found <==> exists|k: int|
                0 <= k < i && becomes_best(s, target, k) && !well_formed_range(#[trigger] s[k]),
            best is None ==> forall|j: int| 0 <= j < i ==> !mono_usable(#[trigger] s[j]),
            best matches Some(d) ==> {
                &&& forall|j: int|
                    0 <= j < i && mono_usable(#[trigger] s[j]) ==> (d as nat) <= fallback_distance(
                        s[j],
                        target,
                    )
                &&& exists|j: int|
                    0 <= j < i && mono_usable(#[trigger] s[j]) && (d as nat) == fallback_distance(
                        s[j],
                        target,
                    )
            },
        decreases n - i,
    {
        let c = configs[i];
        if is_supported_format(c.sample_format) && c.channels == 1 {
            let closest = nearest_rate(&c, target);
            let diff = distance_between(closest, target);
            let improves = match best {
                Some(d) => diff < d,
                None => true,
            };
            assert(improves == becomes_best(s, target, i as int));
            if improves {
                if c.min_sample_rate > c.max_sample_rate {
                    found = true;
                }
                best = Some(diff);
            }
        } else {
            assert(!becomes_best(s, target, i as int));
        }
        i += 1;
    }
    found
}

/// Picks the configuration for a voice recording among the ranges a device offers.
///
/// The target rate is the preferred one, or 16 kHz. A supported mono range at the
/// target comes first, then any supported range at the target, then the supported
/// mono range whose nearest rate is nearest the target; if none of these exists the
/// device default is asked for. With no supported format at all the choice fails.
/// Distances between rates are exact. The one input not taken is the one where building
/// the configuration would panic: an inverted range leading the nearest-rate search
/// (`nearest_search_meets_inverted_range` tells).
pub fn get_optimal_config(configs: &Vec<ConfigRange>, preferred_sample_rate: Option<u32>) -> (r:
    Result<ConfigChoice, ConfigError>)
    requires
        !nearest_search_meets_malformed(configs@, target_rate(preferred_sample_rate)),
    ensures
        r is Err <==> !has_supported(configs@),
        r matches Err(e) ==> e == ConfigError::NoSupportedFormat,
        r matches Ok(choice) ==> is_optimal_choice(
            configs@,
            target_rate(preferred_sample_rate),
            choice,
        ),
{
    let target = target_sample_rate(preferred_sample_rate);
    let n = configs.len();
    let ghost s = configs@;

    let mut any_supported = false;
    let mut i: usize = 0;
    while i < n
        invariant
            n == s.len(),
            s == configs@,
            i <= n,
            any_supported <==> exists|j: int|
                0 <= j < i && supported_format(#[trigger] s[j].sample_format),
        decreases n - i,
    {
        if is_supported_format(configs[i].sample_format) {
            any_supported = true;
        }
        i += 1;
    }
    if !any_supported {
        return Err(ConfigError::NoSupportedFormat);
    }
    // Stage 1: a supported mono range at the target rate.

    let mut i: usize = 0;
    while i < n
        invariant
            n == s.len(),
            s == configs@,
            target == target_rate(preferred_sample_rate),
            i <= n,
            forall|j: int| 0 <= j < i ==> !mono_cover(#[trigger] s[j], target),
        decreases n - i,
    {
        let c = configs[i];
        if is_supported_format(c.sample_format) && c.channels == 1 && c.min_sample_rate <= target
            && c.max_sample_rate >= target {
            return Ok(ConfigChoice::Range { index: i, sample_rate: target });
        }
        i += 1;
    }
    // Stage 2: any supported range at the target rate.

    let mut i: usize = 0;
    while i < n
        invariant
            n == s.len(),
            s == configs@,
            i <= n,
            target == target_rate(preferred_sample_rate),
            !has_mono_cover(s, target),
            forall|j: int| 0 <= j < i ==> !any_cover(#[trigger] s[j], target),
        decreases n - i,
    {
        let c = configs[i];
        if is_supported_format(c.sample_format) && c.min_sample_rate <= target
            && c.max_sample_rate >= target {
            return Ok(ConfigChoice::Range { index: i, sample_rate: target });
        }
        i += 1;
    }
    // Stage 3: the supported mono range nearest the target rate.

    let mut best: Option<usize> = None;
    let mut best_rate: u32 = 0;
    let mut best_diff: u32 = u32::MAX;
    let mut i: usize = 0;
    while i < n
        invariant
            n == s.len(),
            s == configs@,
            i <= n,
            target == target_rate(preferred_sample_rate),
            !has_any_cover(s, target),
            best is None ==> forall|j: int| 0 <= j < i ==> !mono_usable(#[trigger] s[j]),
            best matches Some(b) ==> {
                &&& b < i
                &&& mono_usable(s[b as int])
                &&& best_rate == closest_rate(s[b as int], target)
                &&& best_diff as nat == fallback_distance(s[b as int], target)
                &&& forall|j: int|
                    0 <= j < i && mono_usable(#[trigger] s[j]) ==> (best_diff as nat)
                        <= fallback_distance(s[j], target)
                &&& forall|j: int|
                    0 <= j < b && mono_usable(#[trigger] s[j]) ==> (best_diff as nat)
                        < fallback_distance(s[j], target)
            },
        decreases n - i,
    {
        let c = configs[i];
        if is_supported_format(c.sample_format) && c.channels == 1 {
            let closest = nearest_rate(&c, target);
            let diff = distance_between(closest, target);
            if best.is_none() || diff < best_diff {
                best_diff = diff;
                best_rate = closest;
                best = Some(i);
            }
        }
        i += 1;
    }
    match best {
        Some(b) => Ok(ConfigChoice::Range { index: b, sample_rate: best_rate }),
        None => {
            assert(!has_mono_usable(s));
            Ok(ConfigChoice::DeviceDefault)
        },
    }
}


/// The selection is a function of the offered ranges and the target: two choices that
/// both meet `is_optimal_choice` are the same choice.
pub proof fn lemma_optimal_choice_unique(
    s: Seq<ConfigRange>,
    t: u32,
    a: ConfigChoice,
    b: ConfigChoice,
)
    requires
        is_optimal_choice(s, t, a),
        is_optimal_choice(s, t, b),
    ensures
        a == b,
{
    match (a, b) {
        (
            ConfigChoice::Range { index: ia, sample_rate: ra },
            ConfigChoice::Range { index: ib, sample_rate: rb },
        ) => {
            let i = ia as int;
            let k = ib as int;
            if mono_cover(s[i], t) || mono_cover(s[k], t) {
                assert(has_mono_cover(s, t));
                assert(!(i < k) && !(k < i));
            } else if any_cover(s[i], t) || any_cover(s[k], t) {
                assert(has_any_cover(s, t));
                assert(!(i < k) && !(k < i));
            } else {
                if i < k {
                    assert(fallback_distance(s[k], t) < fallback_distance(s[i], t));
                } else if k < i {
                    assert(fallback_distance(s[i], t) < fallback_distance(s[k], t));
                }
            }
        },
        (ConfigChoice::Range { index: ia, .. }, ConfigChoice::DeviceDefault) => {
            let i = ia as int;
            assert(mono_cover(s[i], t) ==> has_mono_cover(s, t));
            assert(any_cover(s[i], t) ==> has_any_cover(s, t));
            assert(mono_usable(s[i]) ==> has_mono_usable(s));
        },
        (ConfigChoice::DeviceDefault, ConfigChoice::Range { index: ib, .. }) => {
            let k = ib as int;
            assert(mono_cover(s[k], t) ==> has_mono_cover(s, t));
            assert(any_cover(s[k], t) ==> has_any_cover(s, t));
            assert(mono_usable(s[k]) ==> has_mono_usable(s));
        },
        (ConfigChoice::DeviceDefault, ConfigChoice::DeviceDefault) => {},
    }
}

/// A chosen range always supports the chosen rate, on every input `get_optimal_config`
/// takes: a stream configuration can be built from it.
pub proof fn lemma_chosen_rate_in_range(s: Seq<ConfigRange>, t: u32, index: usize, sample_rate: u32)
    requires
        !nearest_search_meets_malformed(s, t),
        is_optimal_choice(s, t, ConfigChoice::Range { index, sample_rate }),
    ensures
        covers(s[index as int], sample_rate),
{
    let i = index as int;
    if !mono_cover(s[i], t) && !any_cover(s[i], t) {
        assert(becomes_best(s, t, i));
        if !well_formed_range(s[i]) {
            assert(nearest_search_meets_malformed(s, t));
        }
    }
}

/// When some supported range covers the target rate, the recording runs at exactly that
/// rate; and when a supported mono range covers it, the chosen range is mono.
pub proof fn lemma_target_rate_honored(s: Seq<ConfigRange>, t: u32, choice: ConfigChoice)
    requires
        has_any_cover(s, t),
        is_optimal_choice(s, t, choice),
    ensures
        choice matches ConfigChoice::Range { index, sample_rate } && sample_rate == t
            && (has_mono_cover(s, t) ==> s[index as int].channels == 1),
{
}

/// Priority of a range in the voice activity path, from its lowest rate:
/// 16 kHz first, then 44.1 or 48 kHz, then anything else.
pub open spec fn vad_priority(min_rate: u32) -> u8 {
    if min_rate == 16000 {
        0
    } else if min_rate == 44100 || min_rate == 48000 {
        1
    } else {
        2
    }
}

/// The priority of a range's lowest rate for voice activity detection.
pub fn vad_rate_priority(min_rate: u32) -> (r: u8)
    ensures
        r == vad_priority(min_rate),
        r == 0 <==> min_rate == 16000,
        r == 1 <==> (min_rate == 44100 || min_rate == 48000),
        r == 2 <==> (min_rate != 16000 && min_rate != 44100 && min_rate != 48000),
{
    if min_rate == 16000 {
        0
    } else if min_rate == 44100 || min_rate == 48000 {
        1
    } else {
        2
    }
}

/// The range that a stable sort of the offered ranges by `vad_priority` puts first:
/// the earliest range of least priority. `None` exactly when nothing is offered.
pub fn select_vad_config(configs: &Vec<ConfigRange>) -> (r: Option<usize>)
    ensures
        r is None <==> configs@.len() == 0,
        r matches Some(i) ==> {
            &&& i < configs@.len()
            &&& forall|j: int|
                0 <= j < configs@.len() ==> vad_priority(configs@[i as int].min_sample_rate)
                    <= vad_priority(#[trigger] configs@[j].min_sample_rate)
            &&& forall|j: int|
                0 <= j < i ==> vad_priority(configs@[i as int].min_sample_rate) < vad_priority(
                    #[trigger] configs@[j].min_sample_rate,
                )
        },
{
    let n = configs.len();
    if n == 0 {
        return None;
    }
    let mut best: usize = 0;
    let mut best_priority = vad_rate_priority(configs[0].min_sample_rate);
    let mut i: usize = 1;
    while i < n
        invariant
            n == configs@.len(),
            1 <= i <= n,
            best < i,
            best_priority == vad_priority(configs@[best as int].min_sample_rate),
            forall|j: int|
                0 <= j < i ==> best_priority <= vad_priority(
                    #[trigger] configs@[j].min_sample_rate,
                ),
            forall|j: int|
                0 <= j < best ==> best_priority < vad_priority(
                    #[trigger] configs@[j].min_sample_rate,
                ),
        decreases n - i,
    {
        let p = vad_rate_priority(configs[i].min_sample_rate);
        if p < best_priority {
            best = i;
            best_priority = p;
        }
        i += 1;
    }
    Some(best)
}

/// The rate the voice activity path records at within a range.
pub open spec fn vad_rate_for(c: ConfigRange) -> u32 {
    if covers(c, 16000) {
        16000
    } else if covers(c, 48000) {
        48000
    } else if covers(c, 44100) {
        44100
    } else {
        c.max_sample_rate
    }
}

/// Picks the recording rate within a range for voice activity detection: 16 kHz if the
/// range has it, else 48 kHz, else 44.1 kHz, else the range's highest rate.
pub fn choose_vad_sample_rate(c: &ConfigRange) -> (r: u32)
    ensures
        r == vad_rate_for(*c),
        well_formed_range(*c) ==> covers(*c, r),
        c.min_sample_rate <= 16000 && 16000 <= c.max_sample_rate ==> r == 16000,
{
    if c.min_sample_rate <= 16000 && c.max_sample_rate >= 16000 {
        16000
    } else if c.min_sample_rate <= 48000 && c.max_sample_rate >= 48000 {
        48000
    } else if c.min_sample_rate <= 44100 && c.max_sample_rate >= 44100 {
        44100
    } else {
        c.max_sample_rate
    }
}

/// The recorder writes exactly three sample formats: 32-bit float, signed 16-bit and
/// unsigned 16-bit. Every other format is refused.
pub proof fn lemma_supported_formats_are_f32_i16_u16(format: SampleFormat)
    ensures
        supported_format(format) <==> (format == SampleFormat::F32 || format == SampleFormat::I16
            || format == SampleFormat::U16),
        !supported_format(SampleFormat::I8),
        !supported_format(SampleFormat::I32),
        !supported_format(SampleFormat::I64),
        !supported_format(SampleFormat::U8),
        !supported_format(SampleFormat::U32),
        !supported_format(SampleFormat::U64),
        !supported_format(SampleFormat::F64),
        !supported_format(SampleFormat::Other),
{
}

/// A chosen range is always in F32, I16 or U16: a range of another format is never chosen,
/// even when it comes first and covers the target; and the selection fails exactly when
/// no range has one of these three formats.
pub proof fn lemma_chosen_format_is_writable(s: Seq<ConfigRange>, t: u32, choice: ConfigChoice)
    requires
        is_optimal_choice(s, t, choice),
    ensures
        choice matches ConfigChoice::Range { index, .. } ==> {
            let f = s[index as int].sample_format;
            f == SampleFormat::F32 || f == SampleFormat::I16 || f == SampleFormat::U16
        },
        has_supported(s) <==> exists|j: int|
            0 <= j < s.len() && (#[trigger] s[j].sample_format == SampleFormat::F32
                || s[j].sample_format == SampleFormat::I16 || s[j].sample_format
                == SampleFormat::U16),
{
}

/// Only a lowest rate of exactly 16 kHz ranks first, only 44.1 or 48 kHz rank second,
/// every other lowest rate ranks last.
pub proof fn lemma_vad_priority_classes(min_rate: u32)
    ensures
        vad_priority(min_rate) == 0 <==> min_rate == 16000,
        vad_priority(min_rate) == 1 <==> (min_rate == 44100 || min_rate == 48000),
        vad_priority(min_rate) == 2 <==> (min_rate != 16000 && min_rate != 44100 && min_rate
            != 48000),
{
}

/// The voice activity range: the first whose lowest rate is 16 kHz if there is one; else
/// the first whose lowest rate is 44.1 or 48 kHz if there is one; else the first range.
pub proof fn lemma_vad_range_choice(s: Seq<ConfigRange>, i: int)
    requires
        0 <= i < s.len(),
        forall|j: int|
            0 <= j < s.len() ==> vad_priority(s[i].min_sample_rate) <= vad_priority(
                #[trigger] s[j].min_sample_rate,
            ),
        forall|j: int|
            0 <= j < i ==> vad_priority(s[i].min_sample_rate) < vad_priority(
                #[trigger] s[j].min_sample_rate,
            ),
    ensures
        (exists|j: int| 0 <= j < s.len() && #[trigger] s[j].min_sample_rate == 16000) ==> (
        s[i].min_sample_rate == 16000 && forall|j: int|
            0 <= j < i ==> #[trigger] s[j].min_sample_rate != 16000),
        (forall|j: int| 0 <= j < s.len() ==> #[trigger] s[j].min_sample_rate != 16000) && (exists|
            j: int,
        |
            0 <= j < s.len() && (#[trigger] s[j].min_sample_rate == 44100 || s[j].min_sample_rate
                == 48000)) ==> ((s[i].min_sample_rate == 44100 || s[i].min_sample_rate == 48000)
            && forall|j: int|
            0 <= j < i ==> #[trigger] s[j].min_sample_rate != 44100 && s[j].min_sample_rate
                != 48000),
        (forall|j: int|
            0 <= j < s.len() ==> #[trigger] s[j].min_sample_rate != 16000 && s[j].min_sample_rate
                != 44100 && s[j].min_sample_rate != 48000) ==> i == 0,
{
    if exists|j: int| 0 <= j < s.len() && #[trigger] s[j].min_sample_rate == 16000 {
        let j = choose|j: int| 0 <= j < s.len() && #[trigger] s[j].min_sample_rate == 16000;
        assert(vad_priority(s[j].min_sample_rate) == 0);
    }
    if exists|j: int|
        0 <= j < s.len() && (#[trigger] s[j].min_sample_rate == 44100 || s[j].min_sample_rate
            == 48000) {
        let j = choose|j: int|
            0 <= j < s.len() && (#[trigger] s[j].min_sample_rate == 44100 || s[j].min_sample_rate
                == 48000);
        assert(vad_priority(s[j].min_sample_rate) == 1);
    }
    if forall|j: int|
        0 <= j < s.len() ==> #[trigger] s[j].min_sample_rate != 16000 && s[j].min_sample_rate
            != 44100 && s[j].min_sample_rate != 48000 {
        if i > 0 {
            assert(vad_priority(s[0].min_sample_rate) == 2);
            assert(vad_priority(s[i].min_sample_rate) == 2);
        }
    }
}

/// The voice activity rate within a range: 16 kHz whenever the range reaches it; else
/// 48 kHz, else 44.1 kHz, whenever the range reaches those; else the range's highest rate.
pub proof fn lemma_vad_rate_order(c: ConfigRange)
    ensures
        c.min_sample_rate <= 16000 && 16000 <= c.max_sample_rate ==> vad_rate_for(c) == 16000,
        !(c.min_sample_rate <= 16000 && 16000 <= c.max_sample_rate) && c.min_sample_rate <= 48000
            && 48000 <= c.max_sample_rate ==> vad_rate_for(c) == 48000,
        !(c.min_sample_rate <= 16000 && 16000 <= c.max_sample_rate) && !(c.min_sample_rate
            <= 48000 && 48000 <= c.max_sample_rate) && c.min_sample_rate <= 44100 && 44100
            <= c.max_sample_rate ==> vad_rate_for(c) == 44100,
        !(c.min_sample_rate <= 16000 && 16000 <= c.max_sample_rate) && !(c.min_sample_rate
            <= 48000 && 48000 <= c.max_sample_rate) && !(c.min_sample_rate <= 44100 && 44100
            <= c.max_sample_rate) ==> vad_rate_for(c) == c.max_sample_rate,
{
}

} // verus!
