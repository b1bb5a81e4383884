//! Scheduled programs: duration parsing, choosing the next program to fire, and the
//! decisions of the schedule controller, one tick at a time.
use crate::config::{program_error, program_type_of, ProgramType, ScheduleProgram};
use crate::text::{decimal, digits_value, fmt_decimal, is_digit, trim, trimmed};
use vstd::prelude::*;

verus! {

/// How far back a fire time may lie and still start its program, in seconds.
pub const TOLERANCE_SECS: i64 = 2;

#[verifier::external_type_specification]
#[verifier::external_body]
pub struct ExSchedule(cron::Schedule);

/// Whether the cron crate accepts a schedule expression.
pub uninterp spec fn cron_accepts(expr: Seq<char>) -> bool;

/// Relies on `<cron::Schedule as FromStr>::from_str`: parsing depends on the expression alone.
/// The error is turned into its message.
#[verifier::external_body]
fn parse_cron(expr: &str) -> (r: Result<cron::Schedule, String>)
    ensures
        r is Ok <==> cron_accepts(expr@),
{
    match <cron::Schedule as std::str::FromStr>::from_str(expr) {
        Ok(s) => Ok(s),
        Err(e) => Err(e.to_string()),
    }
}

/// The last instant (2100-01-01T00:00:00Z, in seconds since the epoch) from which fire
/// times are looked for; cron schedules no year after 2100.
pub const LAST_SEARCH_SECS: i64 = 4102444800;

/// Relies on cron::Schedule::after (its search starts one second after `after`, so every
/// fire time it yields is later), read at the fixed UTC offset `utc_offset_secs`. A fixed
/// offset has no skipped or repeated local midnights. `None` when there is no later fire
/// time or the offset is out of chrono's range.
#[verifier::external_body]
fn next_fire_after(schedule: &cron::Schedule, after: i64, utc_offset_secs: i32) -> (r: Option<i64>)
    requires
        0 <= after <= LAST_SEARCH_SECS,
    ensures
        r matches Some(t) ==> t > after,
{
    match chrono::FixedOffset::east_opt(utc_offset_secs) {
        Some(tz) => match chrono::TimeZone::timestamp_opt(&tz, after, 0).single() {
            Some(t) => schedule.after(&t).next().map(|d| d.timestamp()),
            None => None,
        },
        None => None,
    }
}

pub open spec fn all_digits(s: Seq<char>) -> bool {
    forall|i: int| 0 <= i < s.len() ==> is_digit(#[trigger] s[i])
}

/// Seconds of a duration written `<digits>m` or `<digits>h`, surrounding white space
/// allowed; `None` for anything else.
pub open spec fn duration_secs(s: Seq<char>) -> Option<nat> {
    let t = trimmed(s);
    if t.len() >= 2 && all_digits(t.drop_last()) && t.last() == 'm' {
        Some(digits_value(t.drop_last()) * 60)
    } else if t.len() >= 2 && all_digits(t.drop_last()) && t.last() == 'h' {
        Some(digits_value(t.drop_last()) * 3600)
    } else {
        None
    }
}

/// Whether the trimmed text ends in a unit letter, so that only its number is wrong.
pub open spec fn has_unit(s: Seq<char>) -> bool {
    let t = trimmed(s);
    t.len() >= 1 && (t.last() == 'm' || t.last() == 'h')
}

pub open spec fn duration_message(s: Seq<char>) -> Seq<char> {
    if has_unit(s) {
        "Invalid duration format: "@ + trimmed(s)
    } else {
        "Invalid duration format: "@ + trimmed(s) + ". Use '30m' or '2h'"@
    }
}

/// `"<h>h <m>m"`, `"<h>h"` or `"<m>m"` for a duration in seconds (seconds are dropped).
pub open spec fn duration_text(secs: nat) -> Seq<char> {
    let hours = secs / 3600;
    let minutes = (secs / 60) % 60;
    if hours > 0 {
        if minutes > 0 {
            decimal(hours) + "h "@ + decimal(minutes) + "m"@
        } else {
            decimal(hours) + "h"@
        }
    } else {
        decimal(minutes) + "m"@
    }
}

proof fn lemma_digits_value_prefix(s: Seq<char>, k: int)
    requires
        0 <= k <= s.len(),
    ensures
        digits_value(s.subrange(0, k)) <= digits_value(s),
    decreases s.len() - k,
{
    if k < s.len() {
        lemma_digits_value_prefix(s, k + 1);
        assert(s.subrange(0, k + 1).drop_last() =~= s.subrange(0, k));
    } else {
        assert(s.subrange(0, k) =~= s);
    }
}

/// The value of the digits `s[from..to]`, or `None` when it exceeds `u64::MAX`.
fn parse_digits(s: &str, from: usize, to: usize) -> (r: Option<u64>)
    requires
        from <= to <= s@.len(),
        all_digits(s@.subrange(from as int, to as int)),
    ensures
        r matches Some(v) ==> v == digits_value(s@.subrange(from as int, to as int)),
        r is None ==> digits_value(s@.subrange(from as int, to as int)) > u64::MAX,
{
    let ghost d = s@.subrange(from as int, to as int);
    let mut acc: u64 = 0;
    let mut i: usize = from;
    assert(d.subrange(0, 0) =~= Seq::<char>::empty());
    while i < to
        invariant
            from <= i <= to,
            to <= s@.len(),
            d == s@.subrange(from as int, to as int),
            all_digits(d),
            acc == digits_value(d.subrange(0, i - from)),
        decreases to - i,
    {
        let c = s.get_char(i);
        assert(d[i - from] == c);
        let digit = (c as u32 - '0' as u32) as u64;
        assert(d.subrange(0, i + 1 - from).drop_last() =~= d.subrange(0, i - from));
        assert(d.subrange(0, i + 1 - from).last() == c);
        if acc > (u64::MAX - digit) / 10 {
            proof {
                assert(acc * 10 + digit > u64::MAX) by (nonlinear_arith)
                    requires
                        acc > (u64::MAX - digit) / 10,
                        digit <= 9,
                ;
                lemma_digits_value_prefix(d, i + 1 - from);
            }
            return None;
        }
        assert(acc * 10 + digit <= u64::MAX) by (nonlinear_arith)
            requires
                acc <= (u64::MAX - digit) / 10,
                digit <= 9,
        ;
        acc = acc * 10 + digit;
        i = i + 1;
    }
    assert(d.subrange(0, to - from) =~= d);
    Some(acc)
}

fn all_digits_exec(s: &str, from: usize, to: usize) -> (r: bool)
    requires
        from <= to <= s@.len(),
    ensures
        r == all_digits(s@.subrange(from as int, to as int)),
{
    let mut i: usize = from;
    while i < to
        invariant
            from <= i <= to,
            to <= s@.len(),
            forall|j: int| from <= j < i ==> is_digit(#[trigger] s@[j]),
        decreases to - i,
    {
        let c = s.get_char(i);
        if !('0' <= c && c <= '9') {
            assert(s@.subrange(from as int, to as int)[i - from] == c);
            return false;
        }
        i = i + 1;
    }
    assert forall|j: int| 0 <= j < to - from implies is_digit(
        #[trigger] s@.subrange(from as int, to as int)[j],
    ) by {
        assert(s@.subrange(from as int, to as int)[j] == s@[from + j]);
    }
    true
}

/// Parses a program duration into seconds: `"30m"`, `"2h"`, with white space around it
/// allowed. Anything else, and a duration whose seconds do not fit in a `u64`, is an error.
pub fn parse_duration(duration_str: &str) -> (r: Result<u64, String>)
    ensures
        r matches Ok(v) ==> duration_secs(duration_str@) == Some(v as nat),
        r is Err <==> (duration_secs(duration_str@) is None || duration_secs(
            duration_str@,
        )->0 > u64::MAX),
        r matches Err(e) ==> (duration_secs(duration_str@) is None ==> e@ == duration_message(
            duration_str@,
        )),
{
    let t = trim(duration_str);
    let n = t.unicode_len();
    let ghost ts = t@;
    if n >= 1 {
        let last = t.get_char(n - 1);
        assert(ts.last() == last);
        if last == 'm' || last == 'h' {
            let digits_ok = n >= 2 && all_digits_exec(t.as_str(), 0, n - 1);
            assert(ts.subrange(0, n - 1) =~= ts.drop_last());
            if digits_ok {
                let factor: u64 = if last == 'm' {
                    60
                } else {
                    3600
                };
                match parse_digits(t.as_str(), 0, n - 1) {
                    Some(v) => {
                        if v <= u64::MAX / factor {
                            assert(v * factor <= u64::MAX) by (nonlinear_arith)
                                requires
                                    v <= u64::MAX / factor,
                                    factor > 0,
                            ;
                            return Ok(v * factor);
                        } else {
                            assert(v * factor > u64::MAX) by (nonlinear_arith)
                                requires
                                    v > u64::MAX / factor,
                                    factor > 0,
                            ;
                        }
                    },
                    None => {
                        assert(digits_value(ts.drop_last()) * factor > u64::MAX) by (
                        nonlinear_arith)
                            requires
                                digits_value(ts.drop_last()) > u64::MAX,
                                factor >= 1,
                        ;
                    },
                }
                let mut m = String::from_str("Duration out of range: ");
                m.append(t.as_str());
                return Err(m);
            }
            let mut m = String::from_str("Invalid duration format: ");
            m.append(t.as_str());
            return Err(m);
        }
    }
    let mut m = String::from_str("Invalid duration format: ");
    m.append(t.as_str());
    m.append(". Use '30m' or '2h'");
    Err(m)
}

/// Renders a duration for the log: `"2h 30m"`, `"2h"` or `"45m"`.
pub fn format_duration(secs: u64) -> (r: String)
    ensures
        r@ == duration_text(secs as nat),
{
    let hours = secs / 3600;
    let minutes = (secs / 60) % 60;
    if hours > 0 {
        let mut s = fmt_decimal(hours);
        if minutes > 0 {
            s.append("h ");
            s.append(fmt_decimal(minutes).as_str());
            s.append("m");
        } else {
            s.append("h");
        }
        s
    } else {
        let mut s = fmt_decimal(minutes);
        s.append("m");
        s
    }
}

/// A schedule program that passed validation.
pub struct ValidatedProgram {
    pub name: String,
    pub schedule: cron::Schedule,
    pub duration_secs: u64,
    pub program_type: ProgramType,
    pub playlist_path: Option<String>,
    pub genres: Option<Vec<String>>,
}

/// Whether a program's own fields, cron expression and duration are all valid.
pub open spec fn converts(p: ScheduleProgram) -> bool {
    &&& program_error(p) is None
    &&& cron_accepts(p.cron@)
    &&& duration_secs(p.duration@) is Some
    &&& duration_secs(p.duration@)->0 <= u64::MAX
}

/// What conversion keeps of a configured program: its name, its duration in seconds, its
/// type, and the playlist path of a playlist program or the genres of a liveset program.
pub open spec fn converted(v: ValidatedProgram, p: ScheduleProgram) -> bool {
    &&& v.name@ == p.name@
    &&& v.duration_secs == duration_secs(p.duration@)->0
    &&& v.program_type == program_type_of(p.program_type)
    &&& v.program_type == ProgramType::Playlist ==> {
        &&& v.playlist_path matches Some(path) && p.playlist matches Some(q) && path@ == q@
        &&& v.genres is None
    }
    &&& v.program_type == ProgramType::Liveset ==> {
        &&& v.genres matches Some(g) && p.genres matches Some(h) && g@ == h@
        &&& v.playlist_path is None
    }
}

pub open spec fn cron_message_prefix(expr: Seq<char>) -> Seq<char> {
    "Invalid cron expression '"@ + expr + "': "@
}

/// Checks a configured program and turns it into a schedulable one.
pub fn validate_and_convert(program: &ScheduleProgram) -> (r: Result<ValidatedProgram, String>)
    ensures
        r is Ok <==> converts(*program),
        r matches Ok(v) ==> converted(v, *program),
        r matches Err(e) ==> (program_error(*program) is Some ==> e@ == "Program '"@
            + program.name@ + "': "@ + program_error(*program)->0),
        r matches Err(e) ==> (program_error(*program) is None && !cron_accepts(program.cron@) ==> {
            let p = cron_message_prefix(program.cron@);
            &&& p.len() <= e@.len()
            &&& e@.subrange(0, p.len() as int) == p
        }),
{
    match program.validate() {
        Ok(()) => {},
        Err(e) => {
            let mut m = String::from_str("Program '");
            m.append(program.name.as_str());
            m.append("': ");
            m.append(e.as_str());
            return Err(m);
        },
    }
    let schedule = match parse_cron(program.cron.as_str()) {
        Ok(s) => s,
        Err(detail) => {
            let mut m = String::from_str("Invalid cron expression '");
            m.append(program.cron.as_str());
            m.append("': ");
            let ghost p = m@;
            m.append(detail.as_str());
            assert(m@.subrange(0, p.len() as int) =~= p);
            return Err(m);
        },
    };
    let duration_secs = match parse_duration(program.duration.as_str()) {
        Ok(d) => d,
        Err(e) => {
            return Err(e);
        },
    };
    let program_type = program.get_type();
    let playlist_path = match program_type {
        ProgramType::Playlist => match &program.playlist {
            Some(p) => Some(p.clone()),
            None => None,
        },
        ProgramType::Liveset => None,
    };
    let genres = match program_type {
        ProgramType::Liveset => match &program.genres {
            Some(g) => {
                let g2 = g.clone();
                assert(g2@ =~= g@);
                Some(g2)
            },
            None => None,
        },
        ProgramType::Playlist => None,
    };
    Ok(
        ValidatedProgram {
            name: program.name.clone(),
            schedule,
            duration_secs,
            program_type,
            playlist_path,
            genres,
        },
    )
}

/// A command from the schedule controller to the playlist sequencer.
pub enum PlaylistCommand {
    SwitchToPlaylist { name: String, tracks: Vec<String>, duration_secs: u64 },
    SwitchToLiveset { name: String, genres: Vec<String>, duration_secs: u64 },
    ReturnToLibrary,
}

/// The program that is running and when it ends (seconds since the epoch).
pub struct ActiveProgram {
    pub name: String,
    pub end: i64,
}

#[derive(Debug, Clone, Copy, PartialEq, Eq, Structural)]
pub enum ScheduleAction {
    /// The running program is over: go back to the library.
    ReturnToLibrary,
    /// Start the program at this index.
    StartProgram(usize),
    /// Nothing to do but wait.
    Wait,
}

/// What the controller does on one tick, and how long it then sleeps.
#[derive(Debug, Clone, Copy, PartialEq, Eq, Structural)]
pub struct ScheduleDecision {
    pub action: ScheduleAction,
    pub sleep_secs: u64,
}

pub open spec fn min_int(a: int, b: int) -> int {
    if a <= b {
        a
    } else {
        b
    }
}

pub open spec fn max_int(a: int, b: int) -> int {
    if a >= b {
        a
    } else {
        b
    }
}

/// The decision for a tick at `now`, given the end of the running program (if any) and the
/// earliest fire time among the programs (if any).
pub open spec fn decision_for(running_end: Option<i64>, now: int, next: Option<(usize, i64)>) -> (
    ScheduleAction,
    int,
) {
    match running_end {
        Some(end) => if now >= end {
            (ScheduleAction::ReturnToLibrary, 1)
        } else {
            (ScheduleAction::Wait, min_int(5, end - now))
        },
        None => match next {
            Some((i, t)) => if now - TOLERANCE_SECS <= t && t <= now {
                (ScheduleAction::StartProgram(i), 1)
            } else {
                (ScheduleAction::Wait, min_int(30, max_int(1, t - now)))
            },
            None => (ScheduleAction::Wait, 30),
        },
    }
}

pub open spec fn end_of(current: &Option<ActiveProgram>) -> Option<i64> {
    match current {
        Some(a) => Some(a.end),
        None => None,
    }
}

/// One tick of the schedule controller: end an expired program, start a program whose fire
/// time lies within the tolerance window, or wait.
pub fn decide(current: &Option<ActiveProgram>, now: i64, next: Option<(usize, i64)>) -> (r:
    ScheduleDecision)
    ensures
        (r.action, r.sleep_secs as int) == decision_for(end_of(current), now as int, next),
{
    match current {
        Some(a) => {
            if now >= a.end {
                ScheduleDecision { action: ScheduleAction::ReturnToLibrary, sleep_secs: 1 }
            } else {
                let left: i128 = a.end as i128 - now as i128;
                let secs: u64 = if left < 5 {
                    left as u64
                } else {
                    5
                };
                ScheduleDecision { action: ScheduleAction::Wait, sleep_secs: secs }
            }
        },
        None => match next {
            Some((i, t)) => {
                if now as i128 - 2 <= t as i128 && t <= now {
                    ScheduleDecision { action: ScheduleAction::StartProgram(i), sleep_secs: 1 }
                } else {
                    let until: i128 = t as i128 - now as i128;
                    let secs: u64 = if until < 1 {
                        1
                    } else if until < 30 {
                        until as u64
                    } else {
                        30
                    };
                    ScheduleDecision { action: ScheduleAction::Wait, sleep_secs: secs }
                }
            },
            None => ScheduleDecision { action: ScheduleAction::Wait, sleep_secs: 30 },
        },
    }
}

/// The earliest of the fire times, with the first program among equal ones.
pub fn earliest_fire(fires: &Vec<Option<i64>>) -> (r: Option<(usize, i64)>)
    ensures
        r is None <==> forall|j: int| 0 <= j < fires@.len() ==> (#[trigger] fires@[j]) is None,
        r matches Some((i, t)) ==> {
            &&& i < fires@.len()
            &&& fires@[i as int] == Some(t)
            &&& forall|j: int|
                0 <= j < fires@.len() ==> (#[trigger] fires@[j] matches Some(u) ==> t <= u)
            &&& forall|j: int| 0 <= j < i ==> (#[trigger] fires@[j] matches Some(u) ==> t < u)
        },
{
    let mut best: Option<(usize, i64)> = None;
    let mut j: usize = 0;
    while j < fires.len()
        invariant
            j <= fires@.len(),
            best is None <==> forall|k: int| 0 <= k < j ==> (#[trigger] fires@[k]) is None,
            best matches Some((i, t)) ==> {
                &&& i < j
                &&& fires@[i as int] == Some(t)
                &&& forall|k: int| 0 <= k < j ==> (#[trigger] fires@[k] matches Some(u) ==> t <= u)
                &&& forall|k: int| 0 <= k < i ==> (#[trigger] fires@[k] matches Some(u) ==> t < u)
            },
        decreases fires@.len() - j,
    {
        match fires[j] {
            Some(u) => {
                match best {
                    Some((_, t)) => {
                        if u < t {
                            best = Some((j, u));
                        }
                    },
                    None => {
                        best = Some((j, u));
                    },
                }
            },
            None => {},
        }
        j = j + 1;
    }
    best
}

/// The moment a program that starts at `now` and lasts `duration` seconds ends, capped at
/// the largest representable instant.
pub open spec fn end_time(now: i64, duration: u64) -> i64 {
    if now + duration <= i64::MAX {
        (now + duration) as i64
    } else {
        i64::MAX
    }
}

fn compute_end(now: i64, duration: u64) -> (r: i64)
    ensures
        r == end_time(now, duration),
{
    let sum: i128 = now as i128 + duration as i128;
    if sum <= i64::MAX as i128 {
        sum as i64
    } else {
        i64::MAX
    }
}

/// Whether a configured program is scheduled: it is active, it converts, and a playlist
/// program's playlist was found to resolve to at least one track.
pub open spec fn keeps(p: ScheduleProgram, playlist_ok: bool) -> bool {
    &&& p.active
    &&& converts(p)
    &&& (program_type_of(p.program_type) == ProgramType::Liveset || playlist_ok)
}

pub open spec fn flag(oks: Seq<bool>, i: int) -> bool {
    0 <= i < oks.len() && oks[i]
}

/// The scheduled programs among the first `n`, in configuration order.
pub open spec fn kept_programs(ps: Seq<ScheduleProgram>, oks: Seq<bool>, n: int) -> Seq<
    ScheduleProgram,
>
    decreases n,
{
    if n <= 0 {
        Seq::empty()
    } else if keeps(ps[n - 1], flag(oks, n - 1)) {
        kept_programs(ps, oks, n - 1).push(ps[n - 1])
    } else {
        kept_programs(ps, oks, n - 1)
    }
}

/// The instant from which cron is asked for fire times at `now`: one second before the
/// tolerance window, since cron's search is strict.
pub open spec fn search_start_spec(now: i64) -> i64 {
    if now >= i64::MIN + TOLERANCE_SECS + 1 {
        (now - TOLERANCE_SECS - 1) as i64
    } else {
        i64::MIN
    }
}

pub fn search_start(now: i64) -> (r: i64)
    ensures
        r == search_start_spec(now),
{
    if now >= i64::MIN + TOLERANCE_SECS + 1 {
        now - TOLERANCE_SECS - 1
    } else {
        i64::MIN
    }
}

pub open spec fn no_programs_message() -> Seq<char> {
    "No active and valid programs found for scheduling"@
}

/// The scheduled programs.
pub struct ScheduleEngine {
    pub programs: Vec<ValidatedProgram>,
}

impl ScheduleEngine {
    pub open spec fn names(&self) -> Seq<Seq<char>> {
        self.programs@.map_values(|p: ValidatedProgram| p.name@)
    }

    /// Keeps the active programs that convert and, for playlist programs, whose playlist
    /// resolved (`playlist_ok[i]`, read from disk by the caller; a missing flag counts as
    /// false), each converted as `validate_and_convert` does. Fails when none is left.
    pub fn new(programs: &Vec<ScheduleProgram>, playlist_ok: &Vec<bool>) -> (r: Result<
        ScheduleEngine,
        String,
    >)
        ensures
            ({
                let kept = kept_programs(programs@, playlist_ok@, programs@.len() as int);
                &&& r is Err <==> kept.len() == 0
                &&& r matches Ok(e) ==> e.programs@.len() == kept.len() && forall|j: int|
                    0 <= j < kept.len() ==> converted(#[trigger] e.programs@[j], kept[j])
                &&& r matches Err(m) ==> m@ == no_programs_message()
            }),
    {
        let mut kept: Vec<ValidatedProgram> = Vec::new();
        let mut i: usize = 0;
        while i < programs.len()
            invariant
                i <= programs@.len(),
                kept@.len() == kept_programs(programs@, playlist_ok@, i as int).len(),
                forall|j: int|
                    0 <= j < kept@.len() ==> converted(
                        #[trigger] kept@[j],
                        kept_programs(programs@, playlist_ok@, i as int)[j],
                    ),
            decreases programs@.len() - i,
        {
            let p = &programs[i];
            let ok = i < playlist_ok.len() && playlist_ok[i];
            let ghost before = kept@;
            if p.active {
                match validate_and_convert(p) {
                    Ok(v) => {
                        if v.program_type == ProgramType::Liveset || ok {
                            kept.push(v);
                            assert forall|j: int| 0 <= j < kept@.len() implies converted(
                                #[trigger] kept@[j],
                                kept_programs(programs@, playlist_ok@, i + 1)[j],
                            ) by {
                                if j < before.len() {
                                    assert(kept@[j] == before[j]);
                                }
                            }
                        }
                    },
                    Err(_) => {},
                }
            }
            i = i + 1;
        }
        if kept.len() == 0 {
            return Err(String::from_str("No active and valid programs found for scheduling"));
        }
        Ok(ScheduleEngine { programs: kept })
    }

    /// The earliest upcoming fire time among the programs, from one second before the
    /// tolerance window (`search_start`), read at the fixed UTC offset `utc_offset_secs`.
    /// From 2100 on cron has no fire times left.
    pub fn find_next_program(&self, now: i64, utc_offset_secs: i32) -> (r: Option<(usize, i64)>)
        ensures
            self.programs@.len() == 0 ==> r is None,
            search_start_spec(now) > LAST_SEARCH_SECS ==> r is None,
            r matches Some((i, t)) ==> i < self.programs@.len() && t > search_start_spec(now),
    {
        let start = search_start(now);
        if start > LAST_SEARCH_SECS {
            return None;
        }
        let from: i64 = if start < 0 {
            0
        } else {
            start
        };
        let mut fires: Vec<Option<i64>> = Vec::new();
        let mut i: usize = 0;
        while i < self.programs.len()
            invariant
                i <= self.programs@.len(),
                fires@.len() == i,
                from >= start,
                0 <= from <= LAST_SEARCH_SECS,
                forall|j: int| 0 <= j < i ==> (#[trigger] fires@[j] matches Some(u) ==> u > from),
            decreases self.programs@.len() - i,
        {
            fires.push(next_fire_after(&self.programs[i].schedule, from, utc_offset_secs));
            i = i + 1;
        }
        let r = earliest_fire(&fires);
        proof {
            if self.programs@.len() == 0 {
                assert(forall|j: int| 0 <= j < fires@.len() ==> (#[trigger] fires@[j]) is None);
            }
        }
        r
    }

    /// Starts program `index` at `now`. A playlist program needs the tracks of its playlist
    /// (`None` when the playlist could not be read): without them nothing starts.
    pub fn start_program(&self, index: usize, tracks: Option<Vec<String>>, now: i64) -> (r: (
        Option<PlaylistCommand>,
        Option<ActiveProgram>,
    ))
        requires
            index < self.programs@.len(),
        ensures
            ({
                let p = self.programs@[index as int];
                match p.program_type {
                    ProgramType::Playlist => match tracks {
                        Some(t) => {
                            &&& r.0 matches Some(PlaylistCommand::SwitchToPlaylist {
                                name,
                                tracks: t2,
                                duration_secs,
                            }) && name@ == p.name@ && t2@ == t@ && duration_secs
                                == p.duration_secs
                            &&& r.1 matches Some(a) && a.name@ == p.name@ && a.end == end_time(
                                now,
                                p.duration_secs,
                            )
                        },
                        None => r.0 is None && r.1 is None,
                    },
                    ProgramType::Liveset => {
                        &&& r.0 matches Some(PlaylistCommand::SwitchToLiveset {
                            name,
                            genres,
                            duration_secs,
                        }) && name@ == p.name@ && duration_secs == p.duration_secs && (
                        p.genres matches Some(g) ==> genres@ == g@)
                        &&& r.1 matches Some(a) && a.name@ == p.name@ && a.end == end_time(
                            now,
                            p.duration_secs,
                        )
                    },
                }
            }),
    {
        let p = &self.programs[index];
        let end = compute_end(now, p.duration_secs);
        match p.program_type {
            ProgramType::Playlist => match tracks {
                Some(t) => (
                    Some(
                        PlaylistCommand::SwitchToPlaylist {
                            name: p.name.clone(),
                            tracks: t,
                            duration_secs: p.duration_secs,
                        },
                    ),
                    Some(ActiveProgram { name: p.name.clone(), end }),
                ),
                None => (None, None),
            },
            ProgramType::Liveset => {
                let genres = match &p.genres {
                    Some(g) => g.clone(),
                    None => Vec::new(),
                };
                (
                    Some(
                        PlaylistCommand::SwitchToLiveset {
                            name: p.name.clone(),
                            genres,
                            duration_secs: p.duration_secs,
                        },
                    ),
                    Some(ActiveProgram { name: p.name.clone(), end }),
                )
            },
        }
    }
}

/// A program whose fire time `fire` is observed at any instant from `fire` to two seconds
/// later, while no program runs, is started.
pub proof fn lemma_fires_within_tolerance(now: i64, index: usize, fire: i64)
    requires
        fire <= now <= fire + TOLERANCE_SECS,
    ensures
        decision_for(None, now as int, Some((index, fire))).0 == ScheduleAction::StartProgram(
            index,
        ),
{
}

/// A program of zero length ends at the instant it starts: the next tick at that instant
/// returns to the library.
pub proof fn lemma_zero_duration_ends_at_start(now: i64, next: Option<(usize, i64)>)
    ensures
        end_time(now, 0) == now,
        decision_for(Some(end_time(now, 0)), now as int, next).0
            == ScheduleAction::ReturnToLibrary,
{
}

} // verus!
