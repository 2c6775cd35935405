//! When a source is due for a scheduled fetch. Instants are seconds since
//! the Unix epoch with the nanoseconds of the second, as `chrono` keeps them.
use vstd::prelude::*;
use crate::html::opt_view;
use crate::index::SourceRow;

verus! {

/// Minutes between scheduled fetches of a new source.
pub const DEFAULT_INTERVAL_MINUTES: i64 = 360;

/// A point in time: seconds since the Unix epoch and nanoseconds within the
/// second (at least a billion inside a leap second).
#[derive(Debug, Clone, Copy, PartialEq, Eq, Structural)]
pub struct Instant {
    pub secs: i64,
    pub nanos: u32,
}

/// `a` is not earlier than `b`.
pub open spec fn not_before(a: Instant, b: Instant) -> bool {
    a.secs > b.secs || (a.secs == b.secs && a.nanos >= b.nanos)
}

/// The instant an RFC 3339 timestamp denotes, as `chrono` parses it (in
/// UTC); none when it does not parse.
pub uninterp spec fn rfc3339_instant(raw: Seq<char>) -> Option<Instant>;

/// The instant some minutes after another, as `chrono` adds a `TimeDelta`;
/// none when the minutes or the sum leave `chrono`'s range.
pub uninterp spec fn instant_plus_minutes(t: Instant, minutes: i64) -> Option<Instant>;

/// `chrono::DateTime::parse_from_rfc3339`, then `with_timezone(&Utc)`, read
/// as `timestamp` and `timestamp_subsec_nanos`. Claimed: the outcome is a
/// function of the text.
#[verifier::external_body]
pub(crate) fn parse_rfc3339(raw: &str) -> (r: Option<Instant>)
    ensures
        r == rfc3339_instant(raw@),
{
    let parsed = chrono::DateTime::parse_from_rfc3339(raw).ok()?;
    let utc = parsed.with_timezone(&chrono::Utc);
    Some(Instant { secs: utc.timestamp(), nanos: utc.timestamp_subsec_nanos() })
}

/// `chrono::TimeDelta::try_minutes`, then `DateTime::<Utc>::checked_add_signed`
/// on the instant. Claimed: the outcome is a function of its arguments, and
/// outside a leap second a sum moves the seconds by sixty per minute and
/// keeps the nanoseconds.
#[verifier::external_body]
pub(crate) fn add_minutes(t: Instant, minutes: i64) -> (r: Option<Instant>)
    ensures
        r == instant_plus_minutes(t, minutes),
        r matches Some(u) ==> (t.nanos < 1_000_000_000 ==> u.secs == t.secs + 60 * minutes
            && u.nanos == t.nanos),
{
    let delta = chrono::TimeDelta::try_minutes(minutes)?;
    let at = chrono::DateTime::<chrono::Utc>::from_timestamp(t.secs, t.nanos)?;
    let sum = at.checked_add_signed(delta)?;
    Some(Instant { secs: sum.timestamp(), nanos: sum.timestamp_subsec_nanos() })
}

/// The interval used for scheduling: at least one minute.
pub open spec fn effective_interval(interval_minutes: i64) -> i64 {
    if interval_minutes < 1 { 1 } else { interval_minutes }
}

/// Scheduling a source needs its due time to exist: adding the interval to
/// the last fetch panics when the sum leaves `chrono`'s range.
pub open spec fn due_time_defined(source: SourceRow) -> bool {
    source.enabled ==> match opt_view(source.last_fetch_at) {
        Some(raw) => match rfc3339_instant(raw) {
            Some(last) => instant_plus_minutes(last, effective_interval(source.interval_minutes)) is Some,
            None => true,
        },
        None => true,
    }
}

/// At least `minutes` whole minutes have passed from `last` to `now`.
pub open spec fn elapsed(now: Instant, last: Instant, minutes: i64) -> bool {
    now.secs > last.secs + 60 * minutes || (now.secs == last.secs + 60 * minutes && now.nanos
        >= last.nanos)
}

/// Due: enabled, and never fetched, or fetched at an unreadable time, or
/// the interval (at least a minute) has elapsed since the last fetch.
pub open spec fn is_due(source: SourceRow, now: Instant) -> bool {
    source.enabled && match opt_view(source.last_fetch_at) {
        None => true,
        Some(raw) => match rfc3339_instant(raw) {
            None => true,
            Some(last) => match instant_plus_minutes(last, effective_interval(source.interval_minutes)) {
                Some(due) => not_before(now, due),
                None => false,
            },
        },
    }
}

/// Whether a source is due for a scheduled fetch.
pub fn source_is_due(source: &SourceRow, now: Instant) -> (r: bool)
    requires
        due_time_defined(*source),
    ensures
        r == is_due(*source, now),
        source.enabled ==> match opt_view(source.last_fetch_at) {
            Some(raw) => match rfc3339_instant(raw) {
                Some(last) => last.nanos < 1_000_000_000 ==> r == elapsed(
                    now,
                    last,
                    effective_interval(source.interval_minutes),
                ),
                None => true,
            },
            None => true,
        },
{
    if !source.enabled {
        return false;
    }
    let interval = if source.interval_minutes < 1 { 1 } else { source.interval_minutes };
    match &source.last_fetch_at {
        None => true,
        Some(raw) => match parse_rfc3339(raw.as_str()) {
            Some(last) => match add_minutes(last, interval) {
                Some(due) => now.secs > due.secs || (now.secs == due.secs && now.nanos >= due.nanos),
                None => false,
            },
            None => true,
        },
    }
}

/// `source_is_due` where the due time exists; `None` where adding the
/// interval would leave `chrono`'s range.
pub fn source_due_checked(source: &SourceRow, now: Instant) -> (r: Option<bool>)
    ensures
        r matches Some(d) ==> due_time_defined(*source) && d == is_due(*source, now),
        r is None ==> !due_time_defined(*source),
{
    if source.enabled {
        if let Some(raw) = &source.last_fetch_at {
            if let Some(last) = parse_rfc3339(raw.as_str()) {
                let interval = if source.interval_minutes < 1 { 1 } else { source.interval_minutes };
                if add_minutes(last, interval).is_none() {
                    return None;
                }
            }
        }
    }
    Some(source_is_due(source, now))
}

/// A disabled source is never due.
pub proof fn lemma_disabled_never_due(source: SourceRow, now: Instant)
    requires
        !source.enabled,
    ensures
        !is_due(source, now),
{
}

/// An enabled source that was never fetched is always due.
pub proof fn lemma_never_fetched_is_due(source: SourceRow, now: Instant)
    requires
        source.enabled,
        source.last_fetch_at is None,
    ensures
        is_due(source, now),
{
}

/// Once due, a source stays due as time goes on.
pub proof fn lemma_due_is_monotone(source: SourceRow, now: Instant, later: Instant)
    requires
        is_due(source, now),
        not_before(later, now),
    ensures
        is_due(source, later),
{
}


/// The RFC 3339 text of an instant in UTC, as `chrono` writes it; none when
/// the instant is outside `chrono`'s range.
pub uninterp spec fn instant_rfc3339(t: Instant) -> Option<Seq<char>>;

/// `chrono::DateTime::<Utc>::from_timestamp`, then `to_rfc3339`. Claimed:
/// the text is a function of the instant.
#[verifier::external_body]
pub(crate) fn format_rfc3339(t: Instant) -> (r: Option<String>)
    ensures
        opt_view(r) == instant_rfc3339(t),
{
    chrono::DateTime::<chrono::Utc>::from_timestamp(t.secs, t.nanos).map(|d| d.to_rfc3339())
}

/// When the next scheduled fetch falls: none for a disabled source; the
/// current time for one never fetched; the last fetch plus the interval;
/// none when the last fetch time does not parse.
pub open spec fn next_fetch_of(source: SourceRow, now_text: Seq<char>) -> Option<Seq<char>> {
    if !source.enabled {
        None
    } else {
        match opt_view(source.last_fetch_at) {
            None => Some(now_text),
            Some(raw) => match rfc3339_instant(raw) {
                None => None,
                Some(last) => match instant_plus_minutes(last, effective_interval(source.interval_minutes)) {
                    Some(due) => instant_rfc3339(due),
                    None => None,
                },
            },
        }
    }
}

/// The next fetch time of a source; `now_text` is the current time as RFC
/// 3339 text.
pub fn next_fetch_at(source: &SourceRow, now_text: String) -> (r: Option<String>)
    requires
        due_time_defined(*source),
    ensures
        opt_view(r) == next_fetch_of(*source, now_text@),
{
    if !source.enabled {
        return None;
    }
    let interval = if source.interval_minutes < 1 { 1 } else { source.interval_minutes };
    match &source.last_fetch_at {
        None => Some(now_text),
        Some(raw) => match parse_rfc3339(raw.as_str()) {
            None => None,
            Some(last) => match add_minutes(last, interval) {
                Some(due) => format_rfc3339(due),
                None => None,
            },
        },
    }
}

#[derive(Debug, Clone)]
pub struct ScheduleStatus {
    pub source_id: i64,
    pub title: String,
    pub interval_minutes: i64,
    pub last_fetch_at: Option<String>,
    pub enabled: bool,
    pub due: bool,
    pub next_fetch_at: Option<String>,
}

/// The schedule of one source at `now` (with `now_text` its RFC 3339 text).
pub fn schedule_entry(source: &SourceRow, now: Instant, now_text: String) -> (r: ScheduleStatus)
    requires
        due_time_defined(*source),
    ensures
        r.source_id == source.id,
        r.title@ == source.title@,
        r.interval_minutes == source.interval_minutes,
        opt_view(r.last_fetch_at) == opt_view(source.last_fetch_at),
        r.enabled == source.enabled,
        r.due == is_due(*source, now),
        opt_view(r.next_fetch_at) == next_fetch_of(*source, now_text@),
{
    let due = source_is_due(source, now);
    let next = next_fetch_at(source, now_text);
    ScheduleStatus {
        source_id: source.id,
        title: source.title.clone(),
        interval_minutes: source.interval_minutes,
        last_fetch_at: crate::extract::metadata::copy_opt(&source.last_fetch_at),
        enabled: source.enabled,
        due,
        next_fetch_at: next,
    }
}


/// The sources due at `now`, in order.
pub open spec fn due_filter(sources: Seq<SourceRow>, now: Instant) -> Seq<SourceRow>
    decreases sources.len(),
{
    if sources.len() == 0 {
        Seq::empty()
    } else {
        let rest = due_filter(sources.drop_last(), now);
        if is_due(sources.last(), now) {
            rest.push(sources.last())
        } else {
            rest
        }
    }
}

/// The enabled sources whose interval has elapsed (or that were never
/// fetched); none when some source's due time leaves `chrono`'s range.
pub fn due_sources(sources: Vec<SourceRow>, now: Instant) -> (r: Option<Vec<SourceRow>>)
    ensures
        (forall|i: int| 0 <= i < sources@.len() ==> due_time_defined(#[trigger] sources@[i])) ==> (r matches Some(v) && v@ == due_filter(sources@, now)),
        !(forall|i: int| 0 <= i < sources@.len() ==> due_time_defined(#[trigger] sources@[i])) ==> r is None,
{
    let ghost all = sources@;
    assert(all.len() == sources.len());
    let mut out: Vec<SourceRow> = Vec::new();
    let mut rest = sources;
    let mut i: usize = 0;
    while rest.len() > 0
        invariant
            i + rest@.len() == all.len(),
            all.len() <= usize::MAX,
            all == sources@,
            rest@ == all.skip(i as int),
            forall|j: int| 0 <= j < i ==> due_time_defined(#[trigger] all[j]),
            out@ == due_filter(all.take(i as int), now),
        decreases rest.len(),
    {
        let ghost before = rest@;
        let s = rest.remove(0);
        assert(s == all[i as int]);
        assert(rest@ =~= all.skip(i + 1));
        assert(all.take(i + 1).drop_last() =~= all.take(i as int));
        match source_due_checked(&s, now) {
            None => {
                assert(!due_time_defined(all[i as int]));
                return None;
            },
            Some(d) => {
                if d {
                    out.push(s);
                }
            },
        }
        i = i + 1;
    }
    assert(all.take(all.len() as int) =~= all);
    Some(out)
}
} // verus!
