//! The status report: durations in words, and what the report shows of the
//! supervisor and of each supervised service.
use vstd::prelude::*;

use crate::text::{append_decimal, decimal, i64_to_string, signed_decimal};

verus! {

/// Parts joined by single spaces.
pub open spec fn join_words(parts: Seq<Seq<char>>) -> Seq<char>
    decreases parts.len(),
{
    if parts.len() == 0 {
        Seq::empty()
    } else if parts.len() == 1 {
        parts[0]
    } else {
        join_words(parts.drop_last()) + seq![' '] + parts.last()
    }
}

/// `n` followed by a unit letter.
pub open spec fn amount(n: nat, unit: char) -> Seq<char> {
    decimal(n).push(unit)
}

/// The parts of a positive duration of `s` seconds: whole days, hours,
/// minutes and seconds, each only when non-zero, the seconds also when they
/// are the only part.
pub open spec fn duration_parts(s: nat) -> Seq<Seq<char>> {
    let days = s / 86400;
    let hours = (s % 86400) / 3600;
    let minutes = (s % 3600) / 60;
    let seconds = s % 60;
    let head = (if days > 0 { seq![amount(days, 'd')] } else { Seq::empty() })
        + (if hours > 0 { seq![amount(hours, 'h')] } else { Seq::empty() })
        + (if minutes > 0 { seq![amount(minutes, 'm')] } else { Seq::empty() });
    if seconds > 0 || head.len() == 0 {
        head.push(amount(seconds, 's'))
    } else {
        head
    }
}

/// The text of a duration of `s` seconds. A positive duration reads as its
/// days, hours, minutes and seconds ("1d 2h 3s"); zero reads "0s". A negative
/// duration is split with truncating division, so only its seconds below a
/// minute show, with their sign ("-30s"), or "0s" when there are none.
pub open spec fn duration_text(s: int) -> Seq<char> {
    if s == 0 {
        seq!['0', 's']
    } else if s > 0 {
        join_words(duration_parts(s as nat))
    } else if (-s) % 60 == 0 {
        seq!['0', 's']
    } else {
        seq!['-'] + amount(((-s) % 60) as nat, 's')
    }
}

/// Appends a space (unless `s` is empty) and then `n` with its unit letter.
fn append_part(s: &mut String, parts: Ghost<Seq<Seq<char>>>, n: u64, unit: &str)
    requires
        old(s)@ == join_words(parts@),
        old(s)@.len() == 0 <==> parts@.len() == 0,
        unit@.len() == 1,
    ensures
        final(s)@ == join_words(parts@.push(amount(n as nat, unit@[0]))),
        final(s)@.len() > 0,
{
    proof {
        reveal_strlit(" ");
    }
    let first = s.as_str().is_empty();
    if !first {
        s.append(" ");
    }
    append_decimal(s, n);
    s.append(unit);
    let ghost np = parts@.push(amount(n as nat, unit@[0]));
    assert(np.drop_last() =~= parts@);
    assert(unit@ =~= seq![unit@[0]]);
    assert(final(s)@ =~= join_words(np));
}

/// The text of a duration given in seconds (see `duration_text`).
pub fn format_duration(seconds: i64) -> (r: String)
    ensures
        r@ == duration_text(seconds as int),
{
    proof {
        reveal_strlit("0s");
        reveal_strlit("-");
        reveal_strlit("s");
        reveal_strlit("d");
        reveal_strlit("h");
        reveal_strlit("m");
    }
    if seconds == 0 {
        return String::from_str("0s");
    }
    if seconds < 0 {
        let magnitude: u64 = ((-(seconds + 1)) as u64) + 1;
        let rest = magnitude % 60;
        assert(rest == (-(seconds as int)) % 60);
        if rest == 0 {
            return String::from_str("0s");
        }
        let mut r = String::from_str("-");
        append_decimal(&mut r, rest);
        r.append("s");
        assert(r@ =~= duration_text(seconds as int));
        return r;
    }
    let total = seconds as u64;
    let days = total / 86400;
    let hours = (total % 86400) / 3600;
    let minutes = (total % 3600) / 60;
    let secs = total % 60;
    let mut r = String::new();
    let ghost mut parts: Seq<Seq<char>> = Seq::empty();
    if days > 0 {
        append_part(&mut r, Ghost(parts), days, "d");
        proof {
            parts = parts.push(amount(days as nat, 'd'));
        }
    }
    if hours > 0 {
        append_part(&mut r, Ghost(parts), hours, "h");
        proof {
            parts = parts.push(amount(hours as nat, 'h'));
        }
    }
    if minutes > 0 {
        append_part(&mut r, Ghost(parts), minutes, "m");
        proof {
            parts = parts.push(amount(minutes as nat, 'm'));
        }
    }
    let ghost head = parts;
    if secs > 0 || r.as_str().is_empty() {
        append_part(&mut r, Ghost(parts), secs, "s");
        proof {
            parts = parts.push(amount(secs as nat, 's'));
        }
    }
    proof {
        let s = seconds as nat;
        let dd = if days > 0 { seq![amount(days as nat, 'd')] } else { Seq::<Seq<char>>::empty() };
        let hh = if hours > 0 { seq![amount(hours as nat, 'h')] } else { Seq::<Seq<char>>::empty() };
        let mm = if minutes > 0 { seq![amount(minutes as nat, 'm')] } else { Seq::<Seq<char>>::empty() };
        assert(head =~= dd + hh + mm);
        assert(parts =~= duration_parts(s));
    }
    r
}

/// The earliest second (since the Unix epoch) that a UTC date-time can hold:
/// January 1st of year -262143, 00:00:00.
pub const MIN_UTC_SECONDS: i64 = -8334601315200;

/// The latest second that a UTC date-time can hold: December 31st of year
/// 262142, 23:59:59.
pub const MAX_UTC_SECONDS: i64 = 8210266876799;

/// A Unix timestamp that a UTC date-time can hold.
pub open spec fn utc_representable(t: i64) -> bool {
    MIN_UTC_SECONDS <= t <= MAX_UTC_SECONDS
}

/// The state of a supervised service.
#[derive(Clone, Copy, Debug, PartialEq, Eq, Structural)]
pub enum ServiceState {
    Starting,
    Running,
    Retrying,
    Stopped,
    Failed,
}

/// What the supervisor records of a service.
#[derive(Clone, Debug)]
pub struct ServiceStatus {
    pub service_name: String,
    pub state: ServiceState,
    pub retry_count: u32,
    pub last_error: Option<String>,
    pub started_at: Option<i64>,
    pub updated_at: i64,
}

/// What the supervisor records of itself.
#[derive(Clone, Copy, Debug)]
pub struct SupervisorMetadata {
    pub pid: u32,
    pub started_at: i64,
}

/// The supervisor as the status report shows it.
#[derive(Clone, Debug)]
pub struct SupervisorMetadataDisplay {
    pub pid: u32,
    pub started_at: i64,
    pub uptime_seconds: i64,
    pub uptime_formatted: String,
}

/// A service as the status report shows it.
#[derive(Clone, Debug)]
pub struct ServiceStatusDisplay {
    pub service_name: String,
    pub state: ServiceState,
    pub retry_count: u32,
    pub last_error: Option<String>,
    pub started_at: Option<i64>,
    pub updated_at: i64,
    pub uptime_seconds: Option<i64>,
    pub last_update_seconds_ago: i64,
    pub time_display: String,
}

impl SupervisorMetadataDisplay {
    /// The supervisor's record as seen at `now` (seconds since the Unix
    /// epoch): how long it has been up, in seconds and in words.
    pub fn from(meta: SupervisorMetadata, now: i64) -> (r: SupervisorMetadataDisplay)
        requires
            utc_representable(now),
            utc_representable(meta.started_at),
        ensures
            r.pid == meta.pid,
            r.started_at == meta.started_at,
            r.uptime_seconds == now - meta.started_at,
            r.uptime_formatted@ == duration_text(now - meta.started_at),
    {
        let uptime = now - meta.started_at;
        SupervisorMetadataDisplay {
            pid: meta.pid,
            started_at: meta.started_at,
            uptime_seconds: uptime,
            uptime_formatted: format_duration(uptime),
        }
    }
}

/// The state is one of a service that runs or is about to.
pub open spec fn is_live(state: ServiceState) -> bool {
    state == ServiceState::Running || state == ServiceState::Starting || state
        == ServiceState::Retrying
}

/// The time column of a service at `now`: for a live service, how long it
/// has been up ("up 1h 2m") or "N/A" when it never started; otherwise how
/// many seconds ago it last changed ("42s ago").
pub open spec fn time_display_text(status: ServiceStatus, now: i64) -> Seq<char> {
    if is_live(status.state) {
        match status.started_at {
            Some(s) => seq!['u', 'p', ' '] + duration_text(now - s),
            None => seq!['N', '/', 'A'],
        }
    } else {
        signed_decimal(now - status.updated_at) + seq!['s', ' ', 'a', 'g', 'o']
    }
}

impl ServiceStatusDisplay {
    /// The service's record as seen at `now` (seconds since the Unix epoch).
    pub fn from(status: ServiceStatus, now: i64) -> (r: ServiceStatusDisplay)
        requires
            utc_representable(now),
            utc_representable(status.updated_at),
            status.started_at matches Some(s) ==> utc_representable(s),
        ensures
            r.service_name == status.service_name,
            r.state == status.state,
            r.retry_count == status.retry_count,
            r.last_error == status.last_error,
            r.started_at == status.started_at,
            r.updated_at == status.updated_at,
            r.uptime_seconds == match status.started_at {
                Some(s) => Some((now - s) as i64),
                None => None,
            },
            r.last_update_seconds_ago == now - status.updated_at,
            r.time_display@ == time_display_text(status, now),
    {
        proof {
            reveal_strlit("N/A");
            reveal_strlit("up ");
            reveal_strlit("s ago");
        }
        let uptime_seconds = match status.started_at {
            Some(s) => Some(now - s),
            None => None,
        };
        let last_update_seconds_ago = now - status.updated_at;
        let live = match status.state {
            ServiceState::Running | ServiceState::Starting | ServiceState::Retrying => true,
            _ => false,
        };
        let time_display = if live {
            match status.started_at {
                Some(s) => {
                    let mut t = String::from_str("up ");
                    let d = format_duration(now - s);
                    t.append(d.as_str());
                    t
                },
                None => String::from_str("N/A"),
            }
        } else {
            let mut t = i64_to_string(last_update_seconds_ago);
            t.append("s ago");
            t
        };
        ServiceStatusDisplay {
            service_name: status.service_name,
            state: status.state,
            retry_count: status.retry_count,
            last_error: status.last_error,
            started_at: status.started_at,
            updated_at: status.updated_at,
            uptime_seconds,
            last_update_seconds_ago,
            time_display,
        }
    }
}

/// The name a state is shown by.
pub open spec fn state_text(state: ServiceState) -> Seq<char> {
    match state {
        ServiceState::Starting => "Starting"@,
        ServiceState::Running => "Running"@,
        ServiceState::Retrying => "Retrying"@,
        ServiceState::Stopped => "Stopped"@,
        ServiceState::Failed => "Failed"@,
    }
}

/// The name the status report shows for `state`.
pub fn state_label(state: ServiceState) -> (r: String)
    ensures
        r@ == state_text(state),
{
    match state {
        ServiceState::Starting => String::from_str("Starting"),
        ServiceState::Running => String::from_str("Running"),
        ServiceState::Retrying => String::from_str("Retrying"),
        ServiceState::Stopped => String::from_str("Stopped"),
        ServiceState::Failed => String::from_str("Failed"),
    }
}

/// The first line of the status report.
#[derive(Clone, Debug)]
pub enum DaemonLine {
    /// "Daemon: RUNNING (PID: pid, Uptime: uptime)".
    Running { pid: u32, uptime: String },
    /// "Daemon: NOT RUNNING".
    NotRunning,
}

/// One row of the services table: service, status, retries, uptime or last
/// update, and last error ("None" when there is none).
#[derive(Clone, Debug)]
pub struct StatusRow {
    pub service_name: String,
    pub state: ServiceState,
    pub state_label: String,
    pub retry_count: u32,
    pub time_display: String,
    pub last_error: String,
}

/// What the status command shows: the daemon line; the note that no
/// supervised service runs; and the rows of the services table, which is
/// shown when there is at least one row.
#[derive(Clone, Debug)]
pub struct StatusReport {
    pub daemon: DaemonLine,
    pub no_services_note: bool,
    pub rows: Vec<StatusRow>,
}

/// The row that shows `s`.
pub open spec fn is_row_of(row: StatusRow, s: ServiceStatusDisplay) -> bool {
    &&& row.service_name@ == s.service_name@
    &&& row.state == s.state
    &&& row.state_label@ == state_text(s.state)
    &&& row.retry_count == s.retry_count
    &&& row.time_display@ == s.time_display@
    &&& row.last_error@ == match s.last_error {
        Some(e) => e@,
        None => "None"@,
    }
}

/// The status report of the supervisor's record (`None` when no daemon
/// runs) and of its services, in order.
pub fn status_report(
    supervisor: &Option<SupervisorMetadataDisplay>,
    services: &Vec<ServiceStatusDisplay>,
) -> (r: StatusReport)
    ensures
        match supervisor {
            Some(meta) => r.daemon matches DaemonLine::Running { pid, uptime } && pid == meta.pid
                && uptime@ == meta.uptime_formatted@,
            None => r.daemon is NotRunning,
        },
        r.no_services_note <==> (supervisor is Some && services@.len() == 0),
        r.rows@.len() == services@.len(),
        forall|i: int| 0 <= i < services@.len() ==> is_row_of(#[trigger] r.rows@[i], services@[i]),
{
    let daemon = match supervisor {
        Some(meta) => DaemonLine::Running { pid: meta.pid, uptime: meta.uptime_formatted.clone() },
        None => DaemonLine::NotRunning,
    };
    let no_services_note = supervisor.is_some() && services.len() == 0;
    let mut rows: Vec<StatusRow> = Vec::new();
    let mut i: usize = 0;
    while i < services.len()
        invariant
            i <= services@.len(),
            rows@.len() == i,
            forall|k: int| 0 <= k < i ==> is_row_of(#[trigger] rows@[k], services@[k]),
        decreases services@.len() - i,
    {
        let s = &services[i];
        let last_error = match &s.last_error {
            Some(e) => e.clone(),
            None => String::from_str("None"),
        };
        rows.push(StatusRow {
            service_name: s.service_name.clone(),
            state: s.state,
            state_label: state_label(s.state),
            retry_count: s.retry_count,
            time_display: s.time_display.clone(),
            last_error,
        });
        i = i + 1;
    }
    StatusReport { daemon, no_services_note, rows }
}

} // verus!
