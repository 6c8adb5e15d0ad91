//! What every source asks of the machine for each line: the host's name and
//! the time of day.

use vstd::prelude::*;
use std::time::{Duration, SystemTime, UNIX_EPOCH};
use sysinfo::System;

verus! {

/// Why a source could not report.
#[derive(Clone, Copy, Debug, PartialEq, Eq, Structural)]
pub enum CollectError {
    /// The machine gave no host name.
    HostNameUnavailable,
    /// The machine's clock stands before 1970-01-01T00:00:00Z.
    ClockBeforeEpoch,
    /// The boot time is no date that can be written out.
    BootTimeOutOfRange,
}

impl CollectError {
    /// The error in words.
    pub open spec fn message_text(&self) -> Seq<char> {
        match *self {
            CollectError::HostNameUnavailable => "Could not retrieve hostname"@,
            CollectError::ClockBeforeEpoch => "Could not read the time since the Unix epoch"@,
            CollectError::BootTimeOutOfRange => "Could not convert unix boot time to datetime"@,
        }
    }

    /// The error in words.
    pub fn message(&self) -> (text: String)
        ensures
            text@ == self.message_text(),
    {
        match self {
            CollectError::HostNameUnavailable => String::from_str("Could not retrieve hostname"),
            CollectError::ClockBeforeEpoch => String::from_str(
                "Could not read the time since the Unix epoch",
            ),
            CollectError::BootTimeOutOfRange => String::from_str(
                "Could not convert unix boot time to datetime",
            ),
        }
    }
}

/// Trusted: `std::time::SystemTime`, a reading of the system clock, as a
/// value that cannot be looked into.
#[verifier::external_type_specification]
#[verifier::external_body]
pub struct ExSystemTime(SystemTime);

/// Trusted: `sysinfo::System::host_name` asks the operating system for the
/// host's name and gives `None` where it has none. Nothing is claimed of the
/// name.
pub assume_specification[ System::host_name ]() -> Option<String>;

/// Trusted: `SystemTime::now` reads the system clock. Nothing is claimed of
/// the time.
pub assume_specification[ SystemTime::now ]() -> SystemTime;

/// Trusted: `Duration::as_millis` gives the whole milliseconds of a span.
/// Nothing is claimed of their number.
pub assume_specification[ Duration::as_millis ](span: &Duration) -> u128;

/// The span from the Unix epoch to `time`, `None` where `time` lies before
/// the epoch.
///
/// Trusted: wraps `SystemTime::duration_since` with `UNIX_EPOCH`, which
/// fails only for a time earlier than the epoch. Nothing is claimed of the
/// span.
#[verifier::external_body]
fn since_unix_epoch(time: SystemTime) -> Option<Duration> {
    time.duration_since(UNIX_EPOCH).ok()
}

/// The Unix time in milliseconds, `None` where the clock stands before the
/// epoch.
pub fn unix_millis() -> Option<u128> {
    match since_unix_epoch(SystemTime::now()) {
        Some(span) => Some(span.as_millis()),
        None => None,
    }
}

/// What goes into one line besides the readings: the host's name and the
/// timestamp.
///
/// Fails without a host name, and with one fails without a timestamp.
pub fn line_context(host_name: Option<String>, millis: Option<u128>) -> (r: Result<
    (String, u128),
    CollectError,
>)
    ensures
        r == match (host_name, millis) {
            (None, _) => Err::<(String, u128), CollectError>(CollectError::HostNameUnavailable),
            (Some(_), None) => Err(CollectError::ClockBeforeEpoch),
            (Some(name), Some(at)) => Ok((name, at)),
        },
{
    match host_name {
        None => Err(CollectError::HostNameUnavailable),
        Some(name) => match millis {
            None => Err(CollectError::ClockBeforeEpoch),
            Some(at) => Ok((name, at)),
        },
    }
}

/// Asks the machine for the host's name and, where it has one, for the time.
pub fn read_line_context() -> (r: Result<(String, u128), CollectError>)
    ensures
        r matches Err(e) ==> e != CollectError::BootTimeOutOfRange,
{
    match System::host_name() {
        Some(name) => line_context(Some(name), unix_millis()),
        None => Err(CollectError::HostNameUnavailable),
    }
}

/// What an answer of the machine comes to: the host's name and the time, or
/// the error for what is missing, the host's name first.
pub open spec fn answered(host_name: Option<Seq<char>>, millis: Option<u128>) -> Result<
    (Seq<char>, nat),
    CollectError,
> {
    match host_name {
        None => Err(CollectError::HostNameUnavailable),
        Some(name) => match millis {
            None => Err(CollectError::ClockBeforeEpoch),
            Some(at) => Ok((name, at as nat)),
        },
    }
}

/// An answer that comes to what `read_line_context` gave: the host's name
/// and the time that it gave, or, where it failed, an answer that lacks what
/// the error names.
pub open spec fn answer_behind(r: Result<(String, u128), CollectError>) -> (
    Option<Seq<char>>,
    Option<u128>,
) {
    match r {
        Ok((name, at)) => (Some(name@), Some(at)),
        Err(CollectError::HostNameUnavailable) => (None, None),
        Err(_) => (Some(Seq::empty()), None),
    }
}

/// The answers of a machine that keeps its host name and gives a time
/// whenever it is asked: one answer for each of `times`.
pub open spec fn answers_of(host_name: Seq<char>, times: Seq<u128>) -> Seq<
    (Option<Seq<char>>, Option<u128>),
> {
    Seq::new(times.len(), |i: int| (Some(host_name), Some(times[i])))
}

/// What a run of entries comes to, each a line or an error: all the lines in
/// their order, or the first error.
pub open spec fn collected(entries: Seq<Result<Seq<char>, CollectError>>) -> Result<
    Seq<Seq<char>>,
    CollectError,
>
    decreases entries.len(),
{
    if entries.len() == 0 {
        Ok(Seq::empty())
    } else {
        match collected(entries.drop_last()) {
            Err(e) => Err(e),
            Ok(lines) => match entries.last() {
                Err(e) => Err(e),
                Ok(line) => Ok(lines.push(line)),
            },
        }
    }
}

/// Entries that are all lines come to these lines, as many and in the same
/// order.
pub proof fn lemma_collected_all(entries: Seq<Result<Seq<char>, CollectError>>)
    requires
        forall|i: int| 0 <= i < entries.len() ==> (#[trigger] entries[i]) is Ok,
    ensures
        collected(entries) matches Ok(lines) && lines.len() == entries.len() && forall|i: int|
            0 <= i < entries.len() ==> entries[i] == Ok::<Seq<char>, CollectError>(
                #[trigger] lines[i],
            ),
    decreases entries.len(),
{
    if entries.len() > 0 {
        let head = entries.drop_last();
        assert forall|i: int| 0 <= i < head.len() implies (#[trigger] head[i]) is Ok by {
            assert(head[i] == entries[i]);
        }
        lemma_collected_all(head);
        assert(entries.last() is Ok);
    }
}

/// Entries of which one is an error, and all before it are lines, come to
/// that error, whatever follows.
pub proof fn lemma_collected_error(entries: Seq<Result<Seq<char>, CollectError>>, at: int)
    requires
        0 <= at < entries.len(),
        entries[at] is Err,
        forall|i: int| 0 <= i < at ==> (#[trigger] entries[i]) is Ok,
    ensures
        collected(entries) == Err::<Seq<Seq<char>>, CollectError>(entries[at]->Err_0),
    decreases entries.len(),
{
    let head = entries.drop_last();
    if at == entries.len() - 1 {
        assert forall|i: int| 0 <= i < head.len() implies (#[trigger] head[i]) is Ok by {
            assert(head[i] == entries[i]);
        }
        lemma_collected_all(head);
    } else {
        assert(head[at] == entries[at]);
        assert forall|i: int| 0 <= i < at implies (#[trigger] head[i]) is Ok by {
            assert(head[i] == entries[i]);
        }
        lemma_collected_error(head, at);
    }
}

/// Entries that come to lines are all lines.
pub proof fn lemma_collected_prefix(entries: Seq<Result<Seq<char>, CollectError>>, at: int)
    requires
        collected(entries) is Ok,
        0 <= at < entries.len(),
    ensures
        entries[at] is Ok,
    decreases entries.len(),
{
    if at < entries.len() - 1 {
        assert(entries.drop_last()[at] == entries[at]);
        lemma_collected_prefix(entries.drop_last(), at);
    }
}

} // verus!
