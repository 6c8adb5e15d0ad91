//! The system source: one `system_usage` line with the machine's memory, swap
//! and CPU usage.

use vstd::prelude::*;
use chrono::{DateTime, SecondsFormat, Utc};
use sysinfo::System;
use crate::line::{
    encode, float_field, integer_field, lemma_same_but_for_timestamp, measurement,
    push_float_field, push_integer_field, push_tag, same_but_for_timestamp, tag,
};
use crate::platform::{read_line_context, CollectError};

verus! {

/// The readings of the machine as a whole.
#[derive(Clone, Debug)]
pub struct SystemFacts {
    /// Bytes.
    pub available_memory: u64,
    /// Bytes.
    pub free_memory: u64,
    /// Bytes.
    pub used_memory: u64,
    /// Bytes.
    pub free_swap: u64,
    /// Bytes.
    pub used_swap: u64,
    /// Bytes.
    pub total_swap: u64,
    /// The share of time that all CPUs together were busy between the last
    /// two CPU refreshes, in percent: the text of the number as it goes into
    /// the line.
    pub global_cpu_usage: String,
}

/// The date and time, in UTC, that lie `secs` seconds after
/// 1970-01-01T00:00:00Z, written to the second as in `2015-05-15T00:00:00Z`;
/// `None` where the seconds lead out of the dates that can be held.
pub uninterp spec fn utc_seconds_text(secs: i64) -> Option<Seq<char>>;

/// The view of a text that may be missing.
pub open spec fn text_view(text: Option<String>) -> Option<Seq<char>> {
    match text {
        Some(text) => Some(text@),
        None => None,
    }
}

/// Writes a Unix time in seconds as a date and time in UTC.
///
/// Trusted: `chrono::DateTime::<Utc>::from_timestamp` with no nanoseconds,
/// which gives `None` for a number of seconds out of its range, then
/// `DateTime::to_rfc3339_opts` with whole seconds and `Z` for the offset.
/// The result depends on `secs` alone.
#[verifier::external_body]
fn utc_seconds(secs: i64) -> (text: Option<String>)
    ensures
        text_view(text) == utc_seconds_text(secs),
{
    match DateTime::<Utc>::from_timestamp(secs, 0) {
        Some(at) => Some(at.to_rfc3339_opts(SecondsFormat::Secs, true)),
        None => None,
    }
}

/// The boot time as it goes into the line. The seconds are taken as a signed
/// number of 64 bits before the date is worked out.
pub open spec fn boot_time_text(boot_time: u64) -> Option<Seq<char>> {
    utc_seconds_text(boot_time as i64)
}

/// The tag set of the system's line.
pub open spec fn system_tags(boot_time: Seq<char>, host_name: Seq<char>) -> Seq<char> {
    tag("boot_time"@, boot_time) + ","@ + tag("host_name"@, host_name)
}

/// Writes out the boot time, given in seconds since the Unix epoch.
pub fn boot_time_tag(boot_time: u64) -> (r: Result<String, CollectError>)
    ensures
        match r {
            Ok(text) => boot_time_text(boot_time) == Some(text@),
            Err(e) => boot_time_text(boot_time) is None && e == CollectError::BootTimeOutOfRange,
        },
{
    match utc_seconds(boot_time as i64) {
        Some(text) => Ok(text),
        None => Err(CollectError::BootTimeOutOfRange),
    }
}

/// Writes out the tag set. `boot_time` is the boot time as it goes into the
/// line.
pub fn build_tags(boot_time: &str, host_name: &str) -> (tags: String)
    ensures
        tags@ == system_tags(boot_time@, host_name@),
{
    let mut tags = String::new();
    push_tag(&mut tags, "boot_time", boot_time);
    tags.append(",");
    push_tag(&mut tags, "host_name", host_name);
    assert(tags@ =~= system_tags(boot_time@, host_name@));
    tags
}

impl SystemFacts {
    /// The field set of the system's line.
    pub open spec fn fields(&self) -> Seq<char> {
        integer_field("available_memory"@, self.available_memory as nat) + ","@ + integer_field(
            "free_memory"@,
            self.free_memory as nat,
        ) + ","@ + integer_field("used_memory"@, self.used_memory as nat) + ","@ + integer_field(
            "free_swap"@,
            self.free_swap as nat,
        ) + ","@ + integer_field("used_swap"@, self.used_swap as nat) + ","@ + integer_field(
            "total_swap"@,
            self.total_swap as nat,
        ) + ","@ + float_field("global_cpu_usage"@, self.global_cpu_usage@)
    }

    /// The system's line for a boot time, a host and a time.
    pub open spec fn line(
        &self,
        boot_time: Seq<char>,
        host_name: Seq<char>,
        timestamp: nat,
    ) -> Seq<char> {
        measurement("system_usage"@, system_tags(boot_time, host_name), self.fields(), timestamp)
    }

    /// Whether `line` is the system's line for some boot time that can be
    /// written out, some host and some time.
    pub open spec fn is_line(&self, line: Seq<char>) -> bool {
        exists|boot_time: u64, host_name: Seq<char>, timestamp: nat|
            boot_time_text(boot_time) is Some && line == #[trigger] self.line(
                boot_time_text(boot_time)->0,
                host_name,
                timestamp,
            )
    }

    /// What asking for the system's line comes to, for what the machine
    /// answers: its boot time, and its host name and the time where it has
    /// them. The boot time is looked at first, then the host name, then the
    /// time: the first that is missing, or is no date, decides the error.
    pub open spec fn outcome(
        &self,
        boot_time: u64,
        host_name: Option<Seq<char>>,
        millis: Option<u128>,
    ) -> Result<Seq<char>, CollectError> {
        match boot_time_text(boot_time) {
            None => Err(CollectError::BootTimeOutOfRange),
            Some(boot) => match host_name {
                None => Err(CollectError::HostNameUnavailable),
                Some(host) => match millis {
                    None => Err(CollectError::ClockBeforeEpoch),
                    Some(at) => Ok(self.line(boot, host, at as nat)),
                },
            },
        }
    }

    /// Writes out the field set.
    pub fn build_fields(&self) -> (fields: String)
        ensures
            fields@ == self.fields(),
    {
        let mut fields = String::new();
        push_integer_field(&mut fields, "available_memory", self.available_memory);
        fields.append(",");
        push_integer_field(&mut fields, "free_memory", self.free_memory);
        fields.append(",");
        push_integer_field(&mut fields, "used_memory", self.used_memory);
        fields.append(",");
        push_integer_field(&mut fields, "free_swap", self.free_swap);
        fields.append(",");
        push_integer_field(&mut fields, "used_swap", self.used_swap);
        fields.append(",");
        push_integer_field(&mut fields, "total_swap", self.total_swap);
        fields.append(",");
        push_float_field(&mut fields, "global_cpu_usage", self.global_cpu_usage.as_str());
        assert(fields@ =~= self.fields());
        fields
    }

    /// Encodes the system as one measurement line. `boot_time` is the boot
    /// time as it goes into the line.
    pub fn encode(&self, boot_time: &str, host_name: &str, timestamp: u128) -> (line: String)
        ensures
            line@ == self.line(boot_time@, host_name@, timestamp as nat),
    {
        let tags = build_tags(boot_time, host_name);
        let fields = self.build_fields();
        encode("system_usage", tags.as_str(), fields.as_str(), timestamp)
    }
}

/// The lines of one system report.
#[derive(Debug)]
pub struct SystemData {
    pub lines: Vec<String>,
}

impl Default for SystemData {
    fn default() -> (data: Self)
        ensures
            data.lines@.len() == 0,
    {
        SystemData { lines: Vec::new() }
    }
}

/// The report that an outcome makes: its one line and nothing else, or its
/// error.
pub open spec fn report_of(outcome: Result<Seq<char>, CollectError>) -> Result<
    Seq<Seq<char>>,
    CollectError,
> {
    match outcome {
        Ok(line) => Ok(seq![line]),
        Err(e) => Err(e),
    }
}

/// Whether `r` is what the report of `readings` comes to for some answers of
/// the machine.
pub open spec fn is_system_result(
    readings: SystemFacts,
    r: Result<Seq<Seq<char>>, CollectError>,
) -> bool {
    exists|boot_time: u64, host_name: Option<Seq<char>>, millis: Option<u128>|
        r == report_of(#[trigger] readings.outcome(boot_time, host_name, millis))
}

/// The lines of a report, or its error.
pub open spec fn system_result(r: Result<SystemData, CollectError>) -> Result<
    Seq<Seq<char>>,
    CollectError,
> {
    match r {
        Ok(data) => Ok(data.lines.deep_view()),
        Err(e) => Err(e),
    }
}

/// Trusted: `sysinfo::System`, the handle to the machine's memory and CPUs,
/// as a value that cannot be looked into.
#[verifier::external_type_specification]
#[verifier::external_body]
pub struct ExSystem(System);

/// The readings that a handle holds since its last refreshes.
pub uninterp spec fn system_held(handle: System) -> SystemFacts;

/// Trusted: `System::new` makes a handle that holds nothing yet.
pub assume_specification[ System::new ]() -> System;

/// Trusted: `System::refresh_all` reads all that the handle can hold.
/// Nothing is claimed of what it holds afterwards.
pub assume_specification[ System::refresh_all ](handle: &mut System);

/// Whether two readings agree in memory and swap.
pub open spec fn same_memory(before: SystemFacts, after: SystemFacts) -> bool {
    &&& after.available_memory == before.available_memory
    &&& after.free_memory == before.free_memory
    &&& after.used_memory == before.used_memory
    &&& after.free_swap == before.free_swap
    &&& after.used_swap == before.used_swap
    &&& after.total_swap == before.total_swap
}

/// Trusted: `System::refresh_cpu_all` reads the CPU times anew and works out
/// the usage since the refresh before. It writes to what the handle holds of
/// the CPUs and to nothing else: memory and swap stay as they were. Nothing
/// is claimed of the usage.
pub assume_specification[ System::refresh_cpu_all ](handle: &mut System)
    ensures
        same_memory(system_held(*old(handle)), system_held(*final(handle))),
;

/// Trusted: `System::refresh_memory` reads memory and swap anew. Nothing is
/// claimed of what the handle holds afterwards.
pub assume_specification[ System::refresh_memory ](handle: &mut System);

/// Trusted: `System::boot_time` gives the time at which the machine was
/// started, in seconds since the Unix epoch. Nothing is claimed of it.
pub assume_specification[ System::boot_time ]() -> u64;

/// The readings of a handle as plain values.
///
/// Trusted: copies what the getters of `System` return: the values that the
/// last refreshes stored, and for the used memory and swap the difference of
/// two of them. The CPU usage is written out with its `Display`.
#[verifier::external_body]
fn read_system(handle: &System) -> (facts: SystemFacts)
    ensures
        facts == system_held(*handle),
{
    SystemFacts {
        available_memory: handle.available_memory(),
        free_memory: handle.free_memory(),
        used_memory: handle.used_memory(),
        free_swap: handle.free_swap(),
        used_swap: handle.used_swap(),
        total_swap: handle.total_swap(),
        global_cpu_usage: handle.global_cpu_usage().to_string(),
    }
}

/// The system source. It owns its handle for as long as it lives.
///
/// The CPU usage is measured between two refreshes of the CPU times.
/// `sample_cpu` makes the first and `gather_facts` the second: between the
/// two the caller lets pass at least sysinfo's `MINIMUM_CPU_UPDATE_INTERVAL`,
/// or the usage says nothing.
#[derive(Debug)]
pub struct SystemMonitor {
    inner: System,
}

impl SystemMonitor {
    /// The readings that the source holds.
    pub closed spec fn readings(&self) -> SystemFacts {
        system_held(self.inner)
    }

    /// A source with the readings that the machine gives now.
    pub fn new() -> Self {
        let mut sys = System::new();
        sys.refresh_all();
        SystemMonitor { inner: sys }
    }

    /// The readings that the source holds, as plain values.
    pub fn snapshot(&self) -> (facts: SystemFacts)
        ensures
            facts == self.readings(),
    {
        read_system(&self.inner)
    }

    /// Reads the CPU times: the start of the span over which the next
    /// `gather_facts` measures the usage. Memory and swap stay as the source
    /// holds them; the usage is the machine's to say.
    pub fn sample_cpu(&mut self)
        ensures
            same_memory(old(self).readings(), final(self).readings()),
    {
        self.inner.refresh_cpu_all();
    }

    /// Reads the CPU times again, and memory and swap, then reports the one
    /// line of the system.
    pub fn gather_facts(&mut self) -> (r: Result<SystemData, CollectError>)
        ensures
            is_system_result(final(self).readings(), system_result(r)),
            r matches Ok(data) ==> data.lines@.len() == 1 && final(self).readings().is_line(
                data.lines@[0]@,
            ),
    {
        self.inner.refresh_cpu_all();
        self.inner.refresh_memory();
        self.gather()
    }

    /// Reports the one line of the system from what the source holds, without
    /// a refresh.
    ///
    /// Asks the machine for the boot time, then for the host's name, then
    /// for the time, and fails at the first that it does not get. The report
    /// is what these answers come to: the line of the readings for them, or
    /// the error of the first that is missing.
    pub fn gather(&self) -> (r: Result<SystemData, CollectError>)
        ensures
            is_system_result(self.readings(), system_result(r)),
            r matches Ok(data) ==> data.lines@.len() == 1 && self.readings().is_line(
                data.lines@[0]@,
            ),
    {
        let boot_time = System::boot_time();
        let boot_text = match boot_time_tag(boot_time) {
            Ok(text) => text,
            Err(e) => {
                assert(Err::<Seq<Seq<char>>, CollectError>(e) == report_of(
                    self.readings().outcome(boot_time, None, None),
                ));
                return Err(e);
            },
        };
        let (host_name, timestamp) = match read_line_context() {
            Ok(context) => context,
            Err(e) => {
                proof {
                    let host: Option<Seq<char>> = if e == CollectError::HostNameUnavailable {
                        None
                    } else {
                        Some(Seq::empty())
                    };
                    assert(Err::<Seq<Seq<char>>, CollectError>(e) == report_of(
                        self.readings().outcome(boot_time, host, None),
                    ));
                }
                return Err(e);
            },
        };
        let facts = self.snapshot();
        let line = facts.encode(boot_text.as_str(), host_name.as_str(), timestamp);
        let mut data = SystemData::default();
        data.lines.push(line);
        assert(line@ == self.readings().line(
            boot_time_text(boot_time)->0,
            host_name@,
            timestamp as nat,
        ));
        assert(data.lines.deep_view() =~= seq![line@]);
        assert(Ok::<Seq<Seq<char>>, CollectError>(data.lines.deep_view()) == report_of(
            self.readings().outcome(boot_time, Some(host_name@), Some(timestamp)),
        ));
        Ok(data)
    }
}

/// Where the machine gives a boot time that is a date, a host name and a
/// time, the report holds exactly one line: that of the readings for these
/// answers, however many CPUs the machine has.
pub proof fn lemma_system_reported(
    system: SystemFacts,
    boot_time: u64,
    host_name: Seq<char>,
    at: u128,
)
    requires
        boot_time_text(boot_time) is Some,
    ensures
        report_of(system.outcome(boot_time, Some(host_name), Some(at))) == Ok::<
            Seq<Seq<char>>,
            CollectError,
        >(seq![system.line(boot_time_text(boot_time)->0, host_name, at as nat)]),
{
}

/// Two reports of the same readings, on a machine that keeps its boot time
/// and its host name and gives a time whenever it is asked, hold one line
/// each, the same but for the timestamps. Without a refresh the source
/// repeats itself.
pub proof fn lemma_system_reported_twice(
    system: SystemFacts,
    boot_time: u64,
    host_name: Seq<char>,
    at: u128,
    then: u128,
)
    requires
        boot_time_text(boot_time) is Some,
    ensures
        report_of(system.outcome(boot_time, Some(host_name), Some(at))) matches Ok(a)
            && report_of(system.outcome(boot_time, Some(host_name), Some(then))) matches Ok(b)
            && a.len() == 1 && b.len() == 1 && same_but_for_timestamp(a[0], b[0]) && (at == then
            ==> a == b),
{
    lemma_same_but_for_timestamp(
        "system_usage"@,
        system_tags(boot_time_text(boot_time)->0, host_name),
        system.fields(),
        at as nat,
        then as nat,
    );
}

} // verus!
