//! The aggregator: the four sources, asked in a fixed order, and the batch
//! that their lines make.

use vstd::prelude::*;
use vstd::multiset::Multiset;
use crate::disks::{is_disks_result, reports_disks, DiskFacts, DisksMonitor};
use crate::networks::{
    is_interfaces_result, lemma_one_line_for_each_interface, reports_interfaces, NetworkFacts,
    NetworksMonitor,
};
use crate::platform::CollectError;
use crate::sensors::{is_sensors_result, reports_sensors, SensorFacts, SensorsMonitor};
use crate::system::{is_system_result, same_memory, SystemFacts, SystemMonitor};
use crate::text::{joined, lemma_joined_splits, push_char, split};

verus! {

/// The lines of one cycle, in the order of the sources: disks, network
/// interfaces, sensors, system.
#[derive(Debug)]
pub struct SystemStats {
    pub lines: Vec<String>,
}

impl Default for SystemStats {
    fn default() -> (stats: Self)
        ensures
            stats.lines@.len() == 0,
    {
        SystemStats { lines: Vec::new() }
    }
}

impl SystemStats {
    /// The batch: the lines with a newline between each two, and none after
    /// the last.
    pub fn payload(&self) -> (batch: String)
        ensures
            batch@ == joined(self.lines.deep_view()),
    {
        let mut batch = String::new();
        let mut i: usize = 0;
        while i < self.lines.len()
            invariant
                i <= self.lines.len(),
                batch@ == joined(self.lines.deep_view().take(i as int)),
            decreases self.lines.len() - i,
        {
            let ghost done = self.lines.deep_view().take(i + 1);
            assert(done.drop_last() =~= self.lines.deep_view().take(i as int));
            assert(done.last() == self.lines@[i as int]@);
            if i > 0 {
                push_char(&mut batch, '\n');
            }
            batch.append(self.lines[i].as_str());
            i = i + 1;
        }
        assert(self.lines.deep_view().take(self.lines.len() as int) =~= self.lines.deep_view());
        batch
    }
}

/// Whether `lines` is a report of the four sources one after the other:
/// the disks in their order, the interfaces in some order, the sensors in
/// their order, then the one line of the system.
pub open spec fn reports_all(
    disks: Seq<DiskFacts>,
    interfaces: Multiset<NetworkFacts>,
    sensors: Seq<SensorFacts>,
    system: SystemFacts,
    lines: Seq<Seq<char>>,
) -> bool {
    exists|d: Seq<Seq<char>>, n: Seq<Seq<char>>, s: Seq<Seq<char>>, y: Seq<char>|
        {
            &&& reports_disks(disks, d)
            &&& reports_interfaces(interfaces, n)
            &&& reports_sensors(sensors, s)
            &&& system.is_line(y)
            &&& lines == #[trigger] (d + n + s).push(y)
        }
}

/// A report of the four sources holds one line for each disk, interface and
/// sensor, and one for the system.
pub proof fn lemma_one_line_for_each(
    disks: Seq<DiskFacts>,
    interfaces: Multiset<NetworkFacts>,
    sensors: Seq<SensorFacts>,
    system: SystemFacts,
    lines: Seq<Seq<char>>,
)
    requires
        reports_all(disks, interfaces, sensors, system, lines),
    ensures
        lines.len() == disks.len() + interfaces.len() + sensors.len() + 1,
{
    let (d, n, s, y) = choose|d: Seq<Seq<char>>, n: Seq<Seq<char>>, s: Seq<Seq<char>>, y: Seq<char>|
        {
            &&& reports_disks(disks, d)
            &&& reports_interfaces(interfaces, n)
            &&& reports_sensors(sensors, s)
            &&& system.is_line(y)
            &&& lines == #[trigger] (d + n + s).push(y)
        };
    lemma_one_line_for_each_interface(interfaces, n);
}

/// The batch of a report of the four sources falls back into the lines of
/// the report: one for each disk, interface and sensor and one for the
/// system, with a newline between each two and none after the last. This
/// holds of lines that hold no newline themselves.
pub proof fn lemma_batch_holds_every_line(
    disks: Seq<DiskFacts>,
    interfaces: Multiset<NetworkFacts>,
    sensors: Seq<SensorFacts>,
    system: SystemFacts,
    lines: Seq<Seq<char>>,
)
    requires
        reports_all(disks, interfaces, sensors, system, lines),
        forall|i: int| 0 <= i < lines.len() ==> !(#[trigger] lines[i]).contains('\n'),
    ensures
        split(joined(lines)) == lines,
        split(joined(lines)).len() == disks.len() + interfaces.len() + sensors.len() + 1,
{
    lemma_one_line_for_each(disks, interfaces, sensors, system, lines);
    lemma_joined_splits(lines);
}

/// One of the four sources, by the measurement that it reports.
#[derive(Clone, Copy, Debug, PartialEq, Eq, Structural)]
pub enum Source {
    DiskUsage,
    NetworkUsage,
    SensorData,
    SystemUsage,
}

/// A source that could not report, and why.
#[derive(Clone, Copy, Debug, PartialEq, Eq, Structural)]
pub struct GatherError {
    pub source: Source,
    pub error: CollectError,
}

impl GatherError {
    /// The error in words: the source, then the reason.
    pub fn message(&self) -> (text: String)
        ensures
            text@ == match self.source {
                Source::DiskUsage => "Could not retrieve disks data: "@,
                Source::NetworkUsage => "Could not retrieve networks data: "@,
                Source::SensorData => "Could not retrieve sensors data: "@,
                Source::SystemUsage => "Could not retrieve system data: "@,
            } + self.error.message_text(),
    {
        let mut text = match self.source {
            Source::DiskUsage => String::from_str("Could not retrieve disks data: "),
            Source::NetworkUsage => String::from_str("Could not retrieve networks data: "),
            Source::SensorData => String::from_str("Could not retrieve sensors data: "),
            Source::SystemUsage => String::from_str("Could not retrieve system data: "),
        };
        let reason = self.error.message();
        text.append(reason.as_str());
        text
    }
}

/// What the four sources give, taken as one report: all their lines, disks
/// first, then interfaces, sensors and the system, each list whole and in
/// its own order; or the error of the first source that failed, with that
/// source.
pub open spec fn combined(
    d: Result<Seq<Seq<char>>, CollectError>,
    n: Result<Seq<Seq<char>>, CollectError>,
    s: Result<Seq<Seq<char>>, CollectError>,
    y: Result<Seq<Seq<char>>, CollectError>,
) -> Result<Seq<Seq<char>>, GatherError> {
    match d {
        Err(error) => Err(GatherError { source: Source::DiskUsage, error }),
        Ok(disks) => match n {
            Err(error) => Err(GatherError { source: Source::NetworkUsage, error }),
            Ok(networks) => match s {
                Err(error) => Err(GatherError { source: Source::SensorData, error }),
                Ok(sensors) => match y {
                    Err(error) => Err(GatherError { source: Source::SystemUsage, error }),
                    Ok(system) => Ok(disks + networks + sensors + system),
                },
            },
        },
    }
}

/// The lines of a source: none where it failed.
pub open spec fn lines_of(part: Result<Seq<Seq<char>>, CollectError>) -> Seq<Seq<char>> {
    match part {
        Ok(lines) => lines,
        Err(_) => Seq::empty(),
    }
}

/// The failure of a source: none where it gave lines.
pub open spec fn failure_of(source: Source, part: Result<Seq<Seq<char>>, CollectError>) -> Seq<
    GatherError,
> {
    match part {
        Ok(_) => Seq::empty(),
        Err(error) => seq![GatherError { source, error }],
    }
}

/// The lines that the four sources give where each stands for itself: those
/// of every source that did not fail, in the order of the sources.
pub open spec fn available(
    d: Result<Seq<Seq<char>>, CollectError>,
    n: Result<Seq<Seq<char>>, CollectError>,
    s: Result<Seq<Seq<char>>, CollectError>,
    y: Result<Seq<Seq<char>>, CollectError>,
) -> Seq<Seq<char>> {
    lines_of(d) + lines_of(n) + lines_of(s) + lines_of(y)
}

/// The sources that failed, each with its error, in the order of the
/// sources.
pub open spec fn failures(
    d: Result<Seq<Seq<char>>, CollectError>,
    n: Result<Seq<Seq<char>>, CollectError>,
    s: Result<Seq<Seq<char>>, CollectError>,
    y: Result<Seq<Seq<char>>, CollectError>,
) -> Seq<GatherError> {
    failure_of(Source::DiskUsage, d) + failure_of(Source::NetworkUsage, n) + failure_of(
        Source::SensorData,
        s,
    ) + failure_of(Source::SystemUsage, y)
}

/// The lines that a source handed over, or its error.
pub open spec fn lines_result(r: Result<Vec<String>, CollectError>) -> Result<
    Seq<Seq<char>>,
    CollectError,
> {
    match r {
        Ok(lines) => Ok(lines.deep_view()),
        Err(e) => Err(e),
    }
}

/// The lines of a report of all sources, or its error.
pub open spec fn stats_result(r: Result<SystemStats, GatherError>) -> Result<
    Seq<Seq<char>>,
    GatherError,
> {
    match r {
        Ok(stats) => Ok(stats.lines.deep_view()),
        Err(e) => Err(e),
    }
}

/// Whether `d`, `n`, `s` and `y` are what the four sources come to, each for
/// some answers of the machine.
pub open spec fn are_results(
    disks: Seq<DiskFacts>,
    interfaces: Multiset<NetworkFacts>,
    sensors: Seq<SensorFacts>,
    system: SystemFacts,
    d: Result<Seq<Seq<char>>, CollectError>,
    n: Result<Seq<Seq<char>>, CollectError>,
    s: Result<Seq<Seq<char>>, CollectError>,
    y: Result<Seq<Seq<char>>, CollectError>,
) -> bool {
    &&& is_disks_result(disks, d)
    &&& is_interfaces_result(interfaces, n)
    &&& is_sensors_result(sensors, s)
    &&& is_system_result(system, y)
}

/// Four sources that all gave lines come to one report that holds every
/// line: the four lists one after the other, none added, left out, moved or
/// changed, so as many lines as the four lists together.
pub proof fn lemma_combined_holds_every_line(
    d: Seq<Seq<char>>,
    n: Seq<Seq<char>>,
    s: Seq<Seq<char>>,
    y: Seq<Seq<char>>,
)
    ensures
        combined(Ok(d), Ok(n), Ok(s), Ok(y)) == Ok::<Seq<Seq<char>>, GatherError>(d + n + s + y),
        (d + n + s + y).len() == d.len() + n.len() + s.len() + y.len(),
{
}

/// Where no source failed, taking each source for itself gives the report
/// of all.
pub proof fn lemma_available_without_failures(
    d: Result<Seq<Seq<char>>, CollectError>,
    n: Result<Seq<Seq<char>>, CollectError>,
    s: Result<Seq<Seq<char>>, CollectError>,
    y: Result<Seq<Seq<char>>, CollectError>,
)
    requires
        failures(d, n, s, y).len() == 0,
    ensures
        combined(d, n, s, y) == Ok::<Seq<Seq<char>>, GatherError>(available(d, n, s, y)),
{
}

/// Takes the results of the four sources as one report: all their lines in
/// the order of the sources, or the first failure.
pub fn combine(
    disks: Result<Vec<String>, CollectError>,
    networks: Result<Vec<String>, CollectError>,
    sensors: Result<Vec<String>, CollectError>,
    system: Result<Vec<String>, CollectError>,
) -> (r: Result<SystemStats, GatherError>)
    ensures
        stats_result(r) == combined(
            lines_result(disks),
            lines_result(networks),
            lines_result(sensors),
            lines_result(system),
        ),
{
    let mut disks = match disks {
        Ok(lines) => lines,
        Err(error) => {
            return Err(GatherError { source: Source::DiskUsage, error });
        },
    };
    let mut networks = match networks {
        Ok(lines) => lines,
        Err(error) => {
            return Err(GatherError { source: Source::NetworkUsage, error });
        },
    };
    let mut sensors = match sensors {
        Ok(lines) => lines,
        Err(error) => {
            return Err(GatherError { source: Source::SensorData, error });
        },
    };
    let mut system = match system {
        Ok(lines) => lines,
        Err(error) => {
            return Err(GatherError { source: Source::SystemUsage, error });
        },
    };
    let ghost all = disks.deep_view() + networks.deep_view() + sensors.deep_view()
        + system.deep_view();
    let mut stats = SystemStats::default();
    stats.lines.append(&mut disks);
    stats.lines.append(&mut networks);
    stats.lines.append(&mut sensors);
    stats.lines.append(&mut system);
    assert(stats.lines.deep_view() =~= all);
    Ok(stats)
}

/// Takes the results of the four sources each for itself: the lines of
/// those that gave lines, in the order of the sources, and the failures of
/// the others.
pub fn combine_available(
    disks: Result<Vec<String>, CollectError>,
    networks: Result<Vec<String>, CollectError>,
    sensors: Result<Vec<String>, CollectError>,
    system: Result<Vec<String>, CollectError>,
) -> (r: (SystemStats, Vec<GatherError>))
    ensures
        r.0.lines.deep_view() == available(
            lines_result(disks),
            lines_result(networks),
            lines_result(sensors),
            lines_result(system),
        ),
        r.1@ == failures(
            lines_result(disks),
            lines_result(networks),
            lines_result(sensors),
            lines_result(system),
        ),
{
    let ghost d = lines_result(disks);
    let ghost n = lines_result(networks);
    let ghost s = lines_result(sensors);
    let ghost y = lines_result(system);
    let mut stats = SystemStats::default();
    let mut failed: Vec<GatherError> = Vec::new();
    match disks {
        Ok(mut lines) => {
            stats.lines.append(&mut lines);
        },
        Err(error) => {
            failed.push(GatherError { source: Source::DiskUsage, error });
        },
    }
    assert(stats.lines.deep_view() =~= lines_of(d));
    assert(failed@ =~= failure_of(Source::DiskUsage, d));
    match networks {
        Ok(mut lines) => {
            stats.lines.append(&mut lines);
        },
        Err(error) => {
            failed.push(GatherError { source: Source::NetworkUsage, error });
        },
    }
    assert(stats.lines.deep_view() =~= lines_of(d) + lines_of(n));
    assert(failed@ =~= failure_of(Source::DiskUsage, d) + failure_of(Source::NetworkUsage, n));
    match sensors {
        Ok(mut lines) => {
            stats.lines.append(&mut lines);
        },
        Err(error) => {
            failed.push(GatherError { source: Source::SensorData, error });
        },
    }
    assert(stats.lines.deep_view() =~= lines_of(d) + lines_of(n) + lines_of(s));
    assert(failed@ =~= failure_of(Source::DiskUsage, d) + failure_of(Source::NetworkUsage, n)
        + failure_of(Source::SensorData, s));
    match system {
        Ok(mut lines) => {
            stats.lines.append(&mut lines);
        },
        Err(error) => {
            failed.push(GatherError { source: Source::SystemUsage, error });
        },
    }
    assert(stats.lines.deep_view() =~= available(d, n, s, y));
    assert(failed@ =~= failures(d, n, s, y));
    (stats, failed)
}

/// The aggregator. It owns one source of each kind for as long as it lives.
#[derive(Debug)]
pub struct StatsMonitor {
    disks_monitor: DisksMonitor,
    networks_monitor: NetworksMonitor,
    sensors_monitor: SensorsMonitor,
    system_monitor: SystemMonitor,
}

impl StatsMonitor {
    /// The disks that the disk source holds.
    pub closed spec fn disks(&self) -> Seq<DiskFacts> {
        self.disks_monitor.disks()
    }

    /// The interfaces that the network source holds.
    pub closed spec fn interfaces(&self) -> Multiset<NetworkFacts> {
        self.networks_monitor.interfaces()
    }

    /// The sensors that the sensor source holds.
    pub closed spec fn sensors(&self) -> Seq<SensorFacts> {
        self.sensors_monitor.sensors()
    }

    /// The readings that the system source holds.
    pub closed spec fn system(&self) -> SystemFacts {
        self.system_monitor.readings()
    }

    /// An aggregator with four sources, each with what the machine gives
    /// now.
    pub fn new() -> Self {
        Self {
            disks_monitor: DisksMonitor::new(),
            networks_monitor: NetworksMonitor::new(),
            sensors_monitor: SensorsMonitor::new(),
            system_monitor: SystemMonitor::new(),
        }
    }

    /// Starts the span over which the next `gather_facts` measures the CPU
    /// usage. Between the two the caller lets pass at least sysinfo's
    /// `MINIMUM_CPU_UPDATE_INTERVAL`.
    ///
    /// Only the system source is touched, and of what it holds only the
    /// CPUs: disks, interfaces, sensors, memory and swap stay as they were.
    pub fn sample_cpu(&mut self)
        ensures
            final(self).disks() == old(self).disks(),
            final(self).interfaces() == old(self).interfaces(),
            final(self).sensors() == old(self).sensors(),
            same_memory(old(self).system(), final(self).system()),
    {
        self.system_monitor.sample_cpu();
    }

    /// Refreshes each source and asks it for its lines: disks, network
    /// interfaces, sensors, system.
    fn ask_sources(&mut self) -> (r: (
        Result<Vec<String>, CollectError>,
        Result<Vec<String>, CollectError>,
        Result<Vec<String>, CollectError>,
        Result<Vec<String>, CollectError>,
    ))
        ensures
            are_results(
                final(self).disks(),
                final(self).interfaces(),
                final(self).sensors(),
                final(self).system(),
                lines_result(r.0),
                lines_result(r.1),
                lines_result(r.2),
                lines_result(r.3),
            ),
            r.0 matches Ok(lines) ==> reports_disks(final(self).disks(), lines.deep_view()),
            r.1 matches Ok(lines) ==> reports_interfaces(
                final(self).interfaces(),
                lines.deep_view(),
            ),
            r.2 matches Ok(lines) ==> reports_sensors(final(self).sensors(), lines.deep_view()),
            r.3 matches Ok(lines) ==> lines@.len() == 1 && final(self).system().is_line(
                lines@[0]@,
            ),
    {
        let disks = match self.disks_monitor.gather_facts() {
            Ok(data) => Ok(data.lines),
            Err(e) => Err(e),
        };
        let networks = match self.networks_monitor.gather_facts() {
            Ok(data) => Ok(data.lines),
            Err(e) => Err(e),
        };
        let sensors = match self.sensors_monitor.gather_facts() {
            Ok(data) => Ok(data.lines),
            Err(e) => Err(e),
        };
        let system = match self.system_monitor.gather_facts() {
            Ok(data) => Ok(data.lines),
            Err(e) => Err(e),
        };
        (disks, networks, sensors, system)
    }

    /// Refreshes each source and gathers its lines, each source for itself:
    /// disks, network interfaces, sensors, system. A source that fails adds
    /// no line and is named among the failures with its error; the others
    /// report all the same.
    pub fn gather_available(&mut self) -> (r: (SystemStats, Vec<GatherError>))
        ensures
            exists|
                d: Result<Seq<Seq<char>>, CollectError>,
                n: Result<Seq<Seq<char>>, CollectError>,
                s: Result<Seq<Seq<char>>, CollectError>,
                y: Result<Seq<Seq<char>>, CollectError>,
            |
                #![trigger available(d, n, s, y)]
                {
                    &&& are_results(
                        final(self).disks(),
                        final(self).interfaces(),
                        final(self).sensors(),
                        final(self).system(),
                        d,
                        n,
                        s,
                        y,
                    )
                    &&& r.0.lines.deep_view() == available(d, n, s, y)
                    &&& r.1@ == failures(d, n, s, y)
                },
    {
        let (disks, networks, sensors, system) = self.ask_sources();
        let ghost d = lines_result(disks);
        let ghost n = lines_result(networks);
        let ghost s = lines_result(sensors);
        let ghost y = lines_result(system);
        let r = combine_available(disks, networks, sensors, system);
        assert(r.0.lines.deep_view() == available(d, n, s, y));
        r
    }

    /// Refreshes each source and gathers its lines: disks, network
    /// interfaces, sensors, system. Nothing is left out and nothing is merged:
    /// two lines that agree in their tags both stay.
    ///
    /// Every source is asked. Where one fails, the report fails with the
    /// first that did, and names it.
    pub fn gather_facts(&mut self) -> (r: Result<SystemStats, GatherError>)
        ensures
            exists|
                d: Result<Seq<Seq<char>>, CollectError>,
                n: Result<Seq<Seq<char>>, CollectError>,
                s: Result<Seq<Seq<char>>, CollectError>,
                y: Result<Seq<Seq<char>>, CollectError>,
            |
                #![trigger combined(d, n, s, y)]
                {
                    &&& are_results(
                        final(self).disks(),
                        final(self).interfaces(),
                        final(self).sensors(),
                        final(self).system(),
                        d,
                        n,
                        s,
                        y,
                    )
                    &&& stats_result(r) == combined(d, n, s, y)
                },
            r matches Ok(stats) ==> reports_all(
                final(self).disks(),
                final(self).interfaces(),
                final(self).sensors(),
                final(self).system(),
                stats.lines.deep_view(),
            ),
    {
        let (disks, networks, sensors, system) = self.ask_sources();
        let ghost d = lines_result(disks);
        let ghost n = lines_result(networks);
        let ghost s = lines_result(sensors);
        let ghost y = lines_result(system);
        let r = combine(disks, networks, sensors, system);
        assert(stats_result(r) == combined(d, n, s, y));
        proof {
            if r is Ok {
                assert(r->Ok_0.lines.deep_view() =~= (d->Ok_0 + n->Ok_0 + s->Ok_0).push(
                    y->Ok_0[0],
                ));
            }
        }
        r
    }
}

} // verus!
