//! The sensor source: one `sensor_data` line for every thermal sensor that
//! the machine lists.

use vstd::prelude::*;
use sysinfo::{Component, Components};
use crate::line::{
    encode, float_field, lemma_same_but_for_timestamp, measurement, push_float_field, push_tag,
    same_but_for_timestamp, tag,
};
use crate::platform::{
    answer_behind, answered, answers_of, collected, lemma_collected_all, lemma_collected_error,
    lemma_collected_prefix, read_line_context, CollectError,
};
use crate::text::{escape_spaces, escaped};

verus! {

/// The readings of one thermal sensor. A temperature is held as the text of
/// its number, in degrees Celsius, as it goes into the line; a sensor that
/// gives no such reading holds `None`.
#[derive(Clone, Debug)]
pub struct SensorFacts {
    pub label: String,
    pub temperature: Option<String>,
    pub max: Option<String>,
    pub critical: Option<String>,
}

/// The text that goes into the line for a reading: the reading's own, and
/// `0.0` where there is none, so that every line has every field.
pub open spec fn reading_text(reading: Option<String>) -> Seq<char> {
    match reading {
        Some(text) => text@,
        None => "0.0"@,
    }
}

/// Appends the float field `key=<text>` for a reading that may be missing.
pub fn push_reading(out: &mut String, key: &str, reading: &Option<String>)
    ensures
        final(out)@ == old(out)@ + float_field(key@, reading_text(*reading)),
{
    match reading {
        Some(text) => push_float_field(out, key, text.as_str()),
        None => push_float_field(out, key, "0.0"),
    }
}

impl SensorFacts {
    /// The tag set of the sensor's line. The label's spaces are escaped.
    pub open spec fn tags(&self, host_name: Seq<char>) -> Seq<char> {
        tag("sensor_label"@, escaped(self.label@)) + ","@ + tag("host_name"@, host_name)
    }

    /// The field set of the sensor's line.
    pub open spec fn fields(&self) -> Seq<char> {
        float_field("temperature"@, reading_text(self.temperature)) + ","@ + float_field(
            "max_temperature"@,
            reading_text(self.max),
        ) + ","@ + float_field("critical_temperature"@, reading_text(self.critical))
    }

    /// The sensor's line for a host and a time.
    pub open spec fn line(&self, host_name: Seq<char>, timestamp: nat) -> Seq<char> {
        measurement("sensor_data"@, self.tags(host_name), self.fields(), timestamp)
    }

    /// Whether `line` is the sensor's line for a host and some time.
    pub open spec fn is_line_of_host(&self, host_name: Seq<char>, line: Seq<char>) -> bool {
        exists|timestamp: nat| line == #[trigger] self.line(host_name, timestamp)
    }

    /// Whether `line` is the sensor's line for some host and some time.
    pub open spec fn is_line(&self, line: Seq<char>) -> bool {
        exists|host_name: Seq<char>| #[trigger] self.is_line_of_host(host_name, line)
    }

    /// What asking for the sensor's line comes to, for what the machine
    /// answers: the line for the host name and the time answered, or the
    /// error for what the answer lacks.
    pub open spec fn entry(&self, answer: (Option<Seq<char>>, Option<u128>)) -> Result<
        Seq<char>,
        CollectError,
    > {
        match answered(answer.0, answer.1) {
            Ok((host_name, timestamp)) => Ok(self.line(host_name, timestamp)),
            Err(e) => Err(e),
        }
    }

    /// Writes out the tag set.
    pub fn build_tags(&self, host_name: &str) -> (tags: String)
        ensures
            tags@ == self.tags(host_name@),
    {
        let label = escape_spaces(self.label.as_str());
        let mut tags = String::new();
        push_tag(&mut tags, "sensor_label", label.as_str());
        tags.append(",");
        push_tag(&mut tags, "host_name", host_name);
        assert(tags@ =~= self.tags(host_name@));
        tags
    }

    /// Writes out the field set.
    pub fn build_fields(&self) -> (fields: String)
        ensures
            fields@ == self.fields(),
    {
        let mut fields = String::new();
        push_reading(&mut fields, "temperature", &self.temperature);
        fields.append(",");
        push_reading(&mut fields, "max_temperature", &self.max);
        fields.append(",");
        push_reading(&mut fields, "critical_temperature", &self.critical);
        assert(fields@ =~= self.fields());
        fields
    }

    /// Encodes the sensor as one measurement line.
    pub fn encode(&self, host_name: &str, timestamp: u128) -> (line: String)
        ensures
            line@ == self.line(host_name@, timestamp as nat),
    {
        let tags = self.build_tags(host_name);
        let fields = self.build_fields();
        encode("sensor_data", tags.as_str(), fields.as_str(), timestamp)
    }
}

/// Whether `lines` holds one line for each of `sensors`, in their order, each
/// for some host name and some time.
pub open spec fn reports_sensors(sensors: Seq<SensorFacts>, lines: Seq<Seq<char>>) -> bool {
    &&& lines.len() == sensors.len()
    &&& forall|i: int| 0 <= i < sensors.len() ==> #[trigger] sensors[i].is_line(lines[i])
}

/// The entries of a report: for each sensor what asking for its line comes
/// to, the machine being asked anew for every line.
pub open spec fn sensor_entries(
    sensors: Seq<SensorFacts>,
    answers: Seq<(Option<Seq<char>>, Option<u128>)>,
) -> Seq<Result<Seq<char>, CollectError>> {
    Seq::new(sensors.len(), |i: int| sensors[i].entry(answers[i]))
}

/// What the report of `sensors` comes to for the machine's answers, one for
/// each sensor: one line for each sensor, in their order, or the error of
/// the first answer that lacks something.
pub open spec fn sensors_outcome(
    sensors: Seq<SensorFacts>,
    answers: Seq<(Option<Seq<char>>, Option<u128>)>,
) -> Result<Seq<Seq<char>>, CollectError> {
    collected(sensor_entries(sensors, answers))
}

/// Whether `r` is what the report of `sensors` comes to for some answers of
/// the machine.
pub open spec fn is_sensors_result(
    sensors: Seq<SensorFacts>,
    r: Result<Seq<Seq<char>>, CollectError>,
) -> bool {
    exists|answers: Seq<(Option<Seq<char>>, Option<u128>)>|
        answers.len() == sensors.len() && r == #[trigger] sensors_outcome(sensors, answers)
}

/// The lines of a report, or its error.
pub open spec fn sensors_result(r: Result<SensorsData, CollectError>) -> Result<
    Seq<Seq<char>>,
    CollectError,
> {
    match r {
        Ok(data) => Ok(data.lines.deep_view()),
        Err(e) => Err(e),
    }
}

/// The lines of one sensor report.
#[derive(Debug)]
pub struct SensorsData {
    pub lines: Vec<String>,
}

impl Default for SensorsData {
    fn default() -> (data: Self)
        ensures
            data.lines@.len() == 0,
    {
        SensorsData { lines: Vec::new() }
    }
}

/// Trusted: `sysinfo::Components`, the handle to the machine's thermal
/// sensors, as a value that cannot be looked into.
#[verifier::external_type_specification]
#[verifier::external_body]
pub struct ExComponents(Components);

/// Trusted: `sysinfo::Component`, one sensor of a handle, as a value that
/// cannot be looked into. The handle's own traits name it.
#[verifier::external_type_specification]
#[verifier::external_body]
pub struct ExComponent(Component);

/// The sensors that a handle holds since its last refresh, in its own order.
pub uninterp spec fn sensors_listed(handle: Components) -> Seq<SensorFacts>;

/// Trusted: `Components::new_with_refreshed_list` makes a handle and fills it
/// with the sensors that the operating system reports. Nothing is claimed of
/// them.
pub assume_specification[ Components::new_with_refreshed_list ]() -> Components;

/// Trusted: `Components::refresh` reads the sensors anew into the handle, and
/// with `true` drops those that are gone. Nothing is claimed of what it holds
/// afterwards.
pub assume_specification[ Components::refresh ](
    handle: &mut Components,
    remove_not_listed_components: bool,
);

/// The sensors of a handle as plain readings.
///
/// Trusted: walks `Components::list`, a slice in the handle's order, and
/// copies from each `Component` what its getters return: the values that the
/// last refresh stored. A temperature is written out with its `Display`.
#[verifier::external_body]
fn list_sensors(handle: &Components) -> (sensors: Vec<SensorFacts>)
    ensures
        sensors@ == sensors_listed(*handle),
{
    let mut sensors = Vec::new();
    for c in handle.list() {
        sensors.push(SensorFacts {
            label: c.label().to_string(),
            temperature: c.temperature().map(|t| t.to_string()),
            max: c.max().map(|t| t.to_string()),
            critical: c.critical().map(|t| t.to_string()),
        });
    }
    sensors
}

/// The sensor source. It owns its handle for as long as it lives.
#[derive(Debug)]
pub struct SensorsMonitor {
    inner: Components,
}

impl SensorsMonitor {
    /// The sensors that the source holds.
    pub closed spec fn sensors(&self) -> Seq<SensorFacts> {
        sensors_listed(self.inner)
    }

    /// A source with the sensors that the machine lists now.
    pub fn new() -> Self {
        SensorsMonitor { inner: Components::new_with_refreshed_list() }
    }

    /// The sensors that the source holds, as plain readings.
    pub fn snapshot(&self) -> (sensors: Vec<SensorFacts>)
        ensures
            sensors@ == self.sensors(),
    {
        list_sensors(&self.inner)
    }

    /// Reads the sensors anew.
    pub fn refresh(&mut self) {
        self.inner.refresh(true);
    }

    /// Refreshes the source, then reports one line for each sensor.
    ///
    /// Fails only where the machine gives no host name or no time for a
    /// line; with no sensor there is nothing to ask, and the report is empty.
    pub fn gather_facts(&mut self) -> (r: Result<SensorsData, CollectError>)
        ensures
            is_sensors_result(final(self).sensors(), sensors_result(r)),
            match r {
                Ok(data) => reports_sensors(final(self).sensors(), data.lines.deep_view()),
                Err(e) => final(self).sensors().len() > 0 && e != CollectError::BootTimeOutOfRange,
            },
    {
        self.refresh();
        self.gather()
    }

    /// Reports one line for each sensor that the source holds, without a
    /// refresh. The machine is asked for its host name and the time anew for
    /// every line; the report is what its answers come to.
    pub fn gather(&self) -> (r: Result<SensorsData, CollectError>)
        ensures
            is_sensors_result(self.sensors(), sensors_result(r)),
            match r {
                Ok(data) => reports_sensors(self.sensors(), data.lines.deep_view()),
                Err(e) => self.sensors().len() > 0 && e != CollectError::BootTimeOutOfRange,
            },
    {
        let sensors = self.snapshot();
        let mut data = SensorsData::default();
        let ghost mut answers: Seq<(Option<Seq<char>>, Option<u128>)> = Seq::empty();
        let mut i: usize = 0;
        assert(data.lines.deep_view() =~= Seq::<Seq<char>>::empty());
        assert(sensor_entries(sensors@.take(0), answers).len() == 0);
        while i < sensors.len()
            invariant
                i <= sensors.len(),
                sensors@ == self.sensors(),
                answers.len() == i,
                reports_sensors(sensors@.take(i as int), data.lines.deep_view()),
                sensors_outcome(sensors@.take(i as int), answers) == Ok::<
                    Seq<Seq<char>>,
                    CollectError,
                >(data.lines.deep_view()),
            decreases sensors.len() - i,
        {
            let context = read_line_context();
            let ghost answer = answer_behind(context);
            let ghost before = data.lines.deep_view();
            let ghost entries = sensor_entries(sensors@.take(i as int), answers);
            let (host_name, timestamp) = match context {
                Ok(context) => context,
                Err(e) => {
                    proof {
                        let all = answers.push(answer) + Seq::new(
                            (sensors.len() - i - 1) as nat,
                            |k: int| (None::<Seq<char>>, None::<u128>),
                        );
                        let whole = sensor_entries(sensors@, all);
                        assert forall|k: int| 0 <= k < i implies (#[trigger] whole[k]) is Ok by {
                            assert(whole[k] == entries[k]);
                            lemma_collected_prefix(entries, k);
                        }
                        lemma_collected_error(whole, i as int);
                        assert(is_sensors_result(self.sensors(), sensors_outcome(sensors@, all)));
                    }
                    return Err(e);
                },
            };
            let line = sensors[i].encode(host_name.as_str(), timestamp);
            data.lines.push(line);
            proof {
                let after = data.lines.deep_view();
                assert(after =~= before.push(line@));
                let done = sensors@.take(i + 1);
                assert forall|k: int| 0 <= k < done.len() implies #[trigger] done[k].is_line(
                    after[k],
                ) by {
                    if k < i {
                        assert(sensors@.take(i as int)[k].is_line(before[k]));
                    } else {
                        assert(after[k] == done[k].line(host_name@, timestamp as nat));
                        assert(done[k].is_line_of_host(host_name@, after[k]));
                    }
                }
                answers = answers.push(answer);
                let grown = sensor_entries(done, answers);
                assert(grown.drop_last() =~= entries);
                assert(grown.last() == Ok::<Seq<char>, CollectError>(line@));
            }
            i = i + 1;
        }
        assert(sensors@.take(sensors.len() as int) =~= sensors@);
        assert(is_sensors_result(self.sensors(), sensors_outcome(sensors@, answers)));
        Ok(data)
    }
}

/// Where the machine answers every time, the report holds one line for each
/// sensor, in their order: the line of that sensor for the host name and the
/// time that were answered for it, whatever readings the sensor lacks. No
/// sensor is left out, none comes twice.
pub proof fn lemma_every_sensor_reported(
    sensors: Seq<SensorFacts>,
    answers: Seq<(Option<Seq<char>>, Option<u128>)>,
)
    requires
        answers.len() == sensors.len(),
        forall|i: int|
            0 <= i < answers.len() ==> (#[trigger] answers[i]).0 is Some && answers[i].1 is Some,
    ensures
        sensors_outcome(sensors, answers) matches Ok(lines) && lines.len() == sensors.len()
            && forall|i: int|
            0 <= i < sensors.len() ==> #[trigger] lines[i] == sensors[i].line(
                answers[i].0->0,
                answers[i].1->0 as nat,
            ),
{
    let entries = sensor_entries(sensors, answers);
    assert forall|i: int| 0 <= i < entries.len() implies (#[trigger] entries[i]) is Ok by {
        assert(answers[i].0 is Some);
    }
    lemma_collected_all(entries);
    let lines = collected(entries)->Ok_0;
    assert forall|i: int| 0 <= i < sensors.len() implies #[trigger] lines[i] == sensors[i].line(
        answers[i].0->0,
        answers[i].1->0 as nat,
    ) by {
        assert(answers[i].0 is Some);
        assert(entries[i] == Ok::<Seq<char>, CollectError>(lines[i]));
    }
}

/// Two reports of the same sensors, on a machine that keeps its host name
/// and gives a time whenever it is asked, hold as many lines as there are
/// sensors, and line for line the same but for the timestamps; with the same
/// times they are the same. Without a refresh a source repeats itself.
pub proof fn lemma_sensors_reported_twice(
    sensors: Seq<SensorFacts>,
    host_name: Seq<char>,
    first: Seq<u128>,
    second: Seq<u128>,
)
    requires
        first.len() == sensors.len(),
        second.len() == sensors.len(),
    ensures
        sensors_outcome(sensors, answers_of(host_name, first)) matches Ok(a) && sensors_outcome(
            sensors,
            answers_of(host_name, second),
        ) matches Ok(b) && a.len() == sensors.len() && b.len() == sensors.len() && (forall|
            i: int,
        |
            0 <= i < sensors.len() ==> #[trigger] same_but_for_timestamp(a[i], b[i])) && (first
            == second ==> a == b),
{
    lemma_every_sensor_reported(sensors, answers_of(host_name, first));
    lemma_every_sensor_reported(sensors, answers_of(host_name, second));
    let a = sensors_outcome(sensors, answers_of(host_name, first))->Ok_0;
    let b = sensors_outcome(sensors, answers_of(host_name, second))->Ok_0;
    assert forall|i: int| 0 <= i < sensors.len() implies #[trigger] same_but_for_timestamp(
        a[i],
        b[i],
    ) by {
        assert(a[i] == sensors[i].line(host_name, first[i] as nat));
        assert(b[i] == sensors[i].line(host_name, second[i] as nat));
        lemma_same_but_for_timestamp(
            "sensor_data"@,
            sensors[i].tags(host_name),
            sensors[i].fields(),
            first[i] as nat,
            second[i] as nat,
        );
    }
}

/// A sensor without readings still has every field: each stands at `0.0`.
pub proof fn lemma_missing_readings_stand_at_zero(sensor: SensorFacts)
    requires
        sensor.temperature is None,
        sensor.max is None,
        sensor.critical is None,
    ensures
        sensor.fields() == float_field("temperature"@, "0.0"@) + ","@ + float_field(
            "max_temperature"@,
            "0.0"@,
        ) + ","@ + float_field("critical_temperature"@, "0.0"@),
{
}

} // verus!
