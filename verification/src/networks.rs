//! The network source: one `network_usage` line for every interface that the
//! machine lists.

use vstd::prelude::*;
use vstd::multiset::Multiset;
use sysinfo::{NetworkData, Networks};
use crate::line::{
    encode, integer_field, lemma_same_but_for_timestamp, measurement, push_integer_field, push_tag,
    same_but_for_timestamp, tag,
};
use crate::platform::{
    answer_behind, answered, answers_of, collected, lemma_collected_all, lemma_collected_error,
    lemma_collected_prefix, read_line_context, CollectError,
};

verus! {

/// The readings of one network interface. Each counter comes twice: for the
/// time between the last two refreshes, and in total.
#[derive(Clone, Debug)]
pub struct NetworkFacts {
    pub interface: String,
    /// Six bytes in hexadecimal, with colons between them.
    pub mac_address: String,
    pub received: u64,
    pub total_received: u64,
    pub transmitted: u64,
    pub total_transmitted: u64,
    pub packets_received: u64,
    pub total_packets_received: u64,
    pub packets_transmitted: u64,
    pub total_packets_transmitted: u64,
    pub errors_on_received: u64,
    pub total_errors_on_received: u64,
    pub errors_on_transmitted: u64,
    pub total_errors_on_transmitted: u64,
}

impl NetworkFacts {
    /// The tag set of the interface's line.
    pub open spec fn tags(&self, host_name: Seq<char>) -> Seq<char> {
        tag("interface"@, self.interface@) + ","@ + tag("mac_address"@, self.mac_address@) + ","@
            + tag("host_name"@, host_name)
    }

    /// The fields that count bytes.
    pub open spec fn byte_fields(&self) -> Seq<char> {
        integer_field("received"@, self.received as nat) + ","@ + integer_field(
            "total_received"@,
            self.total_received as nat,
        ) + ","@ + integer_field("transmitted"@, self.transmitted as nat) + ","@ + integer_field(
            "total_transmitted"@,
            self.total_transmitted as nat,
        )
    }

    /// The fields that count packets.
    pub open spec fn packet_fields(&self) -> Seq<char> {
        integer_field("packets_received"@, self.packets_received as nat) + ","@ + integer_field(
            "total_packets_received"@,
            self.total_packets_received as nat,
        ) + ","@ + integer_field("packets_transmitted"@, self.packets_transmitted as nat) + ","@
            + integer_field("total_packets_transmitted"@, self.total_packets_transmitted as nat)
    }

    /// The fields that count errors.
    pub open spec fn error_fields(&self) -> Seq<char> {
        integer_field("errors_on_received"@, self.errors_on_received as nat) + ","@
            + integer_field("total_errors_on_received"@, self.total_errors_on_received as nat)
            + ","@ + integer_field("errors_on_transmitted"@, self.errors_on_transmitted as nat)
            + ","@ + integer_field(
            "total_errors_on_transmitted"@,
            self.total_errors_on_transmitted as nat,
        )
    }

    /// The field set of the interface's line: bytes, then packets, then
    /// errors.
    pub open spec fn fields(&self) -> Seq<char> {
        self.byte_fields() + ","@ + self.packet_fields() + ","@ + self.error_fields()
    }

    /// The interface's line for a host and a time.
    pub open spec fn line(&self, host_name: Seq<char>, timestamp: nat) -> Seq<char> {
        measurement("network_usage"@, self.tags(host_name), self.fields(), timestamp)
    }

    /// Whether `line` is the interface's line for a host and some time.
    pub open spec fn is_line_of_host(&self, host_name: Seq<char>, line: Seq<char>) -> bool {
        exists|timestamp: nat| line == #[trigger] self.line(host_name, timestamp)
    }

    /// Whether `line` is the interface's line for some host and some time.
    pub open spec fn is_line(&self, line: Seq<char>) -> bool {
        exists|host_name: Seq<char>| #[trigger] self.is_line_of_host(host_name, line)
    }

    /// What asking for the interface's line comes to, for what the machine
    /// answers: the line for the host name and the time answered, or the
    /// error for what the answer lacks.
    pub open spec fn entry(&self, answer: (Option<Seq<char>>, Option<u128>)) -> Result<
        Seq<char>,
        CollectError,
    > {
        match answered(answer.0, answer.1) {
            Ok((host_name, timestamp)) => Ok(self.line(host_name, timestamp)),
            Err(e) => Err(e),
        }
    }

    /// Writes out the tag set.
    pub fn build_tags(&self, host_name: &str) -> (tags: String)
        ensures
            tags@ == self.tags(host_name@),
    {
        let mut tags = String::new();
        push_tag(&mut tags, "interface", self.interface.as_str());
        tags.append(",");
        push_tag(&mut tags, "mac_address", self.mac_address.as_str());
        tags.append(",");
        push_tag(&mut tags, "host_name", host_name);
        assert(tags@ =~= self.tags(host_name@));
        tags
    }

    fn push_byte_fields(&self, out: &mut String)
        ensures
            final(out)@ == old(out)@ + self.byte_fields(),
    {
        push_integer_field(out, "received", self.received);
        out.append(",");
        push_integer_field(out, "total_received", self.total_received);
        out.append(",");
        push_integer_field(out, "transmitted", self.transmitted);
        out.append(",");
        push_integer_field(out, "total_transmitted", self.total_transmitted);
        assert(out@ =~= old(out)@ + self.byte_fields());
    }

    fn push_packet_fields(&self, out: &mut String)
        ensures
            final(out)@ == old(out)@ + self.packet_fields(),
    {
        push_integer_field(out, "packets_received", self.packets_received);
        out.append(",");
        push_integer_field(out, "total_packets_received", self.total_packets_received);
        out.append(",");
        push_integer_field(out, "packets_transmitted", self.packets_transmitted);
        out.append(",");
        push_integer_field(out, "total_packets_transmitted", self.total_packets_transmitted);
        assert(out@ =~= old(out)@ + self.packet_fields());
    }

    fn push_error_fields(&self, out: &mut String)
        ensures
            final(out)@ == old(out)@ + self.error_fields(),
    {
        push_integer_field(out, "errors_on_received", self.errors_on_received);
        out.append(",");
        push_integer_field(out, "total_errors_on_received", self.total_errors_on_received);
        out.append(",");
        push_integer_field(out, "errors_on_transmitted", self.errors_on_transmitted);
        out.append(",");
        push_integer_field(out, "total_errors_on_transmitted", self.total_errors_on_transmitted);
        assert(out@ =~= old(out)@ + self.error_fields());
    }

    /// Writes out the field set.
    pub fn build_fields(&self) -> (fields: String)
        ensures
            fields@ == self.fields(),
    {
        let mut fields = String::new();
        self.push_byte_fields(&mut fields);
        fields.append(",");
        self.push_packet_fields(&mut fields);
        fields.append(",");
        self.push_error_fields(&mut fields);
        assert(fields@ =~= self.fields());
        fields
    }

    /// Encodes the interface as one measurement line.
    pub fn encode(&self, host_name: &str, timestamp: u128) -> (line: String)
        ensures
            line@ == self.line(host_name@, timestamp as nat),
    {
        let tags = self.build_tags(host_name);
        let fields = self.build_fields();
        encode("network_usage", tags.as_str(), fields.as_str(), timestamp)
    }
}

/// Whether `lines` holds one line for each of `interfaces`, in their order,
/// each for some host name and some time.
pub open spec fn reports_interfaces_in_order(
    interfaces: Seq<NetworkFacts>,
    lines: Seq<Seq<char>>,
) -> bool {
    &&& lines.len() == interfaces.len()
    &&& forall|i: int| 0 <= i < interfaces.len() ==> #[trigger] interfaces[i].is_line(lines[i])
}

/// Whether `lines` holds one line for each of `interfaces`, in some order.
pub open spec fn reports_interfaces(
    interfaces: Multiset<NetworkFacts>,
    lines: Seq<Seq<char>>,
) -> bool {
    exists|order: Seq<NetworkFacts>|
        order.to_multiset() == interfaces && #[trigger] reports_interfaces_in_order(order, lines)
}

/// The entries of a report: for each interface what asking for its line
/// comes to, the machine being asked anew for every line.
pub open spec fn interface_entries(
    interfaces: Seq<NetworkFacts>,
    answers: Seq<(Option<Seq<char>>, Option<u128>)>,
) -> Seq<Result<Seq<char>, CollectError>> {
    Seq::new(interfaces.len(), |i: int| interfaces[i].entry(answers[i]))
}

/// What the report of `interfaces`, taken in this order, comes to for the
/// machine's answers, one for each interface: one line for each interface,
/// in this order, or the error of the first answer that lacks something.
pub open spec fn interfaces_outcome(
    interfaces: Seq<NetworkFacts>,
    answers: Seq<(Option<Seq<char>>, Option<u128>)>,
) -> Result<Seq<Seq<char>>, CollectError> {
    collected(interface_entries(interfaces, answers))
}

/// Whether `r` is what the report of `interfaces` comes to, taken in some
/// order and for some answers of the machine.
pub open spec fn is_interfaces_result(
    interfaces: Multiset<NetworkFacts>,
    r: Result<Seq<Seq<char>>, CollectError>,
) -> bool {
    exists|order: Seq<NetworkFacts>, answers: Seq<(Option<Seq<char>>, Option<u128>)>|
        order.to_multiset() == interfaces && answers.len() == order.len() && r
            == #[trigger] interfaces_outcome(order, answers)
}

/// The lines of a report, or its error.
pub open spec fn interfaces_result(r: Result<NetworksData, CollectError>) -> Result<
    Seq<Seq<char>>,
    CollectError,
> {
    match r {
        Ok(data) => Ok(data.lines.deep_view()),
        Err(e) => Err(e),
    }
}

/// The lines of one network report.
#[derive(Debug)]
pub struct NetworksData {
    pub lines: Vec<String>,
}

impl Default for NetworksData {
    fn default() -> (data: Self)
        ensures
            data.lines@.len() == 0,
    {
        NetworksData { lines: Vec::new() }
    }
}

/// Trusted: `sysinfo::Networks`, the handle to the machine's network
/// interfaces, as a value that cannot be looked into.
#[verifier::external_type_specification]
#[verifier::external_body]
pub struct ExNetworks(Networks);

/// Trusted: `sysinfo::NetworkData`, one interface of a handle, as a value
/// that cannot be looked into. The handle's own traits name it.
#[verifier::external_type_specification]
#[verifier::external_body]
pub struct ExNetworkData(NetworkData);

/// The interfaces that a handle holds since its last refresh. The handle
/// keeps them in a hash map, so they have no order.
pub uninterp spec fn interfaces_listed(handle: Networks) -> Multiset<NetworkFacts>;

/// Trusted: `Networks::new_with_refreshed_list` makes a handle and fills it
/// with the interfaces that the operating system reports. Nothing is claimed
/// of them.
pub assume_specification[ Networks::new_with_refreshed_list ]() -> Networks;

/// Trusted: `Networks::refresh` reads the interfaces anew into the handle,
/// and with `true` drops those that are gone. Nothing is claimed of what it
/// holds afterwards.
pub assume_specification[ Networks::refresh ](
    handle: &mut Networks,
    remove_not_listed_interfaces: bool,
);

/// The interfaces of a handle as plain readings, in the order in which the
/// handle's map hands them out.
///
/// Trusted: walks `Networks::list` and copies from each entry its key, the
/// interface's name, and what the getters of its `NetworkData` return: the
/// values that the last refresh stored. The address is written out with its
/// `Display`.
#[verifier::external_body]
fn list_interfaces(handle: &Networks) -> (interfaces: Vec<NetworkFacts>)
    ensures
        interfaces@.to_multiset() == interfaces_listed(*handle),
{
    let mut interfaces = Vec::new();
    for (name, d) in handle.list() {
        interfaces.push(NetworkFacts {
            interface: name.clone(), mac_address: d.mac_address().to_string(),
            received: d.received(), total_received: d.total_received(),
            transmitted: d.transmitted(), total_transmitted: d.total_transmitted(),
            packets_received: d.packets_received(), total_packets_received: d.total_packets_received(),
            packets_transmitted: d.packets_transmitted(),
            total_packets_transmitted: d.total_packets_transmitted(),
            errors_on_received: d.errors_on_received(), total_errors_on_received: d.total_errors_on_received(),
            errors_on_transmitted: d.errors_on_transmitted(),
            total_errors_on_transmitted: d.total_errors_on_transmitted(),
        });
    }
    interfaces
}

/// The network source. It owns its handle for as long as it lives: the
/// cumulative counters are the handle's.
#[derive(Debug)]
pub struct NetworksMonitor {
    inner: Networks,
}

impl NetworksMonitor {
    /// The interfaces that the source holds.
    pub closed spec fn interfaces(&self) -> Multiset<NetworkFacts> {
        interfaces_listed(self.inner)
    }

    /// A source with the interfaces that the machine lists now.
    pub fn new() -> Self {
        NetworksMonitor { inner: Networks::new_with_refreshed_list() }
    }

    /// The interfaces that the source holds, as plain readings.
    pub fn snapshot(&self) -> (interfaces: Vec<NetworkFacts>)
        ensures
            interfaces@.to_multiset() == self.interfaces(),
    {
        list_interfaces(&self.inner)
    }

    /// Reads the interfaces anew.
    pub fn refresh(&mut self) {
        self.inner.refresh(true);
    }

    /// Refreshes the source, then reports one line for each interface.
    ///
    /// Fails only where the machine gives no host name or no time for a
    /// line; with no interface there is nothing to ask, and the report is
    /// empty.
    pub fn gather_facts(&mut self) -> (r: Result<NetworksData, CollectError>)
        ensures
            is_interfaces_result(final(self).interfaces(), interfaces_result(r)),
            match r {
                Ok(data) => reports_interfaces(final(self).interfaces(), data.lines.deep_view()),
                Err(e) => final(self).interfaces().len() > 0 && e
                    != CollectError::BootTimeOutOfRange,
            },
    {
        self.refresh();
        self.gather()
    }

    /// Reports one line for each interface that the source holds, without a
    /// refresh, in the order in which the handle hands them out. The machine
    /// is asked for its host name and the time anew for every line; the
    /// report is what its answers come to.
    pub fn gather(&self) -> (r: Result<NetworksData, CollectError>)
        ensures
            is_interfaces_result(self.interfaces(), interfaces_result(r)),
            match r {
                Ok(data) => reports_interfaces(self.interfaces(), data.lines.deep_view()),
                Err(e) => self.interfaces().len() > 0 && e != CollectError::BootTimeOutOfRange,
            },
    {
        let interfaces = self.snapshot();
        proof {
            interfaces@.to_multiset_ensures();
        }
        let mut data = NetworksData::default();
        let ghost mut answers: Seq<(Option<Seq<char>>, Option<u128>)> = Seq::empty();
        let mut i: usize = 0;
        assert(data.lines.deep_view() =~= Seq::<Seq<char>>::empty());
        assert(interface_entries(interfaces@.take(0), answers).len() == 0);
        while i < interfaces.len()
            invariant
                i <= interfaces.len(),
                interfaces@.to_multiset() == self.interfaces(),
                interfaces@.len() == self.interfaces().len(),
                answers.len() == i,
                reports_interfaces_in_order(interfaces@.take(i as int), data.lines.deep_view()),
                interfaces_outcome(interfaces@.take(i as int), answers) == Ok::<
                    Seq<Seq<char>>,
                    CollectError,
                >(data.lines.deep_view()),
            decreases interfaces.len() - i,
        {
            let context = read_line_context();
            let ghost answer = answer_behind(context);
            let ghost before = data.lines.deep_view();
            let ghost entries = interface_entries(interfaces@.take(i as int), answers);
            let (host_name, timestamp) = match context {
                Ok(context) => context,
                Err(e) => {
                    proof {
                        let all = answers.push(answer) + Seq::new(
                            (interfaces.len() - i - 1) as nat,
                            |k: int| (None::<Seq<char>>, None::<u128>),
                        );
                        let whole = interface_entries(interfaces@, all);
                        assert forall|k: int| 0 <= k < i implies (#[trigger] whole[k]) is Ok by {
                            assert(whole[k] == entries[k]);
                            lemma_collected_prefix(entries, k);
                        }
                        lemma_collected_error(whole, i as int);
                        assert(is_interfaces_result(
                            self.interfaces(),
                            interfaces_outcome(interfaces@, all),
                        ));
                    }
                    return Err(e);
                },
            };
            let line = interfaces[i].encode(host_name.as_str(), timestamp);
            data.lines.push(line);
            proof {
                let after = data.lines.deep_view();
                assert(after =~= before.push(line@));
                let done = interfaces@.take(i + 1);
                assert forall|k: int| 0 <= k < done.len() implies #[trigger] done[k].is_line(
                    after[k],
                ) by {
                    if k < i {
                        assert(interfaces@.take(i as int)[k].is_line(before[k]));
                    } else {
                        assert(after[k] == done[k].line(host_name@, timestamp as nat));
                        assert(done[k].is_line_of_host(host_name@, after[k]));
                    }
                }
                answers = answers.push(answer);
                let grown = interface_entries(done, answers);
                assert(grown.drop_last() =~= entries);
                assert(grown.last() == Ok::<Seq<char>, CollectError>(line@));
            }
            i = i + 1;
        }
        assert(interfaces@.take(interfaces.len() as int) =~= interfaces@);
        assert(is_interfaces_result(
            self.interfaces(),
            interfaces_outcome(interfaces@, answers),
        ));
        Ok(data)
    }
}

/// A report holds as many lines as the source holds interfaces.
pub proof fn lemma_one_line_for_each_interface(
    interfaces: Multiset<NetworkFacts>,
    lines: Seq<Seq<char>>,
)
    requires
        reports_interfaces(interfaces, lines),
    ensures
        lines.len() == interfaces.len(),
{
    let order = choose|order: Seq<NetworkFacts>|
        order.to_multiset() == interfaces && #[trigger] reports_interfaces_in_order(order, lines);
    order.to_multiset_ensures();
}

/// Where the machine answers every time, the report holds one line for each
/// interface, in the order in which they were taken: the line of that
/// interface for the host name and the time that were answered for it. No
/// interface is left out, none comes twice.
pub proof fn lemma_every_interface_reported(
    interfaces: Seq<NetworkFacts>,
    answers: Seq<(Option<Seq<char>>, Option<u128>)>,
)
    requires
        answers.len() == interfaces.len(),
        forall|i: int|
            0 <= i < answers.len() ==> (#[trigger] answers[i]).0 is Some && answers[i].1 is Some,
    ensures
        interfaces_outcome(interfaces, answers) matches Ok(lines) && lines.len()
            == interfaces.len() && forall|i: int|
            0 <= i < interfaces.len() ==> #[trigger] lines[i] == interfaces[i].line(
                answers[i].0->0,
                answers[i].1->0 as nat,
            ),
{
    let entries = interface_entries(interfaces, answers);
    assert forall|i: int| 0 <= i < entries.len() implies (#[trigger] entries[i]) is Ok by {
        assert(answers[i].0 is Some);
    }
    lemma_collected_all(entries);
    let lines = collected(entries)->Ok_0;
    assert forall|i: int|
        0 <= i < interfaces.len() implies #[trigger] lines[i] == interfaces[i].line(
        answers[i].0->0,
        answers[i].1->0 as nat,
    ) by {
        assert(answers[i].0 is Some);
        assert(entries[i] == Ok::<Seq<char>, CollectError>(lines[i]));
    }
}

/// Two reports of the same interfaces, taken in the same order on a machine
/// that keeps its host name and gives a time whenever it is asked, hold as
/// many lines as there are interfaces, and line for line the same but for
/// the timestamps; with the same times they are the same. Without a refresh
/// a source repeats itself: gathering moves no counter.
pub proof fn lemma_interfaces_reported_twice(
    interfaces: Seq<NetworkFacts>,
    host_name: Seq<char>,
    first: Seq<u128>,
    second: Seq<u128>,
)
    requires
        first.len() == interfaces.len(),
        second.len() == interfaces.len(),
    ensures
        interfaces_outcome(interfaces, answers_of(host_name, first)) matches Ok(a)
            && interfaces_outcome(interfaces, answers_of(host_name, second)) matches Ok(b)
            && a.len() == interfaces.len() && b.len() == interfaces.len() && (forall|i: int|
            0 <= i < interfaces.len() ==> #[trigger] same_but_for_timestamp(a[i], b[i])) && (first
            == second ==> a == b),
{
    lemma_every_interface_reported(interfaces, answers_of(host_name, first));
    lemma_every_interface_reported(interfaces, answers_of(host_name, second));
    let a = interfaces_outcome(interfaces, answers_of(host_name, first))->Ok_0;
    let b = interfaces_outcome(interfaces, answers_of(host_name, second))->Ok_0;
    assert forall|i: int| 0 <= i < interfaces.len() implies #[trigger] same_but_for_timestamp(
        a[i],
        b[i],
    ) by {
        assert(a[i] == interfaces[i].line(host_name, first[i] as nat));
        assert(b[i] == interfaces[i].line(host_name, second[i] as nat));
        lemma_same_but_for_timestamp(
            "network_usage"@,
            interfaces[i].tags(host_name),
            interfaces[i].fields(),
            first[i] as nat,
            second[i] as nat,
        );
    }
}

} // verus!
