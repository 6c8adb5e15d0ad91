//! The disk source: one `disk_usage` line for every disk that the machine
//! lists.

use vstd::prelude::*;
use sysinfo::{Disk, Disks};
use crate::line::{
    encode, integer_field, lemma_same_but_for_timestamp, measurement, push_integer_field, push_tag,
    same_but_for_timestamp, tag,
};
use crate::platform::{
    answer_behind, answered, answers_of, collected, lemma_collected_all, lemma_collected_error,
    lemma_collected_prefix, read_line_context, CollectError,
};

verus! {

/// The readings of one disk.
#[derive(Clone, Debug)]
pub struct DiskFacts {
    pub name: String,
    pub mount: String,
    pub file_system: String,
    /// `HDD`, `SSD` or `Unknown`.
    pub kind: String,
    /// Bytes.
    pub available_space: u64,
    /// Bytes.
    pub total_space: u64,
    /// Bytes written in all.
    pub total_written: u64,
    /// Bytes written between the last two refreshes.
    pub written_since: u64,
    /// Bytes read in all.
    pub total_read: u64,
    /// Bytes read between the last two refreshes.
    pub read_since: u64,
}

impl DiskFacts {
    /// The tag set of the disk's line.
    pub open spec fn tags(&self, host_name: Seq<char>) -> Seq<char> {
        tag("name"@, self.name@) + ","@ + tag("mount"@, self.mount@) + ","@ + tag(
            "file_system"@,
            self.file_system@,
        ) + ","@ + tag("kind"@, self.kind@) + ","@ + tag("host_name"@, host_name)
    }

    /// The field set of the disk's line.
    pub open spec fn fields(&self) -> Seq<char> {
        integer_field("available_space"@, self.available_space as nat) + ","@ + integer_field(
            "total_space"@,
            self.total_space as nat,
        ) + ","@ + integer_field("total_written"@, self.total_written as nat) + ","@
            + integer_field("written_since"@, self.written_since as nat) + ","@ + integer_field(
            "total_read"@,
            self.total_read as nat,
        ) + ","@ + integer_field("read_since"@, self.read_since as nat)
    }

    /// The disk's line for a host and a time.
    pub open spec fn line(&self, host_name: Seq<char>, timestamp: nat) -> Seq<char> {
        measurement("disk_usage"@, self.tags(host_name), self.fields(), timestamp)
    }

    /// Whether `line` is the disk's line for a host and some time.
    pub open spec fn is_line_of_host(&self, host_name: Seq<char>, line: Seq<char>) -> bool {
        exists|timestamp: nat| line == #[trigger] self.line(host_name, timestamp)
    }

    /// Whether `line` is the disk's line for some host and some time.
    pub open spec fn is_line(&self, line: Seq<char>) -> bool {
        exists|host_name: Seq<char>| #[trigger] self.is_line_of_host(host_name, line)
    }

    /// What asking for the disk's line comes to, for what the machine
    /// answers: the line for the host name and the time answered, or the
    /// error for what the answer lacks.
    pub open spec fn entry(&self, answer: (Option<Seq<char>>, Option<u128>)) -> Result<
        Seq<char>,
        CollectError,
    > {
        match answered(answer.0, answer.1) {
            Ok((host_name, timestamp)) => Ok(self.line(host_name, timestamp)),
            Err(e) => Err(e),
        }
    }

    /// Writes out the tag set.
    pub fn build_tags(&self, host_name: &str) -> (tags: String)
        ensures
            tags@ == self.tags(host_name@),
    {
        let mut tags = String::new();
        push_tag(&mut tags, "name", self.name.as_str());
        tags.append(",");
        push_tag(&mut tags, "mount", self.mount.as_str());
        tags.append(",");
        push_tag(&mut tags, "file_system", self.file_system.as_str());
        tags.append(",");
        push_tag(&mut tags, "kind", self.kind.as_str());
        tags.append(",");
        push_tag(&mut tags, "host_name", host_name);
        assert(tags@ =~= self.tags(host_name@));
        tags
    }

    /// Writes out the field set.
    pub fn build_fields(&self) -> (fields: String)
        ensures
            fields@ == self.fields(),
    {
        let mut fields = String::new();
        push_integer_field(&mut fields, "available_space", self.available_space);
        fields.append(",");
        push_integer_field(&mut fields, "total_space", self.total_space);
        fields.append(",");
        push_integer_field(&mut fields, "total_written", self.total_written);
        fields.append(",");
        push_integer_field(&mut fields, "written_since", self.written_since);
        fields.append(",");
        push_integer_field(&mut fields, "total_read", self.total_read);
        fields.append(",");
        push_integer_field(&mut fields, "read_since", self.read_since);
        assert(fields@ =~= self.fields());
        fields
    }

    /// Encodes the disk as one measurement line.
    pub fn encode(&self, host_name: &str, timestamp: u128) -> (line: String)
        ensures
            line@ == self.line(host_name@, timestamp as nat),
    {
        let tags = self.build_tags(host_name);
        let fields = self.build_fields();
        encode("disk_usage", tags.as_str(), fields.as_str(), timestamp)
    }
}

/// Whether `lines` holds one line for each of `disks`, in their order, each
/// for some host name and some time.
pub open spec fn reports_disks(disks: Seq<DiskFacts>, lines: Seq<Seq<char>>) -> bool {
    &&& lines.len() == disks.len()
    &&& forall|i: int| 0 <= i < disks.len() ==> #[trigger] disks[i].is_line(lines[i])
}

/// The entries of a report: for each disk what asking for its line comes
/// to, the machine being asked anew for every line.
pub open spec fn disk_entries(
    disks: Seq<DiskFacts>,
    answers: Seq<(Option<Seq<char>>, Option<u128>)>,
) -> Seq<Result<Seq<char>, CollectError>> {
    Seq::new(disks.len(), |i: int| disks[i].entry(answers[i]))
}

/// What the report of `disks` comes to for the machine's answers, one for
/// each disk: one line for each disk, in their order, or the error of the
/// first answer that lacks something.
pub open spec fn disks_outcome(
    disks: Seq<DiskFacts>,
    answers: Seq<(Option<Seq<char>>, Option<u128>)>,
) -> Result<Seq<Seq<char>>, CollectError> {
    collected(disk_entries(disks, answers))
}

/// Whether `r` is what the report of `disks` comes to for some answers of
/// the machine.
pub open spec fn is_disks_result(
    disks: Seq<DiskFacts>,
    r: Result<Seq<Seq<char>>, CollectError>,
) -> bool {
    exists|answers: Seq<(Option<Seq<char>>, Option<u128>)>|
        answers.len() == disks.len() && r == #[trigger] disks_outcome(disks, answers)
}

/// The lines of a report, or its error.
pub open spec fn disks_result(r: Result<DisksData, CollectError>) -> Result<
    Seq<Seq<char>>,
    CollectError,
> {
    match r {
        Ok(data) => Ok(data.lines.deep_view()),
        Err(e) => Err(e),
    }
}

/// The lines of one disk report.
#[derive(Debug)]
pub struct DisksData {
    pub lines: Vec<String>,
}

impl Default for DisksData {
    fn default() -> (data: Self)
        ensures
            data.lines@.len() == 0,
    {
        DisksData { lines: Vec::new() }
    }
}

/// Trusted: `sysinfo::Disks`, the handle to the machine's disks, as a value
/// that cannot be looked into.
#[verifier::external_type_specification]
#[verifier::external_body]
pub struct ExDisks(Disks);

/// Trusted: `sysinfo::Disk`, one disk of a handle, as a value that cannot be
/// looked into. The handle's own traits name it.
#[verifier::external_type_specification]
#[verifier::external_body]
pub struct ExDisk(Disk);

/// The disks that a handle holds since its last refresh, in its own order.
pub uninterp spec fn disks_listed(handle: Disks) -> Seq<DiskFacts>;

/// Trusted: `Disks::new_with_refreshed_list` makes a handle and fills it with
/// the disks that the operating system reports. Nothing is claimed of them.
pub assume_specification[ Disks::new_with_refreshed_list ]() -> Disks;

/// Trusted: `Disks::refresh` reads the disks anew into the handle, and with
/// `true` drops those that are gone. Nothing is claimed of what it holds
/// afterwards.
pub assume_specification[ Disks::refresh ](handle: &mut Disks, remove_not_listed_disks: bool);

/// The disks of a handle as plain readings.
///
/// Trusted: walks `Disks::list`, a slice in the handle's order, and copies
/// from each `Disk` what its getters return: the values that the last refresh
/// stored. Names and paths are written out with `display`, the kind with its
/// `Display`.
#[verifier::external_body]
fn list_disks(handle: &Disks) -> (disks: Vec<DiskFacts>)
    ensures
        disks@ == disks_listed(*handle),
{
    let mut disks = Vec::new();
    for d in handle.list() {
        let usage = d.usage();
        disks.push(DiskFacts {
            name: d.name().display().to_string(), mount: d.mount_point().display().to_string(),
            file_system: d.file_system().display().to_string(), kind: d.kind().to_string(),
            available_space: d.available_space(), total_space: d.total_space(),
            total_written: usage.total_written_bytes, written_since: usage.written_bytes,
            total_read: usage.total_read_bytes, read_since: usage.read_bytes,
        });
    }
    disks
}

/// The disk source. It owns its handle for as long as it lives: the
/// cumulative counters are the handle's.
#[derive(Debug)]
pub struct DisksMonitor {
    inner: Disks,
}

impl DisksMonitor {
    /// The disks that the source holds.
    pub closed spec fn disks(&self) -> Seq<DiskFacts> {
        disks_listed(self.inner)
    }

    /// A source with the disks that the machine lists now.
    pub fn new() -> Self {
        DisksMonitor { inner: Disks::new_with_refreshed_list() }
    }

    /// The disks that the source holds, as plain readings.
    pub fn snapshot(&self) -> (disks: Vec<DiskFacts>)
        ensures
            disks@ == self.disks(),
    {
        list_disks(&self.inner)
    }

    /// Reads the disks anew.
    pub fn refresh(&mut self) {
        self.inner.refresh(true);
    }

    /// Refreshes the source, then reports one line for each disk.
    ///
    /// Fails only where the machine gives no host name or no time for a
    /// line; with no disk there is nothing to ask, and the report is empty.
    pub fn gather_facts(&mut self) -> (r: Result<DisksData, CollectError>)
        ensures
            is_disks_result(final(self).disks(), disks_result(r)),
            match r {
                Ok(data) => reports_disks(final(self).disks(), data.lines.deep_view()),
                Err(e) => final(self).disks().len() > 0 && e != CollectError::BootTimeOutOfRange,
            },
    {
        self.refresh();
        self.gather()
    }

    /// Reports one line for each disk that the source holds, without a
    /// refresh. The machine is asked for its host name and the time anew for
    /// every line; the report is what its answers come to.
    pub fn gather(&self) -> (r: Result<DisksData, CollectError>)
        ensures
            is_disks_result(self.disks(), disks_result(r)),
            match r {
                Ok(data) => reports_disks(self.disks(), data.lines.deep_view()),
                Err(e) => self.disks().len() > 0 && e != CollectError::BootTimeOutOfRange,
            },
    {
        let disks = self.snapshot();
        let mut data = DisksData::default();
        let ghost mut answers: Seq<(Option<Seq<char>>, Option<u128>)> = Seq::empty();
        let mut i: usize = 0;
        assert(data.lines.deep_view() =~= Seq::<Seq<char>>::empty());
        assert(disk_entries(disks@.take(0), answers).len() == 0);
        while i < disks.len()
            invariant
                i <= disks.len(),
                disks@ == self.disks(),
                answers.len() == i,
                reports_disks(disks@.take(i as int), data.lines.deep_view()),
                disks_outcome(disks@.take(i as int), answers) == Ok::<
                    Seq<Seq<char>>,
                    CollectError,
                >(data.lines.deep_view()),
            decreases disks.len() - i,
        {
            let context = read_line_context();
            let ghost answer = answer_behind(context);
            let ghost before = data.lines.deep_view();
            let ghost entries = disk_entries(disks@.take(i as int), answers);
            let (host_name, timestamp) = match context {
                Ok(context) => context,
                Err(e) => {
                    proof {
                        let all = answers.push(answer) + Seq::new(
                            (disks.len() - i - 1) as nat,
                            |k: int| (None::<Seq<char>>, None::<u128>),
                        );
                        let whole = disk_entries(disks@, all);
                        assert forall|k: int| 0 <= k < i implies (#[trigger] whole[k]) is Ok by {
                            assert(whole[k] == entries[k]);
                            lemma_collected_prefix(entries, k);
                        }
                        lemma_collected_error(whole, i as int);
                        assert(is_disks_result(self.disks(), disks_outcome(disks@, all)));
                    }
                    return Err(e);
                },
            };
            let line = disks[i].encode(host_name.as_str(), timestamp);
            data.lines.push(line);
            proof {
                let after = data.lines.deep_view();
                assert(after =~= before.push(line@));
                let done = disks@.take(i + 1);
                assert forall|k: int| 0 <= k < done.len() implies #[trigger] done[k].is_line(
                    after[k],
                ) by {
                    if k < i {
                        assert(disks@.take(i as int)[k].is_line(before[k]));
                    } else {
                        assert(after[k] == done[k].line(host_name@, timestamp as nat));
                        assert(done[k].is_line_of_host(host_name@, after[k]));
                    }
                }
                answers = answers.push(answer);
                let grown = disk_entries(done, answers);
                assert(grown.drop_last() =~= entries);
                assert(grown.last() == Ok::<Seq<char>, CollectError>(line@));
            }
            i = i + 1;
        }
        assert(disks@.take(disks.len() as int) =~= disks@);
        assert(is_disks_result(self.disks(), disks_outcome(disks@, answers)));
        Ok(data)
    }
}

/// Where the machine answers every time, the report holds one line for each
/// disk, in their order: the line of that disk for the host name and the
/// time that were answered for it. No disk is left out, none comes twice.
pub proof fn lemma_every_disk_reported(
    disks: Seq<DiskFacts>,
    answers: Seq<(Option<Seq<char>>, Option<u128>)>,
)
    requires
        answers.len() == disks.len(),
        forall|i: int|
            0 <= i < answers.len() ==> (#[trigger] answers[i]).0 is Some && answers[i].1 is Some,
    ensures
        disks_outcome(disks, answers) matches Ok(lines) && lines.len() == disks.len()
            && forall|i: int|
            0 <= i < disks.len() ==> #[trigger] lines[i] == disks[i].line(
                answers[i].0->0,
                answers[i].1->0 as nat,
            ),
{
    let entries = disk_entries(disks, answers);
    assert forall|i: int| 0 <= i < entries.len() implies (#[trigger] entries[i]) is Ok by {
        assert(answers[i].0 is Some);
    }
    lemma_collected_all(entries);
    let lines = collected(entries)->Ok_0;
    assert forall|i: int| 0 <= i < disks.len() implies #[trigger] lines[i] == disks[i].line(
        answers[i].0->0,
        answers[i].1->0 as nat,
    ) by {
        assert(answers[i].0 is Some);
        assert(entries[i] == Ok::<Seq<char>, CollectError>(lines[i]));
    }
}

/// Two reports of the same disks, on a machine that keeps its host name and
/// gives a time whenever it is asked, hold as many lines as there are disks,
/// and line for line the same but for the timestamps; with the same times
/// they are the same. Without a refresh a source repeats itself.
pub proof fn lemma_disks_reported_twice(
    disks: Seq<DiskFacts>,
    host_name: Seq<char>,
    first: Seq<u128>,
    second: Seq<u128>,
)
    requires
        first.len() == disks.len(),
        second.len() == disks.len(),
    ensures
        disks_outcome(disks, answers_of(host_name, first)) matches Ok(a) && disks_outcome(
            disks,
            answers_of(host_name, second),
        ) matches Ok(b) && a.len() == disks.len() && b.len() == disks.len() && (forall|i: int|
            0 <= i < disks.len() ==> #[trigger] same_but_for_timestamp(a[i], b[i])) && (first
            == second ==> a == b),
{
    lemma_every_disk_reported(disks, answers_of(host_name, first));
    lemma_every_disk_reported(disks, answers_of(host_name, second));
    let a = disks_outcome(disks, answers_of(host_name, first))->Ok_0;
    let b = disks_outcome(disks, answers_of(host_name, second))->Ok_0;
    assert forall|i: int| 0 <= i < disks.len() implies #[trigger] same_but_for_timestamp(
        a[i],
        b[i],
    ) by {
        assert(a[i] == disks[i].line(host_name, first[i] as nat));
        assert(b[i] == disks[i].line(host_name, second[i] as nat));
        lemma_same_but_for_timestamp(
            "disk_usage"@,
            disks[i].tags(host_name),
            disks[i].fields(),
            first[i] as nat,
            second[i] as nat,
        );
    }
}

} // verus!
