//! Building the index: from the bytes of a dictionary file to what is written, in
//! the order in which it is written.

use vstd::prelude::*;

use crate::leaf::StructuralError;
use crate::parser::{parse, parse_events, Parsed, ParsedView};
use crate::record::{Entry, EntryView, Record, RecordView};
use crate::source::{gunzip, gunzipped, read_events, xml_events};

verus! {

/// Why no index was built.
#[derive(Debug, Clone, Copy, PartialEq, Eq, Structural)]
pub enum BuildError {
    /// The source could not be unpacked.
    Source,
    /// The document does not have the structure of a dictionary.
    Structure(StructuralError),
}

/// One step of a write session.
#[derive(Debug, Clone, PartialEq, Eq)]
pub enum WriteOp {
    /// Remove everything that the index holds.
    Clear,
    /// Add a record.
    Add(Record),
    /// Make what was written visible to readers.
    Commit,
}

pub enum WriteOpView {
    Clear,
    Add(RecordView),
    Commit,
}

impl View for WriteOp {
    type V = WriteOpView;

    open spec fn view(&self) -> WriteOpView {
        match self {
            WriteOp::Clear => WriteOpView::Clear,
            WriteOp::Add(record) => WriteOpView::Add(record@),
            WriteOp::Commit => WriteOpView::Commit,
        }
    }
}

impl DeepView for WriteOp {
    type V = WriteOpView;

    open spec fn deep_view(&self) -> WriteOpView {
        self@
    }
}

/// A full rebuild: the index is cleared, every record is added in its order, and
/// only then is the session committed.
pub open spec fn write_plan(records: Seq<RecordView>) -> Seq<WriteOpView> {
    Seq::new(
        records.len() + 2,
        |i: int|
            if i == 0 {
                WriteOpView::Clear
            } else if i <= records.len() {
                WriteOpView::Add(records[i - 1])
            } else {
                WriteOpView::Commit
            },
    )
}

/// What an index holds during a write session: the records that readers see, and
/// the records that they will see once the session is committed.
pub struct Session {
    pub visible: Seq<RecordView>,
    pub staged: Seq<RecordView>,
}

impl Session {
    /// The session after one step: clearing and adding touch what is staged, and
    /// only a commit changes what readers see.
    pub open spec fn after(self, op: WriteOpView) -> Session {
        match op {
            WriteOpView::Clear => Session { staged: Seq::empty(), ..self },
            WriteOpView::Add(record) => Session { staged: self.staged.push(record), ..self },
            WriteOpView::Commit => Session { visible: self.staged, ..self },
        }
    }

    /// The session after the steps `ops`, in their order.
    pub open spec fn after_all(self, ops: Seq<WriteOpView>) -> Session
        decreases ops.len(),
    {
        if ops.len() == 0 {
            self
        } else {
            self.after_all(ops.drop_last()).after(ops.last())
        }
    }
}

/// Before its commit a rebuild has staged the records it has added, and has
/// changed nothing of what readers see.
proof fn lemma_plan_stages(records: Seq<RecordView>, before: Session, n: int)
    requires
        1 <= n <= records.len() + 1,
    ensures
        before.after_all(write_plan(records).take(n)).visible == before.visible,
        before.after_all(write_plan(records).take(n)).staged == records.take(n - 1),
    decreases n,
{
    let plan = write_plan(records);
    let steps = plan.take(n);
    assert(steps.drop_last() =~= plan.take(n - 1));
    if n == 1 {
        assert(steps.drop_last() =~= Seq::<WriteOpView>::empty());
        assert(before.after_all(steps.drop_last()) == before);
        assert(records.take(0) =~= Seq::<RecordView>::empty());
    } else {
        lemma_plan_stages(records, before, n - 1);
        assert(steps.last() == WriteOpView::Add(records[n - 2]));
        assert(records.take(n - 2).push(records[n - 2]) =~= records.take(n - 1));
    }
}

/// A rebuild that stops before its commit, at whatever step, leaves what readers
/// see as it was.
pub proof fn lemma_nothing_shows_before_commit(
    records: Seq<RecordView>,
    before: Session,
    n: int,
)
    requires
        0 <= n <= records.len() + 1,
    ensures
        before.after_all(write_plan(records).take(n)).visible == before.visible,
{
    if n == 0 {
        assert(write_plan(records).take(0) =~= Seq::<WriteOpView>::empty());
    } else {
        lemma_plan_stages(records, before, n);
    }
}

/// A rebuild replaces everything: whatever the index held, after the session
/// readers see the records of the build, in their order, and nothing else.
pub proof fn lemma_rebuild_replaces_everything(records: Seq<RecordView>, before: Session)
    ensures
        before.after_all(write_plan(records)).visible == records,
{
    let plan = write_plan(records);
    let n = records.len() as int + 1;
    assert(plan.drop_last() =~= plan.take(n));
    assert(plan.last() == WriteOpView::Commit);
    assert(records.take(n - 1) =~= records);
    lemma_plan_stages(records, before, n);
}

/// Rebuilding twice from the same records gives what rebuilding once gives.
pub proof fn lemma_rebuilding_twice_changes_nothing(records: Seq<RecordView>, before: Session)
    ensures
        before.after_all(write_plan(records)).after_all(write_plan(records)).visible
            == before.after_all(write_plan(records)).visible,
{
    lemma_rebuild_replaces_everything(records, before);
    lemma_rebuild_replaces_everything(records, before.after_all(write_plan(records)));
}

/// The write session that rebuilds the index from `records`.
pub fn plan_writes(records: Vec<Record>) -> (ops: Vec<WriteOp>)
    ensures
        ops.deep_view() == write_plan(records.deep_view()),
{
    let ghost all = records.deep_view();
    let mut ops: Vec<WriteOp> = Vec::new();
    ops.push(WriteOp::Clear);
    for record in it: records
        invariant
            it.seq() == records@,
            all == records.deep_view(),
            ops.len() == it.index() + 1,
            ops@[0]@ == WriteOpView::Clear,
            forall|i: int| 1 <= i <= it.index() ==> (#[trigger] ops@[i])@ == WriteOpView::Add(all[i - 1]),
    {
        assert(record@ == all[it.index()]);
        ops.push(WriteOp::Add(record));
    }
    ops.push(WriteOp::Commit);
    assert(ops.deep_view() =~= write_plan(all));
    ops
}

/// After how many records progress is reported.
pub const PROGRESS_INTERVAL: u64 = 1000;

/// Whether progress is to be reported after the record that brought the count to
/// `count`: after every thousandth.
pub fn progress_due(count: u64) -> (due: bool)
    ensures
        due == (count > 0 && count % PROGRESS_INTERVAL == 0),
{
    count > 0 && count % PROGRESS_INTERVAL == 0
}

/// The memory, in bytes, that a write session may use for buffering.
pub const WRITER_MEMORY: usize = 50_000_000;

/// What a build hands over: the write session, the number of records that it adds,
/// and the entries that were left out of it because they have no valid sequence
/// number.
#[derive(Debug, Clone, PartialEq, Eq)]
pub struct IndexBuild {
    pub ops: Vec<WriteOp>,
    pub added: usize,
    pub rejected: Vec<Entry>,
}

pub struct IndexBuildView {
    pub ops: Seq<WriteOpView>,
    pub added: nat,
    pub rejected: Seq<EntryView>,
}

impl View for IndexBuild {
    type V = IndexBuildView;

    open spec fn view(&self) -> IndexBuildView {
        IndexBuildView {
            ops: self.ops.deep_view(),
            added: self.added as nat,
            rejected: self.rejected.deep_view(),
        }
    }
}

/// The build that a walk leads to.
pub open spec fn build_of_parsed(parsed: ParsedView) -> IndexBuildView {
    IndexBuildView {
        ops: write_plan(parsed.records),
        added: parsed.records.len(),
        rejected: parsed.rejected,
    }
}

/// The build that the events of a document lead to.
pub open spec fn build_from_events(parsed: Result<ParsedView, StructuralError>) -> Result<
    IndexBuildView,
    BuildError,
> {
    match parsed {
        Ok(parsed) => Ok(build_of_parsed(parsed)),
        Err(e) => Err(BuildError::Structure(e)),
    }
}

/// The build that a packed dictionary file leads to.
pub open spec fn build_of(source: Seq<u8>) -> Result<IndexBuildView, BuildError> {
    match gunzipped(source) {
        Some(document) => build_from_events(parse(xml_events(document))),
        None => Err(BuildError::Source),
    }
}

/// Turns the outcome of a walk into a build.
pub fn build(parsed: Result<Parsed, StructuralError>) -> (outcome: Result<IndexBuild, BuildError>)
    ensures
        match (parsed, outcome) {
            (Ok(parsed), Ok(build)) => build@ == build_of_parsed(parsed@),
            (Err(e), Err(f)) => f == BuildError::Structure(e),
            _ => false,
        },
{
    match parsed {
        Ok(parsed) => {
            let added = parsed.records.len();
            Ok(IndexBuild { ops: plan_writes(parsed.records), added, rejected: parsed.rejected })
        },
        Err(e) => Err(BuildError::Structure(e)),
    }
}

/// Walks through an XML document and returns the records of its entries.
pub fn parse_document(document: &[u8]) -> (outcome: Result<Parsed, StructuralError>)
    ensures
        match outcome {
            Ok(parsed) => parse(xml_events(document@)) == Ok::<ParsedView, StructuralError>(
                parsed@,
            ),
            Err(e) => parse(xml_events(document@)) == Err::<ParsedView, StructuralError>(e),
        },
{
    let events = read_events(document);
    parse_events(events.as_slice())
}

/// Builds the index from a packed dictionary file: unpacks it, walks through its
/// document, and plans the write session. Nothing is to be written where this
/// fails.
pub fn create_index(source: &[u8]) -> (outcome: Result<IndexBuild, BuildError>)
    ensures
        match outcome {
            Ok(build) => build_of(source@) == Ok::<IndexBuildView, BuildError>(build@),
            Err(e) => build_of(source@) == Err::<IndexBuildView, BuildError>(e),
        },
{
    match gunzip(source) {
        Some(document) => build(parse_document(document.as_slice())),
        None => Err(BuildError::Source),
    }
}

} // verus!
