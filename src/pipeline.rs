//! The pipeline driver as a state machine. The caller reads the file front to
//! back, hands each line in, decodes matched lines into records, performs the
//! writes it is told to dispatch, and reports each write's outcome; the
//! machine decides what each line becomes, when a write may start, and when
//! the run is drained.
use vstd::prelude::*;
use crate::admission::{AdmissionController, AdmissionView};
use crate::decoder::{classify_line, kind_of, LineKind, LineVerdict};
use crate::identity::{blake3_hex, FileIdentityTagger};
use crate::stats::{lemma_no_new_rows, stats_after, stats_step, IngestionStats, StatsView, WriteOutcome};
use vstd::string::StringSliceAdditionalSpecFns;

verus! {

/// What the caller does next with a line.
#[derive(Debug)]
pub enum LineAction {
    /// Nothing: a blank line, or one of another kind than a handled request.
    Skip,
    /// Report a decode error on the line with this 1-based number, then go on.
    DecodeError { line_no: u64, detail: String },
    /// Decode the line into a record, to be written under the key made of
    /// this file identity and this 1-based line number.
    Decode { file_id: String, line_no: u64 },
}

/// The driver in mathematical form.
pub struct PipelineView {
    pub identity: Option<Seq<char>>,
    pub admission: AdmissionView,
    pub stats: StatsView,
    /// Lines that decoded into a record.
    pub records: nat,
    /// Writes started.
    pub dispatched: nat,
    /// Whether a decoded record waits for a permit.
    pub pending: bool,
    /// Decode errors seen (saturating).
    pub decode_errors: nat,
    /// The lines handed in so far, in file order.
    pub lines: Seq<Seq<char>>,
    /// The raw bytes of the lines handed in so far.
    pub line_bytes: Seq<Seq<u8>>,
    /// For each line handed in, whether it decoded into a record.
    pub decoded: Seq<bool>,
    /// Whether the last line matched and its decoding result is awaited.
    pub awaiting: bool,
    /// The outcomes of the finished writes, in the order they finished.
    pub outcomes: Seq<WriteOutcome>,
}

/// The number of lines that are handled-request events and decoded into a
/// record.
pub open spec fn count_records(lines: Seq<Seq<char>>, decoded: Seq<bool>) -> nat
    decreases lines.len(),
{
    if lines.len() == 0 || decoded.len() != lines.len() {
        0
    } else {
        count_records(lines.drop_last(), decoded.drop_last()) + if kind_of(lines.last())
            == LineKind::Matched && decoded.last() {
            1nat
        } else {
            0nat
        }
    }
}

/// The identity of a file: the digest of the raw bytes of its first
/// handled-request line, if it has one.
pub open spec fn file_identity_of(lines: Seq<Seq<char>>, bytes: Seq<Seq<u8>>) -> Option<Seq<char>>
    decreases lines.len(),
{
    if lines.len() == 0 || bytes.len() != lines.len() {
        None
    } else {
        match file_identity_of(lines.drop_last(), bytes.drop_last()) {
            Some(id) => Some(id),
            None => if kind_of(lines.last()) == LineKind::Matched {
                Some(blake3_hex(bytes.last()))
            } else {
                None
            },
        }
    }
}

proof fn lemma_identity_push(lines: Seq<Seq<char>>, bytes: Seq<Seq<u8>>, line: Seq<char>, b: Seq<u8>)
    requires
        lines.len() == bytes.len(),
    ensures
        file_identity_of(lines.push(line), bytes.push(b)) == match file_identity_of(lines, bytes) {
            Some(id) => Some(id),
            None => if kind_of(line) == LineKind::Matched {
                Some(blake3_hex(b))
            } else {
                None
            },
        },
{
    assert(lines.push(line).drop_last() =~= lines);
    assert(bytes.push(b).drop_last() =~= bytes);
}

proof fn lemma_identity_none(lines: Seq<Seq<char>>, bytes: Seq<Seq<u8>>)
    requires
        lines.len() == bytes.len(),
        forall|k: int| 0 <= k < lines.len() ==> kind_of(#[trigger] lines[k]) != LineKind::Matched,
    ensures
        file_identity_of(lines, bytes) is None,
    decreases lines.len(),
{
    if lines.len() > 0 {
        let l = lines.drop_last();
        assert forall|k: int| 0 <= k < l.len() implies kind_of(#[trigger] l[k]) != LineKind::Matched by {
            assert(l[k] == lines[k]);
        }
        lemma_identity_none(l, bytes.drop_last());
        assert(kind_of(lines[lines.len() - 1]) != LineKind::Matched);
    }
}

proof fn lemma_identity_first(lines: Seq<Seq<char>>, bytes: Seq<Seq<u8>>, i: int)
    requires
        lines.len() == bytes.len(),
        0 <= i < lines.len(),
        kind_of(lines[i]) == LineKind::Matched,
        forall|k: int| 0 <= k < i ==> kind_of(#[trigger] lines[k]) != LineKind::Matched,
    ensures
        file_identity_of(lines, bytes) == Some(blake3_hex(bytes[i])),
    decreases lines.len(),
{
    let l = lines.drop_last();
    let b = bytes.drop_last();
    if i == lines.len() - 1 {
        assert forall|k: int| 0 <= k < l.len() implies kind_of(#[trigger] l[k]) != LineKind::Matched by {
            assert(l[k] == lines[k]);
        }
        lemma_identity_none(l, b);
    } else {
        assert forall|k: int| 0 <= k < i implies kind_of(#[trigger] l[k]) != LineKind::Matched by {
            assert(l[k] == lines[k]);
        }
        assert(l[i] == lines[i]);
        lemma_identity_first(l, b, i);
        assert(b[i] == bytes[i]);
    }
}

/// Two files whose first handled-request lines are byte for byte equal get
/// the same identity, whatever else either file holds.
pub proof fn lemma_same_first_match_same_identity(
    lines1: Seq<Seq<char>>,
    bytes1: Seq<Seq<u8>>,
    i: int,
    lines2: Seq<Seq<char>>,
    bytes2: Seq<Seq<u8>>,
    j: int,
)
    requires
        lines1.len() == bytes1.len(),
        lines2.len() == bytes2.len(),
        0 <= i < lines1.len(),
        0 <= j < lines2.len(),
        kind_of(lines1[i]) == LineKind::Matched,
        kind_of(lines2[j]) == LineKind::Matched,
        forall|k: int| 0 <= k < i ==> kind_of(#[trigger] lines1[k]) != LineKind::Matched,
        forall|k: int| 0 <= k < j ==> kind_of(#[trigger] lines2[k]) != LineKind::Matched,
        bytes1[i] == bytes2[j],
    ensures
        file_identity_of(lines1, bytes1) == file_identity_of(lines2, bytes2),
        file_identity_of(lines1, bytes1) == Some(blake3_hex(bytes1[i])),
{
    lemma_identity_first(lines1, bytes1, i);
    lemma_identity_first(lines2, bytes2, j);
}

proof fn lemma_count_push(lines: Seq<Seq<char>>, decoded: Seq<bool>, line: Seq<char>)
    requires
        lines.len() == decoded.len(),
    ensures
        count_records(lines.push(line), decoded.push(false)) == count_records(lines, decoded),
{
    assert(lines.push(line).drop_last() =~= lines);
    assert(decoded.push(false).drop_last() =~= decoded);
}

proof fn lemma_count_settle(lines: Seq<Seq<char>>, decoded: Seq<bool>, ok: bool)
    requires
        lines.len() == decoded.len(),
        lines.len() > 0,
        !decoded.last(),
        kind_of(lines.last()) == LineKind::Matched,
    ensures
        count_records(lines, decoded.update(decoded.len() - 1, ok)) == count_records(lines, decoded)
            + if ok { 1nat } else { 0nat },
{
    let d2 = decoded.update(decoded.len() - 1, ok);
    assert(d2.drop_last() =~= decoded.drop_last());
}

/// One more, short of the largest `u64`.
pub open spec fn saturating_inc(n: nat) -> nat {
    if n < u64::MAX { n + 1 } else { n }
}

/// The state of one ingestion run.
pub struct Pipeline {
    tagger: FileIdentityTagger,
    admission: AdmissionController,
    stats: IngestionStats,
    records: u64,
    dispatched: u64,
    pending: bool,
    decode_errors: u64,
    line_count: u64,
    lines: Ghost<Seq<Seq<char>>>,
    line_bytes: Ghost<Seq<Seq<u8>>>,
    decoded: Ghost<Seq<bool>>,
    awaiting: bool,
    outcomes: Ghost<Seq<WriteOutcome>>,
}

impl View for Pipeline {
    type V = PipelineView;

    closed spec fn view(&self) -> PipelineView {
        PipelineView {
            identity: self.tagger@,
            admission: self.admission@,
            stats: self.stats@,
            records: self.records as nat,
            dispatched: self.dispatched as nat,
            pending: self.pending,
            decode_errors: self.decode_errors as nat,
            lines: self.lines@,
            line_bytes: self.line_bytes@,
            decoded: self.decoded@,
            awaiting: self.awaiting,
            outcomes: self.outcomes@,
        }
    }
}

impl Pipeline {
    /// Every started write is either in flight or counted as processed;
    /// every record is either started or the one pending; nothing is pending
    /// once input has ended; the counters, the identity and the statistics
    /// agree with the lines handed in and the outcomes reported.
    pub open spec fn wf(&self) -> bool {
        &&& 0 < self@.admission.limit
        &&& self@.admission.in_flight <= self@.admission.limit
        &&& self@.stats.inserted <= self@.stats.processed
        &&& self@.dispatched == self@.stats.processed + self@.admission.in_flight
        &&& self@.records == self@.dispatched + if self@.pending { 1nat } else { 0nat }
        &&& self@.records <= u64::MAX
        &&& (self@.admission.draining ==> !self@.pending && !self@.awaiting)
        &&& !(self@.pending && self@.awaiting)
        &&& self@.lines.len() == self@.decoded.len()
        &&& self@.lines.len() == self@.line_bytes.len()
        &&& self@.stats == stats_after(self@.outcomes)
        &&& self@.identity == file_identity_of(self@.lines, self@.line_bytes)
        &&& self@.records == count_records(self@.lines, self@.decoded)
        &&& (self@.awaiting ==> self@.lines.len() > 0 && !self@.decoded.last()
            && kind_of(self@.lines.last()) == LineKind::Matched)
    }

    closed spec fn parts_wf(&self) -> bool {
        self.admission.wf() && self.stats.wf() && self.line_count == self.lines@.len()
    }

    pub closed spec fn inv(&self) -> bool {
        self.wf() && self.parts_wf()
    }

    /// Whether the caller may hand in the next line.
    pub open spec fn reading(&self) -> bool {
        !self@.admission.draining && !self@.pending && !self@.awaiting
    }

    /// A fresh run whose writes are bounded by `limit`.
    pub fn new(limit: usize) -> (r: Self)
        requires
            limit > 0,
        ensures
            r.inv(),
            r.wf(),
            r@ == (PipelineView {
                identity: None,
                admission: AdmissionView { limit: limit as nat, in_flight: 0, draining: false },
                stats: StatsView { processed: 0, inserted: 0 },
                records: 0,
                dispatched: 0,
                pending: false,
                decode_errors: 0,
                lines: Seq::empty(),
                line_bytes: Seq::empty(),
                decoded: Seq::empty(),
                awaiting: false,
                outcomes: Seq::empty(),
            }),
    {
        let stats = IngestionStats::new();
        proof {
            assert(stats@ == StatsView { processed: 0, inserted: 0 });
        }
        Pipeline {
            tagger: FileIdentityTagger::new(),
            admission: AdmissionController::new(limit),
            stats,
            records: 0,
            dispatched: 0,
            pending: false,
            decode_errors: 0,
            line_count: 0,
            lines: Ghost(Seq::empty()),
            line_bytes: Ghost(Seq::empty()),
            decoded: Ghost(Seq::empty()),
            awaiting: false,
            outcomes: Ghost(Seq::empty()),
        }
    }

    /// Takes one line of the file: a blank line or one of another kind is
    /// skipped without a trace, text that is not JSON is a decode error, and
    /// a handled-request line is to be decoded, under the file identity that
    /// the first such line fixed.
    pub fn accept_line(&mut self, line: &str) -> (r: LineAction)
        requires
            old(self).inv(),
            old(self).reading(),
            old(self)@.lines.len() < u64::MAX,
        ensures
            final(self).inv(),
            final(self)@.lines == old(self)@.lines.push(line@),
            final(self)@.line_bytes == old(self)@.line_bytes.push(line.spec_bytes()),
            final(self)@.decoded == old(self)@.decoded.push(false),
            match kind_of(line@) {
                LineKind::Blank | LineKind::Ignored => r is Skip && final(self)@ == (PipelineView {
                    lines: final(self)@.lines,
                    line_bytes: final(self)@.line_bytes,
                    decoded: final(self)@.decoded,
                    ..old(self)@
                }),
                LineKind::Malformed => r is DecodeError && r->DecodeError_line_no == final(self)@.lines.len()
                    && final(self)@ == (PipelineView {
                    decode_errors: saturating_inc(old(self)@.decode_errors),
                    lines: final(self)@.lines,
                    line_bytes: final(self)@.line_bytes,
                    decoded: final(self)@.decoded,
                    ..old(self)@
                }),
                LineKind::Matched => match r {
                    LineAction::Decode { file_id: id, line_no } => {
                        &&& line_no == final(self)@.lines.len()
                        &&& final(self)@ == (PipelineView {
                            identity: Some(id@),
                            awaiting: true,
                            lines: final(self)@.lines,
                            line_bytes: final(self)@.line_bytes,
                            decoded: final(self)@.decoded,
                            ..old(self)@
                        })
                        &&& (old(self)@.identity is None ==> id@ == blake3_hex(line.spec_bytes()))
                        &&& (old(self)@.identity is Some ==> old(self)@.identity == Some(id@))
                    },
                    _ => false,
                },
            },
    {
        proof {
            lemma_count_push(self.lines@, self.decoded@, line@);
            lemma_identity_push(self.lines@, self.line_bytes@, line@, line.spec_bytes());
        }
        self.lines = Ghost(self.lines@.push(line@));
        self.line_bytes = Ghost(self.line_bytes@.push(line.spec_bytes()));
        self.line_count = self.line_count + 1;
        let line_no = self.line_count;
        self.decoded = Ghost(self.decoded@.push(false));
        let verdict = classify_line(line);
        match verdict {
            LineVerdict::Blank => LineAction::Skip,
            LineVerdict::Ignored => LineAction::Skip,
            LineVerdict::Malformed(e) => {
                if self.decode_errors < u64::MAX {
                    self.decode_errors = self.decode_errors + 1;
                }
                LineAction::DecodeError { line_no, detail: e }
            },
            LineVerdict::Matched => {
                let id = self.tagger.get_or_create(line);
                self.awaiting = true;
                LineAction::Decode { file_id: id, line_no }
            },
        }
    }

    /// Takes the result of decoding the matched line just handed in into a
    /// record: a record waits for a permit; a failure is a decode error.
    pub fn record_decoded(&mut self, ok: bool)
        requires
            old(self).inv(),
            old(self)@.awaiting,
            ok ==> old(self)@.records < u64::MAX,
        ensures
            final(self).inv(),
            final(self)@.decoded == old(self)@.decoded.update(old(self)@.decoded.len() - 1, ok),
            ok ==> final(self)@ == (PipelineView {
                records: old(self)@.records + 1,
                pending: true,
                awaiting: false,
                decoded: final(self)@.decoded,
                ..old(self)@
            }),
            !ok ==> final(self)@ == (PipelineView {
                decode_errors: saturating_inc(old(self)@.decode_errors),
                awaiting: false,
                decoded: final(self)@.decoded,
                ..old(self)@
            }),
    {
        proof {
            lemma_count_settle(self.lines@, self.decoded@, ok);
        }
        self.decoded = Ghost(self.decoded@.update(self.decoded@.len() - 1, ok));
        self.awaiting = false;
        if ok {
            self.records = self.records + 1;
            self.pending = true;
        } else if self.decode_errors < u64::MAX {
            self.decode_errors = self.decode_errors + 1;
        }
    }

    /// Starts the pending record's write if a permit is free. Where it
    /// returns false the caller waits for a write to finish and asks again.
    pub fn try_dispatch(&mut self) -> (r: bool)
        requires
            old(self).inv(),
            old(self)@.pending,
        ensures
            final(self).inv(),
            r == (old(self)@.admission.in_flight < old(self)@.admission.limit),
            r ==> final(self)@ == (PipelineView {
                admission: AdmissionView {
                    in_flight: old(self)@.admission.in_flight + 1,
                    ..old(self)@.admission
                },
                dispatched: old(self)@.dispatched + 1,
                pending: false,
                ..old(self)@
            }),
            !r ==> final(self)@ == old(self)@,
    {
        let admitted = self.admission.try_acquire();
        if admitted {
            self.dispatched = self.dispatched + 1;
            self.pending = false;
        }
        admitted
    }

    /// Takes the outcome of a write that has finished: its permit comes
    /// back and it is counted.
    pub fn complete(&mut self, outcome: &WriteOutcome)
        requires
            old(self).inv(),
            old(self)@.admission.in_flight > 0,
        ensures
            final(self).inv(),
            final(self)@ == (PipelineView {
                admission: AdmissionView {
                    in_flight: (old(self)@.admission.in_flight - 1) as nat,
                    ..old(self)@.admission
                },
                stats: stats_step(old(self)@.stats, *outcome),
                outcomes: old(self)@.outcomes.push(*outcome),
                ..old(self)@
            }),
    {
        proof {
            assert(self.outcomes@.push(*outcome).drop_last() =~= self.outcomes@);
        }
        self.admission.release();
        self.stats.record(outcome);
        self.outcomes = Ghost(self.outcomes@.push(*outcome));
    }

    /// Declares the end of input: from here on the caller only waits for
    /// the writes in flight.
    pub fn finish_input(&mut self)
        requires
            old(self).inv(),
            !old(self)@.pending,
            !old(self)@.awaiting,
        ensures
            final(self).inv(),
            final(self)@ == (PipelineView {
                admission: AdmissionView { draining: true, ..old(self)@.admission },
                ..old(self)@
            }),
    {
        self.admission.begin_drain();
    }

    /// Whether the run is over: input has ended and every write has finished.
    pub fn is_done(&self) -> (r: bool)
        ensures
            r == (self@.admission.draining && self@.admission.in_flight == 0),
    {
        self.admission.is_drained()
    }

    /// Whether a decoded record waits for a permit.
    pub fn has_pending(&self) -> (r: bool)
        ensures
            r == self@.pending,
    {
        self.pending
    }

    /// The file identity, once a handled-request line has been seen.
    pub fn file_identity(&self) -> (r: Option<String>)
        ensures
            match r {
                Some(s) => self@.identity == Some(s@),
                None => self@.identity is None,
            },
    {
        self.tagger.current()
    }

    /// The number of writes that have finished, whatever their outcome.
    pub fn rows_processed(&self) -> (r: u64)
        ensures
            r == self@.stats.processed,
    {
        self.stats.rows_processed()
    }

    /// The number of writes that added a row.
    pub fn rows_inserted(&self) -> (r: u64)
        ensures
            r == self@.stats.inserted,
    {
        self.stats.rows_inserted()
    }

    /// The number of lines that decoded into a record.
    pub fn records(&self) -> (r: u64)
        ensures
            r == self@.records,
    {
        self.records
    }

    /// The number of writes started.
    pub fn dispatched(&self) -> (r: u64)
        ensures
            r == self@.dispatched,
    {
        self.dispatched
    }

    /// The number of writes in flight.
    pub fn in_flight(&self) -> (r: usize)
        ensures
            r == self@.admission.in_flight,
    {
        self.admission.in_flight()
    }

    /// The number of lines handed in.
    pub fn line_count(&self) -> (r: u64)
        requires
            self.inv(),
        ensures
            r == self@.lines.len(),
    {
        self.line_count
    }

    /// The number of decode errors seen.
    pub fn decode_errors(&self) -> (r: u64)
        ensures
            r == self@.decode_errors,
    {
        self.decode_errors
    }
}

/// Once a run is drained, the writes started and the writes processed both
/// number exactly the lines of the file that are handled-request events and
/// decoded into a record.
pub proof fn lemma_drained_run_processed_every_record(p: Pipeline)
    requires
        p.wf(),
        p@.admission.draining,
        p@.admission.in_flight == 0,
    ensures
        p@.dispatched == count_records(p@.lines, p@.decoded),
        p@.stats.processed == count_records(p@.lines, p@.decoded),
{
}

/// A drained run in which no write added a row (the file was ingested
/// before, so every key was present; or the store failed every write) has
/// inserted nothing and still counts every record line as processed.
pub proof fn lemma_drained_run_without_new_rows(p: Pipeline)
    requires
        p.wf(),
        p@.admission.draining,
        p@.admission.in_flight == 0,
        forall|i: int| 0 <= i < p@.outcomes.len() ==> !(#[trigger] p@.outcomes[i] is Inserted),
    ensures
        p@.stats.inserted == 0,
        p@.stats.processed == count_records(p@.lines, p@.decoded),
{
    lemma_no_new_rows(p@.outcomes);
}

/// At every state of a run, no more writes hold a permit than the limit, and
/// processed is never below inserted.
pub proof fn lemma_run_bounds(p: Pipeline)
    requires
        p.wf(),
    ensures
        p@.admission.in_flight <= p@.admission.limit,
        p@.stats.inserted <= p@.stats.processed,
{
}

} // verus!
