//! Write outcomes and the run's counters.
use vstd::prelude::*;

verus! {

/// The outcome of one insert-or-ignore write.
#[derive(Debug)]
pub enum WriteOutcome {
    /// The row was new and has been added.
    Inserted,
    /// A row with the same key was there already: nothing changed.
    AlreadyPresent,
    /// The store could not carry the write out; the detail says why.
    Failed(String),
}

impl WriteOutcome {
    /// Whether this outcome added a row.
    pub fn added_row(&self) -> (r: bool)
        ensures
            r == (self is Inserted),
    {
        match self {
            WriteOutcome::Inserted => true,
            _ => false,
        }
    }
}

/// Reads the store's answer to one write: the number of rows it affected
/// (0 when the key was present), or the error it reported.
pub fn outcome_of_write(res: Result<u64, String>) -> (r: WriteOutcome)
    ensures
        match res {
            Ok(n) => if n == 0 { r is AlreadyPresent } else { r is Inserted },
            Err(e) => r == WriteOutcome::Failed(e),
        },
{
    match res {
        Ok(n) => if n == 0 {
            WriteOutcome::AlreadyPresent
        } else {
            WriteOutcome::Inserted
        },
        Err(e) => WriteOutcome::Failed(e),
    }
}

/// The stored form of the optional user identifier: an absent one is kept
/// as the empty string.
pub fn user_id_column(user_id: &Option<String>) -> (r: String)
    ensures
        r@ == match user_id {
            Some(s) => s@,
            None => Seq::<char>::empty(),
        },
{
    match user_id {
        Some(s) => s.clone(),
        None => String::new(),
    }
}

/// The counters in mathematical form.
pub struct StatsView {
    pub processed: nat,
    pub inserted: nat,
}

/// The counters after one more completed write.
pub open spec fn stats_step(s: StatsView, o: WriteOutcome) -> StatsView {
    StatsView {
        processed: s.processed + 1,
        inserted: if o is Inserted { s.inserted + 1 } else { s.inserted },
    }
}

/// The counters after the given completed writes, from zero.
pub open spec fn stats_after(outcomes: Seq<WriteOutcome>) -> StatsView
    decreases outcomes.len(),
{
    if outcomes.len() == 0 {
        StatsView { processed: 0, inserted: 0 }
    } else {
        stats_step(stats_after(outcomes.drop_last()), outcomes.last())
    }
}

/// The number of writes among `outcomes` that added a row.
pub open spec fn count_inserted(outcomes: Seq<WriteOutcome>) -> nat
    decreases outcomes.len(),
{
    if outcomes.len() == 0 {
        0
    } else {
        count_inserted(outcomes.drop_last()) + if outcomes.last() is Inserted {
            1nat
        } else {
            0nat
        }
    }
}

/// Every completed write counts as processed, whatever its outcome; only the
/// writes that added a row count as inserted; so processed is never below
/// inserted.
pub proof fn lemma_stats_count_outcomes(outcomes: Seq<WriteOutcome>)
    ensures
        stats_after(outcomes).processed == outcomes.len(),
        stats_after(outcomes).inserted == count_inserted(outcomes),
        stats_after(outcomes).inserted <= stats_after(outcomes).processed,
    decreases outcomes.len(),
{
    if outcomes.len() > 0 {
        lemma_stats_count_outcomes(outcomes.drop_last());
    }
}

/// When no write of a run adds a row (every key was there already, or the
/// store failed every write), the run inserts nothing and still counts every
/// write as processed.
pub proof fn lemma_no_new_rows(outcomes: Seq<WriteOutcome>)
    requires
        forall|i: int| 0 <= i < outcomes.len() ==> !(#[trigger] outcomes[i] is Inserted),
    ensures
        stats_after(outcomes).processed == outcomes.len(),
        stats_after(outcomes).inserted == 0,
    decreases outcomes.len(),
{
    if outcomes.len() > 0 {
        let init = outcomes.drop_last();
        assert forall|i: int| 0 <= i < init.len() implies !(#[trigger] init[i] is Inserted) by {
            assert(init[i] == outcomes[i]);
        }
        lemma_no_new_rows(init);
        assert(!(outcomes[outcomes.len() - 1] is Inserted));
    }
}

/// Counters of processed and inserted rows.
pub struct IngestionStats {
    rows_processed: u64,
    rows_inserted: u64,
}

impl View for IngestionStats {
    type V = StatsView;

    closed spec fn view(&self) -> StatsView {
        StatsView { processed: self.rows_processed as nat, inserted: self.rows_inserted as nat }
    }
}

impl IngestionStats {
    pub open spec fn wf(&self) -> bool {
        self@.inserted <= self@.processed
    }

    /// Both counters at zero.
    pub fn new() -> (r: Self)
        ensures
            r@ == stats_after(Seq::empty()),
            r.wf(),
    {
        IngestionStats { rows_processed: 0, rows_inserted: 0 }
    }

    /// Counts one completed write.
    pub fn record(&mut self, outcome: &WriteOutcome)
        requires
            old(self).wf(),
            old(self)@.processed < u64::MAX,
        ensures
            final(self)@ == stats_step(old(self)@, *outcome),
            final(self).wf(),
    {
        self.rows_processed = self.rows_processed + 1;
        if outcome.added_row() {
            self.rows_inserted = self.rows_inserted + 1;
        }
    }

    /// The number of writes that completed.
    pub fn rows_processed(&self) -> (r: u64)
        ensures
            r == self@.processed,
    {
        self.rows_processed
    }

    /// The number of writes that added a row.
    pub fn rows_inserted(&self) -> (r: u64)
        ensures
            r == self@.inserted,
    {
        self.rows_inserted
    }
}

} // verus!
