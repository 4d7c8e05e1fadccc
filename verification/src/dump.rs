//! Decisions taken while streaming a data dump: which elements are records,
//! and when the rows inserted so far are committed.

use vstd::prelude::*;

use vstd::arithmetic::div_mod::lemma_fundamental_div_mod_converse;

verus! {

/// The kind of record that an element of a dump holds.
#[derive(Debug, Clone, Copy, PartialEq, Eq, Structural)]
pub enum RecordKind {
    Nation,
    Region,
}

/// The name of the element that holds a nation.
pub open spec fn nation_tag() -> Seq<u8> {
    seq!['N' as u8, 'A' as u8, 'T' as u8, 'I' as u8, 'O' as u8, 'N' as u8]
}

/// The name of the element that holds a region.
pub open spec fn region_tag() -> Seq<u8> {
    seq!['R' as u8, 'E' as u8, 'G' as u8, 'I' as u8, 'O' as u8, 'N' as u8]
}

/// Which record an element of the given name holds, if any.
pub open spec fn record_kind_of(name: Seq<u8>) -> Option<RecordKind> {
    if name == nation_tag() {
        Some(RecordKind::Nation)
    } else if name == region_tag() {
        Some(RecordKind::Region)
    } else {
        None
    }
}

/// An element holds a record exactly when its whole name is one of the two
/// six-letter record names: `NATION` (bytes 78, 65, 84, 73, 79, 78) for a
/// nation, `REGION` (bytes 82, 69, 71, 73, 79, 78) for a region. A longer
/// or shorter name, such as the root `REGIONS` or `NATIONS`, holds none.
pub proof fn lemma_record_kind_exact(name: Seq<u8>)
    ensures
        record_kind_of(name) == Some(RecordKind::Nation) <==> (name.len() == 6 && name[0] == 78u8
            && name[1] == 65u8 && name[2] == 84u8 && name[3] == 73u8 && name[4] == 79u8 && name[5]
            == 78u8),
        record_kind_of(name) == Some(RecordKind::Region) <==> (name.len() == 6 && name[0] == 82u8
            && name[1] == 69u8 && name[2] == 71u8 && name[3] == 73u8 && name[4] == 79u8 && name[5]
            == 78u8),
        name.len() != 6 ==> record_kind_of(name) is None,
{
    if name.len() == 6 && name[0] == 78u8 && name[1] == 65u8 && name[2] == 84u8 && name[3] == 73u8
        && name[4] == 79u8 && name[5] == 78u8 {
        assert(name =~= nation_tag());
    }
    if name.len() == 6 && name[0] == 82u8 && name[1] == 69u8 && name[2] == 71u8 && name[3] == 73u8
        && name[4] == 79u8 && name[5] == 78u8 {
        assert(name =~= region_tag());
    }
    if name == nation_tag() {
        assert(name[0] == 78u8);
    }
    if name == region_tag() {
        assert(name[0] == 82u8);
    }
}

/// Which record an element named `name` holds: `NATION` a nation, `REGION`
/// a region, any other element none.
pub fn classify_element(name: &[u8]) -> (r: Option<RecordKind>)
    ensures
        r == record_kind_of(name@),
{
    if name.len() == 6 && name[0] == 'N' as u8 && name[1] == 'A' as u8 && name[2] == 'T' as u8
        && name[3] == 'I' as u8 && name[4] == 'O' as u8 && name[5] == 'N' as u8 {
        assert(name@ =~= nation_tag());
        Some(RecordKind::Nation)
    } else if name.len() == 6 && name[0] == 'R' as u8 && name[1] == 'E' as u8 && name[2] == 'G' as u8 && name[3]
        == 'I' as u8 && name[4] == 'O' as u8 && name[5] == 'N' as u8 {
        assert(name@ =~= region_tag());
        Some(RecordKind::Region)
    } else {
        proof {
            if name@ == nation_tag() {
                assert(name@[0] == 'N' as u8);
            }
            if name@ == region_tag() {
                assert(name@[0] == 'R' as u8);
            }
        }
        None
    }
}

/// How many nations are inserted between two commits.
pub const NATION_BATCH_SIZE: usize = 3000;

/// How many regions are inserted between two commits.
pub const REGION_BATCH_SIZE: usize = 1000;

/// How many records of a kind are inserted between two commits.
pub open spec fn batch_size(kind: RecordKind) -> nat {
    match kind {
        RecordKind::Nation => NATION_BATCH_SIZE as nat,
        RecordKind::Region => REGION_BATCH_SIZE as nat,
    }
}

/// Nations are committed by the three thousand, regions by the thousand.
pub proof fn lemma_batch_sizes()
    ensures
        batch_size(RecordKind::Nation) == 3000,
        batch_size(RecordKind::Region) == 1000,
{
}

/// Whether inserting one more record of `kind`, with `pending` rows not yet
/// committed, fills the batch so that it is committed.
pub open spec fn fills_batch(pending: nat, kind: RecordKind) -> bool {
    pending + 1 >= batch_size(kind)
}

/// The rows not yet committed once one more record of `kind` is inserted.
pub open spec fn pending_after_insert(pending: nat, kind: RecordKind) -> nat {
    if fills_batch(pending, kind) {
        0
    } else {
        pending + 1
    }
}

/// Counts the rows inserted since the last commit of the transaction.
pub struct BatchCounter {
    count: usize,
}

impl BatchCounter {
    /// Rows inserted since the last commit.
    pub closed spec fn pending(&self) -> nat {
        self.count as nat
    }

    #[verifier::type_invariant]
    spec fn below_largest_batch(&self) -> bool {
        self.count < NATION_BATCH_SIZE
    }

    /// A counter with nothing pending.
    pub fn new() -> (r: Self)
        ensures
            r.pending() == 0,
    {
        BatchCounter { count: 0 }
    }

    /// Rows inserted since the last commit.
    pub fn pending_rows(&self) -> (r: usize)
        ensures
            r == self.pending(),
    {
        self.count
    }

    /// Notes that one more record of `kind` was inserted (whether or not the
    /// database accepted it) and says whether the batch is now full, so that
    /// the transaction must be committed; then nothing is pending any more.
    pub fn record_inserted(&mut self, kind: RecordKind) -> (commit: bool)
        ensures
            commit == fills_batch(old(self).pending(), kind),
            final(self).pending() == pending_after_insert(old(self).pending(), kind),
    {
        proof {
            use_type_invariant(&*self);
        }
        let limit = match kind {
            RecordKind::Nation => NATION_BATCH_SIZE,
            RecordKind::Region => REGION_BATCH_SIZE,
        };
        if self.count + 1 >= limit {
            self.count = 0;
            true
        } else {
            self.count = self.count + 1;
            false
        }
    }

    /// Settles one record element of `kind`: a record that could not be read
    /// (`readable` false) is skipped and changes nothing; a record that was
    /// read has been handed to the database, and counts whether or not the
    /// database accepted it. Says whether the transaction must be committed now.
    pub fn settle_record(&mut self, kind: RecordKind, readable: bool) -> (commit: bool)
        ensures
            !readable ==> !commit && final(self).pending() == old(self).pending(),
            readable ==> commit == fills_batch(old(self).pending(), kind) && final(self).pending()
                == pending_after_insert(old(self).pending(), kind),
    {
        if readable {
            self.record_inserted(kind)
        } else {
            false
        }
    }

    /// Whether rows are pending at the end of the dump, so that a last
    /// commit is owed.
    pub fn needs_final_commit(&self) -> (r: bool)
        ensures
            r == (self.pending() > 0),
    {
        self.count > 0
    }
}

/// Rows pending after `n` records of `kind`, starting from none.
pub open spec fn pending_after(kind: RecordKind, n: nat) -> nat
    decreases n,
{
    if n == 0 {
        0
    } else {
        pending_after_insert(pending_after(kind, (n - 1) as nat), kind)
    }
}

/// Commits made while inserting `n` records of `kind`, starting from none.
pub open spec fn commits_after(kind: RecordKind, n: nat) -> nat
    decreases n,
{
    if n == 0 {
        0
    } else {
        commits_after(kind, (n - 1) as nat) + if fills_batch(pending_after(kind, (n - 1) as nat), kind) {
            1nat
        } else {
            0nat
        }
    }
}

/// Inserting `n` records of one kind from an empty batch commits after every
/// full batch: `n / B` commits, `n % B` rows left pending, every row in
/// exactly one of the two; a last commit at the end of the dump is owed
/// exactly when rows are left, so every inserted row is committed.
pub proof fn lemma_batches_cover_every_row(kind: RecordKind, n: nat)
    ensures
        commits_after(kind, n) * batch_size(kind) + pending_after(kind, n) == n,
        pending_after(kind, n) == n % batch_size(kind),
        commits_after(kind, n) == n / batch_size(kind),
        pending_after(kind, n) > 0 <==> n % batch_size(kind) != 0,
    decreases n,
{
    let b = batch_size(kind);
    if n > 0 {
        lemma_batches_cover_every_row(kind, (n - 1) as nat);
        let c = commits_after(kind, (n - 1) as nat);
        assert((c + 1) * b == c * b + b) by (nonlinear_arith);
    }
    assert(pending_after(kind, n) < b);
    lemma_fundamental_div_mod_converse(
        n as int,
        b as int,
        commits_after(kind, n) as int,
        pending_after(kind, n) as int,
    );
}

} // verus!
