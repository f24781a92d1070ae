use vstd::prelude::*;

use crate::record::{BetDetails, RecordView};

verus! {

/// The ledger as plain values: participant ids with their records, in order.
pub type LedgerView = Seq<(Seq<char>, RecordView)>;

/// Entry `i` is sound and its id appears at no earlier position.
pub open spec fn entry_ok(s: LedgerView, i: int) -> bool {
    &&& s[i].1.wf()
    &&& forall|k: int| 0 <= k < i ==> #[trigger] s[k].0 != s[i].0
}

/// Every record is sound and no id occurs twice.
pub open spec fn ledger_wf(s: LedgerView) -> bool {
    forall|i: int| 0 <= i < s.len() ==> #[trigger] entry_ok(s, i)
}

/// Every pending wager can be settled without overflowing a machine integer.
pub open spec fn ledger_can_settle(s: LedgerView, correct: u8) -> bool {
    forall|i: int| 0 <= i < s.len() ==> (#[trigger] s[i]).1.can_settle(correct)
}

/// The position of `id` in the ledger, if it is there.
pub open spec fn has_id_at(s: LedgerView, id: Seq<char>, i: int) -> bool {
    0 <= i < s.len() && s[i].0 == id
}

pub open spec fn contains_id(s: LedgerView, id: Seq<char>) -> bool {
    exists|i: int| has_id_at(s, id, i)
}

/// The ledger after every record is settled against `correct`.
pub open spec fn settled_all(s: LedgerView, correct: u8) -> LedgerView {
    s.map_values(|e: (Seq<char>, RecordView)| (e.0, e.1.settled(correct)))
}

/// A participant's id with their record.
pub struct LedgerEntry {
    pub id: String,
    pub details: BetDetails,
}

impl View for LedgerEntry {
    type V = (Seq<char>, RecordView);

    open spec fn view(&self) -> (Seq<char>, RecordView) {
        (self.id@, self.details@)
    }
}

/// One persisted record: a participant's id with every field of their record.
/// A stake and a choice may each be present or absent here; loading checks
/// that they agree.
pub struct SnapshotRecord {
    pub id: String,
    pub name: String,
    pub bank_amount: usize,
    pub bet_amount: Option<usize>,
    pub number_betted_on: Option<u8>,
    pub times_betted: u64,
    pub times_right: u64,
}

impl View for SnapshotRecord {
    type V = (Seq<char>, RecordView);

    open spec fn view(&self) -> (Seq<char>, RecordView) {
        (
            self.id@,
            RecordView {
                name: self.name@,
                bank_amount: self.bank_amount as nat,
                bet_amount: crate::record::opt_nat(self.bet_amount),
                number_betted_on: self.number_betted_on,
                times_betted: self.times_betted as nat,
                times_right: self.times_right as nat,
            },
        )
    }
}

pub open spec fn snapshot_view(v: Seq<SnapshotRecord>) -> LedgerView {
    v.map_values(|r: SnapshotRecord| r@)
}

/// The ledger that persisted records load into: the records themselves, in
/// order, when each is sound and no id repeats; none otherwise.
pub open spec fn loaded(v: Seq<SnapshotRecord>) -> Option<LedgerView> {
    if ledger_wf(snapshot_view(v)) {
        Some(snapshot_view(v))
    } else {
        None
    }
}

/// Why a snapshot could not be loaded: the record at `index` is the first
/// that is unsound or repeats an earlier id.
#[derive(Debug, PartialEq, Eq, Structural)]
pub enum SnapshotError {
    InvalidRecord { index: usize },
}

/// One line of the end-of-session report: how far a participant's balance
/// moved from the round's default amount, and in which direction.
pub struct ReportLine {
    pub name: String,
    pub gained: bool,
    pub points: usize,
}

/// `lines` holds, for each entry of `l` in order, its name and how far its
/// balance lies above or below `d`; a balance equal to `d` is a loss of zero.
pub open spec fn is_report_of(lines: Seq<ReportLine>, l: LedgerView, d: nat) -> bool {
    &&& lines.len() == l.len()
    &&& forall|i: int|
        0 <= i < lines.len() ==> {
            let b = l[i].1.bank_amount;
            &&& (#[trigger] lines[i]).name@ == l[i].1.name
            &&& lines[i].gained == (b > d)
            &&& lines[i].points == if b > d {
                b - d
            } else {
                d - b
            }
        }
}

/// Every participant's record, keyed by a unique id.
pub struct Ledger {
    entries: Vec<LedgerEntry>,
}

impl View for Ledger {
    type V = LedgerView;

    closed spec fn view(&self) -> LedgerView {
        self.entries@.map_values(|e: LedgerEntry| e@)
    }
}

impl Ledger {
    pub fn new() -> (r: Ledger)
        ensures
            r@ == Seq::<(Seq<char>, RecordView)>::empty(),
    {
        let r = Ledger { entries: Vec::new() };
        assert(r@ =~= Seq::<(Seq<char>, RecordView)>::empty());
        r
    }

    pub fn len(&self) -> (r: usize)
        ensures
            r == self@.len(),
    {
        self.entries.len()
    }

    /// The position of the record for `id`, if there is one.
    pub fn find(&self, id: &String) -> (r: Option<usize>)
        ensures
            r matches Some(i) ==> has_id_at(self@, id@, i as int),
            r is None ==> !contains_id(self@, id@),
    {
        let mut i: usize = 0;
        while i < self.entries.len()
            invariant
                i <= self.entries@.len(),
                self@.len() == self.entries@.len(),
                forall|k: int| 0 <= k < i ==> self@[k].0 != id@,
            decreases self.entries@.len() - i,
        {
            if self.entries[i].id == *id {
                return Some(i);
            }
            i = i + 1;
        }
        None
    }

    /// The record for `id`, if there is one.
    pub fn get(&self, id: &String) -> (r: Option<&BetDetails>)
        ensures
            r matches Some(d) ==> exists|i: int| has_id_at(self@, id@, i) && self@[i].1 == d@,
            r is None ==> !contains_id(self@, id@),
    {
        match self.find(id) {
            Some(i) => Some(&self.entries[i].details),
            None => None,
        }
    }

    /// The entry at position `i`.
    pub fn entry(&self, i: usize) -> (r: &LedgerEntry)
        requires
            i < self@.len(),
        ensures
            r@ == self@[i as int],
    {
        &self.entries[i]
    }

    /// The position of the record for `id`; a fresh record holding `amount`
    /// and shown as `name` is appended first when there is none.
    pub fn get_or_create(&mut self, id: &String, name: &String, amount: usize) -> (idx: usize)
        ensures
            idx < final(self)@.len(),
            final(self)@[idx as int].0 == id@,
            contains_id(old(self)@, id@) ==> final(self)@ == old(self)@,
            !contains_id(old(self)@, id@) ==> idx == old(self)@.len() && final(self)@
                == old(self)@.push((id@, RecordView::fresh(name@, amount as nat))),
            ledger_wf(old(self)@) ==> ledger_wf(final(self)@),
    {
        match self.find(id) {
            Some(i) => i,
            None => {
                let entry = LedgerEntry { id: id.clone(), details: BetDetails::new(name.clone(), amount) };
                self.entries.push(entry);
                proof {
                    let s = final(self)@;
                    assert(s =~= old(self)@.push((id@, RecordView::fresh(name@, amount as nat))));
                    if ledger_wf(old(self)@) {
                        assert forall|i: int| 0 <= i < s.len() implies #[trigger] entry_ok(s, i) by {
                            if i < old(self)@.len() {
                                assert(entry_ok(old(self)@, i));
                            } else {
                                assert forall|k: int| 0 <= k < i implies #[trigger] s[k].0 != s[i].0 by {
                                    assert(!has_id_at(old(self)@, id@, k));
                                }
                            }
                        }
                    }
                }
                self.entries.len() - 1
            },
        }
    }

    /// Records a pending wager of `stake` on `choice` for the entry at `idx`.
    pub fn set_pending(&mut self, idx: usize, stake: usize, choice: u8)
        requires
            idx < old(self)@.len(),
        ensures
            final(self)@ == old(self)@.update(
                idx as int,
                (
                    old(self)@[idx as int].0,
                    RecordView {
                        bet_amount: Some(stake as nat),
                        number_betted_on: Some(choice),
                        ..old(self)@[idx as int].1
                    },
                ),
            ),
            ledger_wf(old(self)@) && old(self)@[idx as int].1.is_fresh() && stake
                <= old(self)@[idx as int].1.bank_amount && (choice == 1 || choice == 2) ==> ledger_wf(
                final(self)@,
            ),
    {
        self.entries[idx].details.bet_amount = Some(stake);
        self.entries[idx].details.number_betted_on = Some(choice);
        assert(self@ =~= old(self)@.update(
            idx as int,
            (
                old(self)@[idx as int].0,
                RecordView {
                    bet_amount: Some(stake as nat),
                    number_betted_on: Some(choice),
                    ..old(self)@[idx as int].1
                },
            ),
        ));
        proof {
            if ledger_wf(old(self)@) && stake <= old(self)@[idx as int].1.bank_amount && (choice == 1
                || choice == 2) {
                let t = self@;
                assert forall|j: int| 0 <= j < t.len() implies #[trigger] entry_ok(t, j) by {
                    assert(entry_ok(old(self)@, j));
                    assert forall|k: int| 0 <= k < j implies #[trigger] t[k].0 != t[j].0 by {
                        assert(old(self)@[k].0 != old(self)@[j].0);
                    }
                }
            }
        }
    }

    /// Settles every pending wager against `correct`.
    pub fn settle(&mut self, correct: u8)
        requires
            correct == 1 || correct == 2,
            ledger_wf(old(self)@),
            ledger_can_settle(old(self)@, correct),
        ensures
            final(self)@ == settled_all(old(self)@, correct),
    {
        let n = self.entries.len();
        let mut i: usize = 0;
        assert(forall|k: int| 0 <= k < n ==> (#[trigger] self.entries@[k])@ == old(self)@[k]);
        while i < n
            invariant
                n == self.entries@.len(),
                n == old(self)@.len(),
                i <= n,
                ledger_wf(old(self)@),
                ledger_can_settle(old(self)@, correct),
                correct == 1 || correct == 2,
                forall|k: int|
                    0 <= k < i ==> (#[trigger] self.entries@[k])@ == (
                        old(self)@[k].0,
                        old(self)@[k].1.settled(correct),
                    ),
                forall|k: int| i <= k < n ==> (#[trigger] self.entries@[k])@ == old(self)@[k],
            decreases n - i,
        {
            assert(entry_ok(old(self)@, i as int));
            assert(old(self)@[i as int].1.can_settle(correct));
            assert(self.entries@[i as int]@ == old(self)@[i as int]);
            self.entries[i].details.apply(correct);
            i = i + 1;
        }
        assert(self@ =~= settled_all(old(self)@, correct));
    }

    /// Every entry in order, in persisted form.
    pub fn to_snapshot(&self) -> (r: Vec<SnapshotRecord>)
        ensures
            snapshot_view(r@) == self@,
    {
        let mut out: Vec<SnapshotRecord> = Vec::new();
        let mut i: usize = 0;
        while i < self.entries.len()
            invariant
                i <= self.entries@.len(),
                out@.len() == i,
                forall|k: int| 0 <= k < i ==> (#[trigger] out@[k])@ == self@[k],
            decreases self.entries@.len() - i,
        {
            let e = &self.entries[i];
            let d = &e.details;
            out.push(
                SnapshotRecord {
                    id: e.id.clone(),
                    name: d.name.clone(),
                    bank_amount: d.bank_amount,
                    bet_amount: d.bet_amount,
                    number_betted_on: d.number_betted_on,
                    times_betted: d.times_betted,
                    times_right: d.times_right,
                },
            );
            i = i + 1;
        }
        assert(snapshot_view(out@) =~= self@);
        out
    }

    /// Rebuilds a ledger from persisted records, keeping their order. Fails
    /// at the first record that is unsound or repeats an earlier id.
    pub fn from_snapshot(records: &Vec<SnapshotRecord>) -> (r: Result<Ledger, SnapshotError>)
        ensures
            r is Ok <==> loaded(records@) is Some,
            r matches Ok(l) ==> loaded(records@) == Some(l@),
            r matches Err(SnapshotError::InvalidRecord { index }) ==> {
                &&& index < records@.len()
                &&& !entry_ok(snapshot_view(records@), index as int)
                &&& forall|k: int| 0 <= k < index ==> entry_ok(snapshot_view(records@), k)
            },
    {
        let ghost sv = snapshot_view(records@);
        let mut ledger = Ledger::new();
        let mut i: usize = 0;
        while i < records.len()
            invariant
                i <= records@.len(),
                sv == snapshot_view(records@),
                ledger@ == sv.take(i as int),
                forall|k: int| 0 <= k < i ==> entry_ok(sv, k),
            decreases records@.len() - i,
        {
            let rec = &records[i];
            assert(rec@ == sv[i as int]);
            let sound = match (rec.bet_amount, rec.number_betted_on) {
                (Some(stake), Some(choice)) => (choice == 1 || choice == 2) && stake <= rec.bank_amount,
                (None, None) => true,
                _ => false,
            };
            let seen = ledger.find(&rec.id);
            if !sound || seen.is_some() {
                proof {
                    if sound {
                        let j = seen->0 as int;
                        assert(sv[j].0 == sv[i as int].0);
                    }
                    assert(!entry_ok(sv, i as int));
                }
                return Err(SnapshotError::InvalidRecord { index: i });
            }
            proof {
                assert forall|k: int| 0 <= k < i implies #[trigger] sv[k].0 != sv[i as int].0 by {
                    assert(!has_id_at(ledger@, rec.id@, k));
                }
                assert(entry_ok(sv, i as int));
            }
            let entry = LedgerEntry {
                id: rec.id.clone(),
                details: BetDetails {
                    name: rec.name.clone(),
                    bank_amount: rec.bank_amount,
                    bet_amount: rec.bet_amount,
                    number_betted_on: rec.number_betted_on,
                    times_betted: rec.times_betted,
                    times_right: rec.times_right,
                },
            };
            assert(entry@ == sv[i as int]);
            let ghost before = ledger.entries@;
            ledger.entries.push(entry);
            assert(ledger.entries@ == before.push(entry));
            assert(ledger@ =~= sv.take(i as int).push(entry@));
            assert(ledger@ =~= sv.take(i as int + 1));
            i = i + 1;
        }
        assert(sv.take(i as int) =~= sv);
        Ok(ledger)
    }

    /// For each entry in order, how far its balance lies above or below
    /// `default_amount`. A balance equal to it counts as a loss of zero.
    pub fn report(&self, default_amount: usize) -> (r: Vec<ReportLine>)
        ensures
            is_report_of(r@, self@, default_amount as nat),
    {
        let mut out: Vec<ReportLine> = Vec::new();
        let mut i: usize = 0;
        while i < self.entries.len()
            invariant
                i <= self.entries@.len(),
                out@.len() == i,
                forall|k: int|
                    0 <= k < i ==> {
                        let b = self@[k].1.bank_amount;
                        &&& (#[trigger] out@[k]).name@ == self@[k].1.name
                        &&& out@[k].gained == (b > default_amount)
                        &&& out@[k].points == if b > default_amount {
                            b - default_amount
                        } else {
                            default_amount - b
                        }
                    },
            decreases self.entries@.len() - i,
        {
            let d = &self.entries[i].details;
            assert(d@ == self@[i as int].1);
            let line = if d.bank_amount > default_amount {
                ReportLine { name: d.name.clone(), gained: true, points: d.bank_amount - default_amount }
            } else {
                ReportLine { name: d.name.clone(), gained: false, points: default_amount - d.bank_amount }
            };
            out.push(line);
            i = i + 1;
        }
        out
    }

    /// Whether every pending wager can be settled against `correct`
    /// without overflow.
    pub fn can_settle(&self, correct: u8) -> (r: bool)
        ensures
            r == ledger_can_settle(self@, correct),
    {
        let mut i: usize = 0;
        while i < self.entries.len()
            invariant
                i <= self.entries@.len(),
                forall|k: int| 0 <= k < i ==> (#[trigger] self@[k]).1.can_settle(correct),
            decreases self.entries@.len() - i,
        {
            let d = &self.entries[i].details;
            assert(d@ == self@[i as int].1);
            let ok = match (d.bet_amount, d.number_betted_on) {
                (Some(stake), Some(choice)) => d.times_betted < u64::MAX && (choice != correct || (
                stake <= usize::MAX - d.bank_amount && d.times_right < u64::MAX)),
                _ => true,
            };
            if !ok {
                return false;
            }
            i = i + 1;
        }
        true
    }
}

/// Settlement keeps the ledger sound, leaves every record fresh, and takes
/// no balance below zero: a losing stake never exceeds the balance it is
/// taken from.
pub proof fn lemma_settle_keeps_ledger_sound(s: LedgerView, correct: u8)
    requires
        ledger_wf(s),
    ensures
        ledger_wf(settled_all(s, correct)),
        forall|i: int| 0 <= i < s.len() ==> (#[trigger] s[i]).1.settled_balance(correct) >= 0,
        forall|i: int| 0 <= i < s.len() ==> (#[trigger] settled_all(s, correct)[i]).1.is_fresh(),
{
    let t = settled_all(s, correct);
    assert forall|i: int| 0 <= i < t.len() implies #[trigger] entry_ok(t, i) by {
        assert(entry_ok(s, i));
        assert forall|k: int| 0 <= k < i implies #[trigger] t[k].0 != t[i].0 by {
            assert(s[k].0 != s[i].0);
        }
    }
    assert forall|i: int| 0 <= i < s.len() implies (#[trigger] s[i]).1.settled_balance(correct) >= 0 by {
        assert(entry_ok(s, i));
    }
    assert forall|i: int| 0 <= i < s.len() implies (#[trigger] t[i]).1.is_fresh() by {
        assert(entry_ok(s, i));
    }
}

/// Settling a second time changes nothing: no wager is left to act on.
pub proof fn lemma_settle_twice(s: LedgerView, correct: u8)
    requires
        ledger_wf(s),
    ensures
        settled_all(settled_all(s, correct), correct) == settled_all(s, correct),
{
    lemma_settle_keeps_ledger_sound(s, correct);
    let t = settled_all(s, correct);
    assert(settled_all(t, correct) =~= t);
}

/// A sound ledger written out as a snapshot loads back to the same records,
/// field for field, in the same order.
pub proof fn lemma_snapshot_round_trip(l: LedgerView, records: Seq<SnapshotRecord>)
    requires
        ledger_wf(l),
        snapshot_view(records) == l,
    ensures
        loaded(records) == Some(l),
{
}

} // verus!
