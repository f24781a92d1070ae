use vstd::prelude::*;

use crate::ledger::{
    contains_id, entry_ok, has_id_at, lemma_settle_keeps_ledger_sound, ledger_can_settle,
    ledger_wf, loaded, settled_all, snapshot_view, Ledger, LedgerView, ReportLine, SnapshotError, is_report_of,
    SnapshotRecord,
};
use crate::parse::{
    bet_keyword, is_bet_keyword, parse_unsigned, parsed_unsigned, split_words, words_of,
    words_view,
};
use crate::console::InputtedCommand;
use crate::record::RecordView;

verus! {

/// Why a chat bet was refused, with what the sender is told.
pub enum ReplyKind {
    /// The message did not have exactly three words.
    Usage { name: String, text: String },
    /// The choice is not a number.
    ChoiceNotNumber { name: String, token: String },
    /// The choice is a number other than 1 or 2.
    ChoiceOutOfRange { name: String, token: String },
    /// The stake is not a number.
    StakeNotNumber { name: String, token: String },
    /// The stake exceeds the sender's balance, quoted here.
    InsufficientBalance { name: String, balance: usize },
}

pub ghost enum ReplyView {
    Usage { name: Seq<char>, text: Seq<char> },
    ChoiceNotNumber { name: Seq<char>, token: Seq<char> },
    ChoiceOutOfRange { name: Seq<char>, token: Seq<char> },
    StakeNotNumber { name: Seq<char>, token: Seq<char> },
    InsufficientBalance { name: Seq<char>, balance: nat },
}

impl View for ReplyKind {
    type V = ReplyView;

    open spec fn view(&self) -> ReplyView {
        match self {
            ReplyKind::Usage { name, text } => ReplyView::Usage { name: name@, text: text@ },
            ReplyKind::ChoiceNotNumber { name, token } => ReplyView::ChoiceNotNumber {
                name: name@,
                token: token@,
            },
            ReplyKind::ChoiceOutOfRange { name, token } => ReplyView::ChoiceOutOfRange {
                name: name@,
                token: token@,
            },
            ReplyKind::StakeNotNumber { name, token } => ReplyView::StakeNotNumber {
                name: name@,
                token: token@,
            },
            ReplyKind::InsufficientBalance { name, balance } => ReplyView::InsufficientBalance {
                name: name@,
                balance: *balance as nat,
            },
        }
    }
}

/// A message for the chat channel a bet came from.
pub struct Reply {
    pub channel: String,
    pub kind: ReplyKind,
}

pub open spec fn reply_view(r: Option<Reply>) -> Option<ReplyView> {
    match r {
        Some(rep) => Some(rep.kind@),
        None => None,
    }
}

/// The round state and the ledger as plain values.
pub ghost struct EngineView {
    pub ledger: LedgerView,
    pub default_amount: Option<usize>,
    pub stopped: bool,
}

/// The ledger with a fresh record for `id` appended when it has none.
pub open spec fn with_participant(l: LedgerView, id: Seq<char>, name: Seq<char>, amount: nat) -> LedgerView {
    if contains_id(l, id) {
        l
    } else {
        l.push((id, RecordView::fresh(name, amount)))
    }
}

/// The position of `id` in a ledger that holds it.
pub open spec fn index_of(l: LedgerView, id: Seq<char>) -> int {
    choose|i: int| has_id_at(l, id, i)
}

/// What a chat message from participant `id`, shown as `name`, does to the
/// ledger, and what the sender is told. Nothing happens while no round is
/// running or when the message is not a bet. Malformed bets are answered
/// without touching the ledger. A well-formed bet creates the sender's record
/// if needed; it is then ignored if a wager is already pending, refused if the
/// stake exceeds the balance, and recorded otherwise.
pub open spec fn chat_outcome(
    st: EngineView,
    id: Seq<char>,
    name: Seq<char>,
    text: Seq<char>,
    words: Seq<Seq<char>>,
) -> (LedgerView, Option<ReplyView>) {
    let l = st.ledger;
    match st.default_amount {
        None => (l, None),
        Some(amount) => if words.len() == 0 || words[0] != bet_keyword() {
            (l, None)
        } else if words.len() != 3 {
            (l, Some(ReplyView::Usage { name, text }))
        } else {
            match parsed_unsigned(words[2], 255) {
                None => (l, Some(ReplyView::ChoiceNotNumber { name, token: words[2] })),
                Some(choice) => if choice != 1 && choice != 2 {
                    (l, Some(ReplyView::ChoiceOutOfRange { name, token: words[2] }))
                } else {
                    match parsed_unsigned(words[1], usize::MAX as nat) {
                        None => (l, Some(ReplyView::StakeNotNumber { name, token: words[1] })),
                        Some(stake) => {
                            let l1 = with_participant(l, id, name, amount as nat);
                            let i = index_of(l1, id);
                            let rec = l1[i].1;
                            if !rec.is_fresh() {
                                (l1, None)
                            } else if stake > rec.bank_amount {
                                (
                                    l1,
                                    Some(
                                        ReplyView::InsufficientBalance {
                                            name,
                                            balance: rec.bank_amount,
                                        },
                                    ),
                                )
                            } else {
                                (
                                    l1.update(
                                        i,
                                        (
                                            id,
                                            RecordView {
                                                bet_amount: Some(stake),
                                                number_betted_on: Some(choice as u8),
                                                ..rec
                                            },
                                        ),
                                    ),
                                    None,
                                )
                            }
                        },
                    }
                },
            }
        },
    }
}

/// In a sound ledger an id sits at one position only.
pub proof fn lemma_index_unique(l: LedgerView, id: Seq<char>, i: int, j: int)
    requires
        ledger_wf(l),
        has_id_at(l, id, i),
        has_id_at(l, id, j),
    ensures
        i == j,
{
    if i < j {
        assert(entry_ok(l, j));
    } else if j < i {
        assert(entry_ok(l, i));
    }
}

/// Handling a chat message keeps every record sound and every id unique.
pub proof fn lemma_chat_keeps_ledger_sound(
    st: EngineView,
    id: Seq<char>,
    name: Seq<char>,
    text: Seq<char>,
    words: Seq<Seq<char>>,
)
    requires
        ledger_wf(st.ledger),
    ensures
        ledger_wf(chat_outcome(st, id, name, text, words).0),
{
    let l = st.ledger;
    if let Some(amount) = st.default_amount {
        let l1 = with_participant(l, id, name, amount as nat);
        if !contains_id(l, id) {
            assert forall|i: int| 0 <= i < l1.len() implies #[trigger] entry_ok(l1, i) by {
                if i < l.len() {
                    assert(entry_ok(l, i));
                } else {
                    assert forall|k: int| 0 <= k < i implies #[trigger] l1[k].0 != l1[i].0 by {
                        assert(!has_id_at(l, id, k));
                    }
                }
            }
            assert(has_id_at(l1, id, l.len() as int));
        }
        assert(ledger_wf(l1));
        assert(exists|i: int| has_id_at(l1, id, i));
        let i = index_of(l1, id);
        let out = chat_outcome(st, id, name, text, words).0;
        assert forall|j: int| 0 <= j < out.len() implies #[trigger] entry_ok(out, j) by {
            assert(entry_ok(l1, j));
            if out != l && out != l1 {
                assert forall|k: int| 0 <= k < j implies #[trigger] out[k].0 != out[j].0 by {
                    assert(l1[k].0 != l1[j].0);
                }
            }
        }
    }
}

/// Once a participant holds a pending wager, no later chat message from them
/// changes the ledger before the round is settled: the first bet stands.
pub proof fn lemma_first_bet_wins(
    st: EngineView,
    id: Seq<char>,
    name1: Seq<char>,
    text1: Seq<char>,
    words1: Seq<Seq<char>>,
    name2: Seq<char>,
    text2: Seq<char>,
    words2: Seq<Seq<char>>,
)
    requires
        ledger_wf(st.ledger),
    ensures
        ({
            let l1 = chat_outcome(st, id, name1, text1, words1).0;
            let l2 = chat_outcome(EngineView { ledger: l1, ..st }, id, name2, text2, words2).0;
            contains_id(l1, id) && !l1[index_of(l1, id)].1.is_fresh() ==> l2 == l1
        }),
{
    let l1 = chat_outcome(st, id, name1, text1, words1).0;
    lemma_chat_keeps_ledger_sound(st, id, name1, text1, words1);
    if contains_id(l1, id) {
        assert(with_participant(l1, id, name2, 0) == l1);
    }
}

/// The session: the ledger, the running round's default amount, and whether
/// a stop was requested.
pub struct Engine {
    ledger: Ledger,
    default_amount: Option<usize>,
    stopped: bool,
}

impl View for Engine {
    type V = EngineView;

    closed spec fn view(&self) -> EngineView {
        EngineView {
            ledger: self.ledger@,
            default_amount: self.default_amount,
            stopped: self.stopped,
        }
    }
}

impl Engine {
    /// Every record is sound and every id unique.
    #[verifier::type_invariant]
    spec fn inv(&self) -> bool {
        ledger_wf(self.ledger@)
    }

    /// A session with no round running and an empty ledger.
    pub fn new() -> (r: Engine)
        ensures
            r@ == (EngineView { ledger: Seq::empty(), default_amount: None, stopped: false }),
    {
        Engine { ledger: Ledger::new(), default_amount: None, stopped: false }
    }

    /// The ledger. Whenever it is observed, each record's stake and choice
    /// are both present or both absent, the choice is 1 or 2, a pending
    /// stake is covered by the balance, and no id occurs twice.
    pub fn ledger(&self) -> (r: &Ledger)
        ensures
            r@ == self@.ledger,
            ledger_wf(r@),
    {
        proof {
            use_type_invariant(self);
        }
        &self.ledger
    }

    pub fn default_amount(&self) -> (r: Option<usize>)
        ensures
            r == self@.default_amount,
    {
        self.default_amount
    }

    pub fn is_stopped(&self) -> (r: bool)
        ensures
            r == self@.stopped,
    {
        self.stopped
    }

    /// Handles a chat message whose words are already split out.
    pub fn handle_words(
        &mut self,
        channel: &String,
        id: &String,
        name: &String,
        text: &String,
        words: &Vec<String>,
    ) -> (r: Option<Reply>)
        ensures
            ({
                let (l, reply) = chat_outcome(old(self)@, id@, name@, text@, words_view(words@));
                &&& final(self)@ == EngineView { ledger: l, ..old(self)@ }
                &&& reply_view(r) == reply
            }),
            r matches Some(rep) ==> rep.channel@ == channel@,
    {
        proof {
            use_type_invariant(&*self);
            lemma_chat_keeps_ledger_sound(old(self)@, id@, name@, text@, words_view(words@));
        }
        let ghost ws = words_view(words@);
        let amount = match self.default_amount {
            Some(a) => a,
            None => return None,
        };
        if words.len() == 0 || !is_bet_keyword(words[0].as_str()) {
            return None;
        }
        if words.len() != 3 {
            return Some(Reply { channel: channel.clone(), kind: ReplyKind::Usage { name: name.clone(), text: text.clone() } });
        }
        assert(ws[1] == words@[1]@ && ws[2] == words@[2]@);
        let choice = match parse_unsigned(words[2].as_str(), 255) {
            Some(c) => c,
            None => {
                return Some(
                    Reply {
                        channel: channel.clone(),
                        kind: ReplyKind::ChoiceNotNumber { name: name.clone(), token: words[2].clone() },
                    },
                );
            },
        };
        if choice != 1 && choice != 2 {
            return Some(
                Reply {
                    channel: channel.clone(),
                    kind: ReplyKind::ChoiceOutOfRange { name: name.clone(), token: words[2].clone() },
                },
            );
        }
        let stake = match parse_unsigned(words[1].as_str(), usize::MAX) {
            Some(s) => s,
            None => {
                return Some(
                    Reply {
                        channel: channel.clone(),
                        kind: ReplyKind::StakeNotNumber { name: name.clone(), token: words[1].clone() },
                    },
                );
            },
        };
        let ghost l0 = self.ledger@;
        let mut ledger = Ledger::new();
        std::mem::swap(&mut ledger, &mut self.ledger);
        let idx = ledger.get_or_create(id, name, amount);
        proof {
            let l1 = with_participant(l0, id@, name@, amount as nat);
            assert(ledger@ == l1);
            assert(has_id_at(l1, id@, idx as int));
            lemma_index_unique(l1, id@, idx as int, index_of(l1, id@));
        }
        let rec = &ledger.entry(idx).details;
        let fresh = rec.is_fresh();
        let balance = rec.bank_amount;
        let reply = if !fresh {
            None
        } else if stake > balance {
            Some(
                Reply {
                    channel: channel.clone(),
                    kind: ReplyKind::InsufficientBalance { name: name.clone(), balance },
                },
            )
        } else {
            ledger.set_pending(idx, stake, choice as u8);
            None
        };
        self.ledger = ledger;
        reply
    }

    /// Handles one chat message from participant `id`, shown as `name`,
    /// arriving on `channel`.
    pub fn handle_message(&mut self, channel: &String, id: &String, name: &String, text: &String) -> (r: Option<Reply>)
        ensures
            ({
                let (l, reply) = chat_outcome(old(self)@, id@, name@, text@, words_of(text@));
                &&& final(self)@ == EngineView { ledger: l, ..old(self)@ }
                &&& reply_view(r) == reply
            }),
            r matches Some(rep) ==> rep.channel@ == channel@,
    {
        let words = split_words(text.as_str());
        self.handle_words(channel, id, name, text, &words)
    }

    /// Opens a round with `amount` as every new participant's balance, on
    /// an empty ledger.
    pub fn start(&mut self, amount: usize)
        ensures
            final(self)@ == (EngineView { ledger: Seq::empty(), default_amount: Some(amount), ..old(self)@ }),
    {
        self.ledger = Ledger::new();
        self.default_amount = Some(amount);
    }

    /// Opens a round on the records of a snapshot. A malformed snapshot
    /// leaves the session as it was.
    pub fn start_from_snapshot(&mut self, records: &Vec<SnapshotRecord>, amount: usize) -> (r: Result<(), SnapshotError>)
        ensures
            r is Ok <==> loaded(records@) is Some,
            r is Ok ==> final(self)@ == (EngineView {
                ledger: loaded(records@)->0,
                default_amount: Some(amount),
                ..old(self)@
            }),
            r matches Err(SnapshotError::InvalidRecord { index }) ==> {
                &&& final(self)@ == old(self)@
                &&& index < records@.len()
                &&& !entry_ok(snapshot_view(records@), index as int)
                &&& forall|k: int| 0 <= k < index ==> entry_ok(snapshot_view(records@), k)
            },
    {
        proof {
            use_type_invariant(&*self);
        }
        match Ledger::from_snapshot(records) {
            Ok(l) => {
                self.ledger = l;
                self.default_amount = Some(amount);
                Ok(())
            },
            Err(e) => Err(e),
        }
    }

    /// Closes the round's wagers with `correct_answer` as the right choice.
    /// Nothing happens while no round is running, nor when a balance or a
    /// counter would overflow.
    pub fn end_round(&mut self, correct_answer: u8) -> (r: EndRoundOutcome)
        requires
            correct_answer == 1 || correct_answer == 2,
        ensures
            old(self)@.default_amount is None ==> r == EndRoundOutcome::NoRound && final(self)@ == old(self)@,
            old(self)@.default_amount is Some && !ledger_can_settle(old(self)@.ledger, correct_answer) ==>
                r == EndRoundOutcome::WouldOverflow && final(self)@ == old(self)@,
            old(self)@.default_amount is Some && ledger_can_settle(old(self)@.ledger, correct_answer) ==>
                r == EndRoundOutcome::Settled && final(self)@ == (EngineView {
                    ledger: settled_all(old(self)@.ledger, correct_answer),
                    ..old(self)@
                }),
    {
        proof {
            use_type_invariant(&*self);
        }
        if self.default_amount.is_none() {
            return EndRoundOutcome::NoRound;
        }
        if !self.ledger.can_settle(correct_answer) {
            return EndRoundOutcome::WouldOverflow;
        }
        proof {
            lemma_settle_keeps_ledger_sound(self.ledger@, correct_answer);
        }
        let mut ledger = Ledger::new();
        std::mem::swap(&mut ledger, &mut self.ledger);
        ledger.settle(correct_answer);
        self.ledger = ledger;
        EndRoundOutcome::Settled
    }

    /// Asks the session to stop.
    pub fn stop(&mut self)
        ensures
            final(self)@ == (EngineView { stopped: true, ..old(self)@ }),
    {
        proof {
            use_type_invariant(&*self);
        }
        self.stopped = true;
    }

    /// The ledger in persisted form.
    pub fn snapshot(&self) -> (r: Vec<SnapshotRecord>)
        ensures
            snapshot_view(r@) == self@.ledger,
    {
        self.ledger.to_snapshot()
    }

    /// Each participant's gain or loss against the round's default amount;
    /// none while no round is running.
    pub fn report(&self) -> (r: Option<Vec<ReportLine>>)
        ensures
            r is Some <==> self@.default_amount is Some,
            r matches Some(lines) ==> is_report_of(lines@, self@.ledger, self@.default_amount->0 as nat),
    {
        match self.default_amount {
            Some(d) => Some(self.ledger.report(d)),
            None => None,
        }
    }
}

/// What closing a round did.
#[derive(Debug, PartialEq, Eq, Structural)]
pub enum EndRoundOutcome {
    Settled,
    NoRound,
    WouldOverflow,
}

/// What the controller does after applying an operator command.
pub enum ControlAction {
    /// A round opened with this default amount; announce it.
    Started { amount: usize },
    /// Write the report to `file`; there is none while no round is running.
    Save { file: String, report: Option<Vec<ReportLine>> },
    /// The round was settled; announce the correct answer.
    RoundEnded { correct_answer: u8 },
    /// No round is running, so nothing was settled.
    NoRound,
    /// Settling would overflow a balance or a counter; nothing was settled.
    WouldOverflow,
    /// The session stops.
    Exit,
}

impl Engine {
    /// Applies one operator command and says what is to be announced or
    /// written.
    pub fn control(&mut self, cmd: InputtedCommand) -> (r: ControlAction)
        requires
            cmd matches InputtedCommand::EndRound { correct_answer } ==> correct_answer == 1
                || correct_answer == 2,
        ensures
            match cmd {
                InputtedCommand::Start { amount } => {
                    &&& final(self)@ == (EngineView {
                        ledger: Seq::empty(),
                        default_amount: Some(amount),
                        ..old(self)@
                    })
                    &&& r == ControlAction::Started { amount }
                },
                InputtedCommand::Save { file } => {
                    &&& final(self)@ == old(self)@
                    &&& r matches ControlAction::Save { file: f, report } && f == file && (report is Some
                        <==> old(self)@.default_amount is Some) && (report matches Some(lines)
                        ==> is_report_of(lines@, old(self)@.ledger, old(self)@.default_amount->0 as nat))
                },
                InputtedCommand::EndRound { correct_answer } => {
                    if old(self)@.default_amount is None {
                        r == ControlAction::NoRound && final(self)@ == old(self)@
                    } else if !ledger_can_settle(old(self)@.ledger, correct_answer) {
                        r == ControlAction::WouldOverflow && final(self)@ == old(self)@
                    } else {
                        &&& r == ControlAction::RoundEnded { correct_answer }
                        &&& final(self)@ == (EngineView {
                            ledger: settled_all(old(self)@.ledger, correct_answer),
                            ..old(self)@
                        })
                    }
                },
                InputtedCommand::Exit => {
                    &&& final(self)@ == (EngineView { stopped: true, ..old(self)@ })
                    &&& r == ControlAction::Exit
                },
            },
    {
        match cmd {
            InputtedCommand::Start { amount } => {
                self.start(amount);
                ControlAction::Started { amount }
            },
            InputtedCommand::Save { file } => ControlAction::Save { file, report: self.report() },
            InputtedCommand::EndRound { correct_answer } => match self.end_round(correct_answer) {
                EndRoundOutcome::Settled => ControlAction::RoundEnded { correct_answer },
                EndRoundOutcome::NoRound => ControlAction::NoRound,
                EndRoundOutcome::WouldOverflow => ControlAction::WouldOverflow,
            },
            InputtedCommand::Exit => {
                self.stop();
                ControlAction::Exit
            },
        }
    }
}

} // verus!
