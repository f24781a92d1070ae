use vstd::prelude::*;

verus! {

/// What a participant's record holds, as plain values.
pub ghost struct RecordView {
    pub name: Seq<char>,
    pub bank_amount: nat,
    pub bet_amount: Option<nat>,
    pub number_betted_on: Option<u8>,
    pub times_betted: nat,
    pub times_right: nat,
}

impl RecordView {
    /// No wager is pending: stake and choice are both absent.
    pub open spec fn is_fresh(self) -> bool {
        self.bet_amount is None && self.number_betted_on is None
    }

    /// Stake and choice are set together, the choice is 1 or 2, and the stake
    /// never exceeds the balance it was accepted against.
    pub open spec fn wf(self) -> bool {
        &&& (self.bet_amount is Some <==> self.number_betted_on is Some)
        &&& self.number_betted_on matches Some(c) ==> (c == 1 || c == 2)
        &&& self.bet_amount matches Some(s) ==> s <= self.bank_amount
    }

    /// The balance after settlement, computed over the integers.
    pub open spec fn settled_balance(self, correct: u8) -> int {
        match (self.bet_amount, self.number_betted_on) {
            (Some(stake), Some(choice)) => if choice == correct {
                (self.bank_amount + stake) as int
            } else {
                self.bank_amount - stake
            },
            _ => self.bank_amount as int,
        }
    }

    /// The record after the round closes with `correct` as the right answer:
    /// a pending wager is paid out or taken, counted, and cleared; a fresh
    /// record is left as it is.
    pub open spec fn settled(self, correct: u8) -> RecordView {
        match (self.bet_amount, self.number_betted_on) {
            (Some(stake), Some(choice)) => RecordView {
                bank_amount: self.settled_balance(correct) as nat,
                bet_amount: None,
                number_betted_on: None,
                times_betted: self.times_betted + 1,
                times_right: if choice == correct {
                    self.times_right + 1
                } else {
                    self.times_right
                },
                ..self
            },
            _ => self,
        }
    }

    /// Settling this record against `correct` cannot overflow a machine
    /// integer: a pending wager raises the bet count, and a winning one also
    /// raises the balance and the count of right answers.
    pub open spec fn can_settle(self, correct: u8) -> bool {
        match (self.bet_amount, self.number_betted_on) {
            (Some(stake), Some(choice)) => {
                &&& self.times_betted < u64::MAX
                &&& choice == correct ==> self.bank_amount + stake <= usize::MAX
                    && self.times_right < u64::MAX
            },
            _ => true,
        }
    }

    /// A fresh record for a participant first seen with `name`.
    pub open spec fn fresh(name: Seq<char>, amount: nat) -> RecordView {
        RecordView {
            name,
            bank_amount: amount,
            bet_amount: None,
            number_betted_on: None,
            times_betted: 0,
            times_right: 0,
        }
    }
}

/// One participant's balance, pending wager and counters.
pub struct BetDetails {
    pub name: String,
    pub bank_amount: usize,
    pub bet_amount: Option<usize>,
    pub number_betted_on: Option<u8>,
    pub times_betted: u64,
    pub times_right: u64,
}

pub open spec fn opt_nat(o: Option<usize>) -> Option<nat> {
    match o {
        Some(v) => Some(v as nat),
        None => None,
    }
}

impl View for BetDetails {
    type V = RecordView;

    open spec fn view(&self) -> RecordView {
        RecordView {
            name: self.name@,
            bank_amount: self.bank_amount as nat,
            bet_amount: opt_nat(self.bet_amount),
            number_betted_on: self.number_betted_on,
            times_betted: self.times_betted as nat,
            times_right: self.times_right as nat,
        }
    }
}

impl BetDetails {
    pub fn new(name: String, amount: usize) -> (r: BetDetails)
        ensures
            r@ == RecordView::fresh(name@, amount as nat),
    {
        BetDetails {
            name,
            bank_amount: amount,
            bet_amount: None,
            number_betted_on: None,
            times_betted: 0,
            times_right: 0,
        }
    }

    pub fn is_fresh(&self) -> (r: bool)
        ensures
            r == self@.is_fresh(),
    {
        self.bet_amount.is_none() && self.number_betted_on.is_none()
    }

    /// Closes this record's wager with `right_answer` as the correct choice.
    pub fn apply(&mut self, right_answer: u8)
        requires
            right_answer == 1 || right_answer == 2,
            old(self)@.wf(),
            old(self)@.can_settle(right_answer),
        ensures
            final(self)@ == old(self)@.settled(right_answer),
            final(self)@.wf(),
    {
        match (self.bet_amount, self.number_betted_on) {
            (Some(stake), Some(choice)) => {
                if choice == right_answer {
                    self.bank_amount = self.bank_amount + stake;
                    self.times_right = self.times_right + 1;
                } else {
                    self.bank_amount = self.bank_amount - stake;
                }
                self.times_betted = self.times_betted + 1;
                self.bet_amount = None;
                self.number_betted_on = None;
            },
            _ => {},
        }
    }
}

} // verus!
