use vstd::prelude::*;

use crate::parse::{parse_unsigned, parsed_unsigned, split_words, words_of, words_view};

verus! {

/// An operator command handed to the round controller.
pub enum InputtedCommand {
    Start { amount: usize },
    Save { file: String },
    EndRound { correct_answer: u8 },
    Exit,
}

/// What the console does with one line the operator typed.
pub enum ConsoleOutcome {
    /// Print the command summary.
    Help,
    /// Hand a command to the round controller.
    Send(InputtedCommand),
    /// Ask the operator to type `exit` again to confirm.
    ConfirmExit,
    /// A command that takes an argument came without one.
    NotEnoughArguments,
    /// The amount given to `start` is not a number.
    InvalidAmount { arg: String },
    /// The answer given to `endround` is not a number.
    InvalidAnswer { arg: String },
    /// The answer given to `endround` is a number other than 1 or 2.
    NotOneOrTwo { arg: String },
    /// The line names no command.
    UnknownCommand,
}

/// What to do with the outcome of reading one console line.
pub enum ReadStep {
    /// The line was read.
    Line(String),
    /// Reading failed: tell the operator the input was invalid and read again.
    Retry,
}

/// Keeps a line that was read, and asks for another after a failed read.
pub fn input_safe(read: Option<String>) -> (r: ReadStep)
    ensures
        read matches Some(line) ==> r == ReadStep::Line(line),
        read is None ==> r == ReadStep::Retry,
{
    match read {
        Some(line) => ReadStep::Line(line),
        None => ReadStep::Retry,
    }
}

/// Whether `w` spells exactly `lit`.
pub fn text_is(w: &str, lit: &str) -> (r: bool)
    ensures
        r == (w@ == lit@),
{
    let n = w.unicode_len();
    if n != lit.unicode_len() {
        return false;
    }
    let mut i: usize = 0;
    while i < n
        invariant
            n == w@.len() == lit@.len(),
            i <= n,
            forall|k: int| 0 <= k < i ==> w@[k] == lit@[k],
        decreases n - i,
    {
        if w.get_char(i) != lit.get_char(i) {
            return false;
        }
        i = i + 1;
    }
    assert(w@ =~= lit@);
    true
}

/// The answer to `start`: the amount must be a number.
pub open spec fn start_command_outcome(inp: Seq<String>) -> ConsoleOutcome {
    if inp.len() < 2 {
        ConsoleOutcome::NotEnoughArguments
    } else {
        match parsed_unsigned(inp[1]@, usize::MAX as nat) {
            Some(a) => ConsoleOutcome::Send(InputtedCommand::Start { amount: a as usize }),
            None => ConsoleOutcome::InvalidAmount { arg: inp[1] },
        }
    }
}

/// The answer to `save`: the file is the first argument.
pub open spec fn save_outcome(inp: Seq<String>) -> ConsoleOutcome {
    if inp.len() < 2 {
        ConsoleOutcome::NotEnoughArguments
    } else {
        ConsoleOutcome::Send(InputtedCommand::Save { file: inp[1] })
    }
}

/// The answer to `endround`: the answer must be the number 1 or 2.
pub open spec fn endround_outcome(inp: Seq<String>) -> ConsoleOutcome {
    if inp.len() < 2 {
        ConsoleOutcome::NotEnoughArguments
    } else {
        match parsed_unsigned(inp[1]@, 255) {
            Some(c) => if c == 1 || c == 2 {
                ConsoleOutcome::Send(InputtedCommand::EndRound { correct_answer: c as u8 })
            } else {
                ConsoleOutcome::NotOneOrTwo { arg: inp[1] }
            },
            None => ConsoleOutcome::InvalidAnswer { arg: inp[1] },
        }
    }
}

/// Reads `start <amount>`: a missing or non-numeric amount is reported.
pub fn start_command(inp: &Vec<String>) -> (r: ConsoleOutcome)
    ensures
        r == start_command_outcome(inp@),
{
    if inp.len() < 2 {
        return ConsoleOutcome::NotEnoughArguments;
    }
    match parse_unsigned(inp[1].as_str(), usize::MAX) {
        Some(amount) => ConsoleOutcome::Send(InputtedCommand::Start { amount }),
        None => ConsoleOutcome::InvalidAmount { arg: inp[1].clone() },
    }
}

/// Reads `save <file>`.
pub fn save(inp: &Vec<String>) -> (r: ConsoleOutcome)
    ensures
        r == save_outcome(inp@),
{
    if inp.len() < 2 {
        return ConsoleOutcome::NotEnoughArguments;
    }
    ConsoleOutcome::Send(InputtedCommand::Save { file: inp[1].clone() })
}

/// Reads `endround <answer>`: the answer must be 1 or 2.
pub fn endround(inp: &Vec<String>) -> (r: ConsoleOutcome)
    ensures
        r == endround_outcome(inp@),
{
    if inp.len() < 2 {
        return ConsoleOutcome::NotEnoughArguments;
    }
    match parse_unsigned(inp[1].as_str(), 255) {
        Some(c) => if c == 1 || c == 2 {
            ConsoleOutcome::Send(InputtedCommand::EndRound { correct_answer: c as u8 })
        } else {
            ConsoleOutcome::NotOneOrTwo { arg: inp[1].clone() }
        },
        None => ConsoleOutcome::InvalidAnswer { arg: inp[1].clone() },
    }
}

/// The console's answer to a line split into `words`, whose first word
/// lowered is `keyword`, with whether an `exit` now awaits confirmation.
pub open spec fn console_answer(asked_to_exit: bool, keyword: Seq<char>, words: Seq<String>) -> (ConsoleOutcome, bool) {
    if words.len() == 0 {
        (ConsoleOutcome::UnknownCommand, false)
    } else if keyword == "help"@ {
        (ConsoleOutcome::Help, false)
    } else if keyword == "exit"@ {
        if asked_to_exit {
            (ConsoleOutcome::Send(InputtedCommand::Exit), false)
        } else {
            (ConsoleOutcome::ConfirmExit, true)
        }
    } else if keyword == "start"@ {
        (start_command_outcome(words), false)
    } else if keyword == "save"@ {
        (save_outcome(words), false)
    } else if keyword == "endround"@ {
        (endround_outcome(words), false)
    } else {
        (ConsoleOutcome::UnknownCommand, false)
    }
}

/// The console's answer to one line split into `words`, whose first word
/// lowered is `keyword`, and whether an `exit` now awaits confirmation.
/// `exit` must be typed twice in a row: any other line clears a pending
/// confirmation.
pub fn console_step_words(asked_to_exit: bool, keyword: &String, words: &Vec<String>) -> (r: (ConsoleOutcome, bool))
    ensures
        r == console_answer(asked_to_exit, keyword@, words@),
{
    if words.len() == 0 {
        return (ConsoleOutcome::UnknownCommand, false);
    }
    let kw = keyword.as_str();
    proof {
        reveal_strlit("help");
        reveal_strlit("exit");
        reveal_strlit("start");
        reveal_strlit("save");
        reveal_strlit("endround");
        assert("help"@[0] != "exit"@[0]);
        assert("start"@[1] != "save"@[1]);
        assert("help"@.len() != "start"@.len() && "exit"@.len() != "start"@.len());
        assert("help"@[0] != "save"@[0] && "exit"@[0] != "save"@[0]);
        assert("endround"@.len() != "help"@.len() && "endround"@.len() != "start"@.len());
        assert("endround"@.len() != "save"@.len());
    }
    if text_is(kw, "help") {
        (ConsoleOutcome::Help, false)
    } else if text_is(kw, "exit") {
        if asked_to_exit {
            (ConsoleOutcome::Send(InputtedCommand::Exit), false)
        } else {
            (ConsoleOutcome::ConfirmExit, true)
        }
    } else if text_is(kw, "start") {
        (start_command(words), false)
    } else if text_is(kw, "save") {
        (save(words), false)
    } else if text_is(kw, "endround") {
        (endround(words), false)
    } else {
        (ConsoleOutcome::UnknownCommand, false)
    }
}

/// What `str::to_lowercase` yields for a text.
pub uninterp spec fn lower_of(s: Seq<char>) -> Seq<char>;

/// Relies on `str::to_lowercase`: the lowercase form of `s`, which depends on
/// its characters alone.
#[verifier::external_body]
fn lowercase(s: &str) -> (r: String)
    ensures
        r@ == lower_of(s@),
{
    s.to_lowercase()
}

/// The console's answer to one typed line: its words are split on
/// whitespace and the command word is matched without regard to case.
pub fn console_step(asked_to_exit: bool, line: &String) -> (r: (ConsoleOutcome, bool))
    ensures
        exists|ws: Seq<String>|
            words_view(ws) == words_of(line@) && r == console_answer(
                asked_to_exit,
                if ws.len() > 0 {
                    lower_of(ws[0]@)
                } else {
                    Seq::empty()
                },
                ws,
            ),
{
    let words = split_words(line.as_str());
    if words.len() == 0 {
        return (ConsoleOutcome::UnknownCommand, false);
    }
    let keyword = lowercase(words[0].as_str());
    console_step_words(asked_to_exit, &keyword, &words)
}

} // verus!
