use ift_bot::console::{
    console_step, console_step_words, endround, input_safe, save, start_command, text_is,
    ConsoleOutcome, InputtedCommand,
    ReadStep,
};
use ift_bot::engine::{ControlAction, EndRoundOutcome, Engine, Reply, ReplyKind};
use ift_bot::ledger::{Ledger, SnapshotError, SnapshotRecord};
use ift_bot::parse::{is_bet_keyword, parse_unsigned};
use ift_bot::record::BetDetails;

fn s(x: &str) -> String {
    x.to_string()
}

fn bet(engine: &mut Engine, id: &str, name: &str, text: &str) -> Option<Reply> {
    engine.handle_message(&s("chan"), &s(id), &s(name), &s(text))
}

fn record<'a>(engine: &'a Engine, id: &str) -> Option<&'a BetDetails> {
    engine.ledger().get(&s(id))
}

#[test]
fn win_pays_out_the_stake() {
    let mut e = Engine::new();
    e.start(100);
    assert!(bet(&mut e, "a", "Alice", "!bet 40 1").is_none());
    assert_eq!(e.end_round(1), EndRoundOutcome::Settled);
    let r = record(&e, "a").unwrap();
    assert_eq!(r.bank_amount, 140);
    assert_eq!(r.times_betted, 1);
    assert_eq!(r.times_right, 1);
    assert_eq!(r.bet_amount, None);
    assert_eq!(r.number_betted_on, None);
}

#[test]
fn stake_above_balance_is_refused() {
    let mut e = Engine::new();
    e.start(100);
    let reply = bet(&mut e, "b", "Bob", "!bet 150 1").unwrap();
    assert_eq!(reply.channel, "chan");
    match reply.kind {
        ReplyKind::InsufficientBalance { name, balance } => {
            assert_eq!(name, "Bob");
            assert_eq!(balance, 100);
        }
        _ => panic!("expected an insufficient-balance reply"),
    }
    let r = record(&e, "b").unwrap();
    assert_eq!(r.bank_amount, 100);
    assert!(r.is_fresh());
}

#[test]
fn loss_takes_the_stake() {
    let mut e = Engine::new();
    e.start(100);
    assert!(bet(&mut e, "b", "Bob", "!bet 30 2").is_none());
    assert_eq!(e.end_round(1), EndRoundOutcome::Settled);
    let r = record(&e, "b").unwrap();
    assert_eq!(r.bank_amount, 70);
    assert_eq!(r.times_betted, 1);
    assert_eq!(r.times_right, 0);
}

#[test]
fn bets_before_start_are_discarded() {
    let mut e = Engine::new();
    assert!(bet(&mut e, "a", "Alice", "!bet 10 1").is_none());
    assert!(bet(&mut e, "a", "Alice", "!bet nope").is_none());
    assert_eq!(e.ledger().len(), 0);
    assert_eq!(e.end_round(1), EndRoundOutcome::NoRound);
}

#[test]
fn first_bet_stands() {
    let mut e = Engine::new();
    e.start(100);
    assert!(bet(&mut e, "a", "Alice", "!bet 10 1").is_none());
    assert!(bet(&mut e, "a", "Alice", "!bet 50 2").is_none());
    assert!(bet(&mut e, "a", "Alice", "!bet 500 2").is_none());
    let r = record(&e, "a").unwrap();
    assert_eq!(r.bet_amount, Some(10));
    assert_eq!(r.number_betted_on, Some(1));
    assert_eq!(e.ledger().len(), 1);
}

#[test]
fn settling_twice_changes_nothing() {
    let mut e = Engine::new();
    e.start(100);
    bet(&mut e, "a", "Alice", "!bet 40 1");
    bet(&mut e, "b", "Bob", "!bet 30 2");
    e.end_round(2);
    e.end_round(2);
    assert_eq!(record(&e, "a").unwrap().bank_amount, 60);
    assert_eq!(record(&e, "a").unwrap().times_betted, 1);
    assert_eq!(record(&e, "b").unwrap().bank_amount, 130);
    assert_eq!(record(&e, "b").unwrap().times_right, 1);
}

#[test]
fn whole_balance_can_be_lost_but_not_more() {
    let mut e = Engine::new();
    e.start(100);
    assert!(bet(&mut e, "a", "Alice", "!bet 100 2").is_none());
    e.end_round(1);
    assert_eq!(record(&e, "a").unwrap().bank_amount, 0);
    assert!(bet(&mut e, "a", "Alice", "!bet 1 2").is_some());
    assert!(bet(&mut e, "a", "Alice", "!bet 0 2").is_none());
    assert_eq!(record(&e, "a").unwrap().bet_amount, Some(0));
}

#[test]
fn pending_fields_move_together() {
    let mut e = Engine::new();
    e.start(50);
    bet(&mut e, "a", "Alice", "!bet 5 2");
    bet(&mut e, "b", "Bob", "!bet x 2");
    bet(&mut e, "c", "Cy", "!bet 500 1");
    for i in 0..e.ledger().len() {
        let d = &e.ledger().entry(i).details;
        assert_eq!(d.bet_amount.is_some(), d.number_betted_on.is_some());
    }
    e.end_round(2);
    for i in 0..e.ledger().len() {
        assert!(e.ledger().entry(i).details.is_fresh());
    }
}

#[test]
fn malformed_bets_get_replies() {
    let mut e = Engine::new();
    e.start(100);
    match bet(&mut e, "a", "Alice", "!bet 10").unwrap().kind {
        ReplyKind::Usage { name, text } => {
            assert_eq!(name, "Alice");
            assert_eq!(text, "!bet 10");
        }
        _ => panic!("expected a usage reply"),
    }
    match bet(&mut e, "a", "Alice", "!bet 10 x").unwrap().kind {
        ReplyKind::ChoiceNotNumber { token, .. } => assert_eq!(token, "x"),
        _ => panic!("expected a choice-not-a-number reply"),
    }
    match bet(&mut e, "a", "Alice", "!bet 10 3").unwrap().kind {
        ReplyKind::ChoiceOutOfRange { token, .. } => assert_eq!(token, "3"),
        _ => panic!("expected an out-of-range reply"),
    }
    match bet(&mut e, "a", "Alice", "!bet ten 1").unwrap().kind {
        ReplyKind::StakeNotNumber { token, .. } => assert_eq!(token, "ten"),
        _ => panic!("expected a stake-not-a-number reply"),
    }
    assert_eq!(e.ledger().len(), 0);
}

#[test]
fn other_chat_is_ignored() {
    let mut e = Engine::new();
    e.start(100);
    assert!(bet(&mut e, "a", "Alice", "hello there").is_none());
    assert!(bet(&mut e, "a", "Alice", "").is_none());
    assert!(bet(&mut e, "a", "Alice", "!betting 1 2").is_none());
    assert_eq!(e.ledger().len(), 0);
}

#[test]
fn extra_whitespace_is_tolerated() {
    let mut e = Engine::new();
    e.start(100);
    assert!(bet(&mut e, "a", "Alice", "  !bet\t20   1 \n").is_none());
    assert_eq!(record(&e, "a").unwrap().bet_amount, Some(20));
}

#[test]
fn start_replaces_the_ledger() {
    let mut e = Engine::new();
    e.start(100);
    bet(&mut e, "a", "Alice", "!bet 10 1");
    e.start(7);
    assert_eq!(e.ledger().len(), 0);
    assert_eq!(e.default_amount(), Some(7));
    bet(&mut e, "a", "Alice", "!bet 10 1");
    assert_eq!(record(&e, "a").unwrap().bank_amount, 7);
    assert!(record(&e, "a").unwrap().is_fresh());
}

#[test]
fn snapshot_round_trip() {
    let mut e = Engine::new();
    e.start(100);
    bet(&mut e, "z", "Zed", "!bet 40 1");
    bet(&mut e, "a", "Alice", "!bet 30 2");
    e.end_round(1);
    bet(&mut e, "a", "Alice", "!bet 5 1");
    let snap = e.snapshot();
    assert_eq!(snap.len(), 2);
    let loaded = Ledger::from_snapshot(&snap).ok().unwrap();
    assert_eq!(loaded.len(), 2);
    for id in ["z", "a"] {
        let x = e.ledger().get(&s(id)).unwrap();
        let y = loaded.get(&s(id)).unwrap();
        assert_eq!(x.name, y.name);
        assert_eq!(x.bank_amount, y.bank_amount);
        assert_eq!(x.bet_amount, y.bet_amount);
        assert_eq!(x.number_betted_on, y.number_betted_on);
        assert_eq!(x.times_betted, y.times_betted);
        assert_eq!(x.times_right, y.times_right);
    }
    let mut f = Engine::new();
    assert!(f.start_from_snapshot(&snap, 100).is_ok());
    assert_eq!(f.ledger().get(&s("a")).unwrap().bet_amount, Some(5));
    assert_eq!(f.ledger().get(&s("z")).unwrap().bank_amount, 140);
}

fn snap_record(id: &str, bank: usize, stake: Option<usize>, choice: Option<u8>) -> SnapshotRecord {
    SnapshotRecord {
        id: s(id),
        name: s(id),
        bank_amount: bank,
        bet_amount: stake,
        number_betted_on: choice,
        times_betted: 0,
        times_right: 0,
    }
}

#[test]
fn malformed_snapshots_are_refused() {
    let dup = vec![snap_record("a", 1, None, None), snap_record("a", 2, None, None)];
    assert_eq!(Ledger::from_snapshot(&dup).err(), Some(SnapshotError::InvalidRecord { index: 1 }));
    let half = vec![snap_record("a", 1, Some(1), None)];
    assert_eq!(Ledger::from_snapshot(&half).err(), Some(SnapshotError::InvalidRecord { index: 0 }));
    let choice = vec![snap_record("a", 1, None, None), snap_record("b", 5, Some(1), Some(3))];
    assert_eq!(Ledger::from_snapshot(&choice).err(), Some(SnapshotError::InvalidRecord { index: 1 }));
    let over = vec![snap_record("a", 1, Some(2), Some(1))];
    assert_eq!(Ledger::from_snapshot(&over).err(), Some(SnapshotError::InvalidRecord { index: 0 }));
    let mut e = Engine::new();
    e.start(10);
    bet(&mut e, "q", "Q", "!bet 1 1");
    assert!(e.start_from_snapshot(&dup, 99).is_err());
    assert_eq!(e.default_amount(), Some(10));
    assert_eq!(e.ledger().len(), 1);
}

#[test]
fn report_lines_relative_to_default() {
    let mut e = Engine::new();
    assert!(e.report().is_none());
    e.start(100);
    bet(&mut e, "a", "Alice", "!bet 40 1");
    bet(&mut e, "b", "Bob", "!bet 30 2");
    bet(&mut e, "c", "Cy", "hi");
    bet(&mut e, "c", "Cy", "!bet 0 1");
    e.end_round(1);
    let lines = e.report().unwrap();
    assert_eq!(lines.len(), 3);
    assert_eq!((lines[0].name.as_str(), lines[0].gained, lines[0].points), ("Alice", true, 40));
    assert_eq!((lines[1].name.as_str(), lines[1].gained, lines[1].points), ("Bob", false, 30));
    assert_eq!((lines[2].name.as_str(), lines[2].gained, lines[2].points), ("Cy", false, 0));
}

#[test]
fn control_dispatches_commands() {
    let mut e = Engine::new();
    assert!(matches!(e.control(InputtedCommand::EndRound { correct_answer: 1 }), ControlAction::NoRound));
    assert!(matches!(e.control(InputtedCommand::Start { amount: 20 }), ControlAction::Started { amount: 20 }));
    bet(&mut e, "a", "Alice", "!bet 20 2");
    match e.control(InputtedCommand::Save { file: s("out.txt") }) {
        ControlAction::Save { file, report } => {
            assert_eq!(file, "out.txt");
            assert_eq!(report.unwrap().len(), 1);
        }
        _ => panic!("expected a save action"),
    }
    assert!(matches!(
        e.control(InputtedCommand::EndRound { correct_answer: 2 }),
        ControlAction::RoundEnded { correct_answer: 2 }
    ));
    assert_eq!(record(&e, "a").unwrap().bank_amount, 40);
    assert!(!e.is_stopped());
    assert!(matches!(e.control(InputtedCommand::Exit), ControlAction::Exit));
    assert!(e.is_stopped());
}

#[test]
fn overflowing_settlement_is_refused() {
    let snap = vec![snap_record("a", usize::MAX, Some(1), Some(1))];
    let mut e = Engine::new();
    e.start_from_snapshot(&snap, 5).unwrap();
    assert_eq!(e.end_round(1), EndRoundOutcome::WouldOverflow);
    assert_eq!(record(&e, "a").unwrap().bank_amount, usize::MAX);
    assert_eq!(e.end_round(2), EndRoundOutcome::Settled);
    assert_eq!(record(&e, "a").unwrap().bank_amount, usize::MAX - 1);
    assert!(record(&e, "a").unwrap().is_fresh());
}

#[test]
fn losing_bet_at_the_limit_is_settled() {
    let mut e = Engine::new();
    e.start(usize::MAX);
    assert!(bet(&mut e, "a", "Alice", "!bet 1 2").is_none());
    assert_eq!(e.end_round(1), EndRoundOutcome::Settled);
    let r = record(&e, "a").unwrap();
    assert_eq!(r.bank_amount, usize::MAX - 1);
    assert_eq!((r.times_betted, r.times_right), (1, 0));
    assert!(r.is_fresh());
}

#[test]
fn record_apply_and_new() {
    let mut d = BetDetails::new(s("N"), 10);
    assert!(d.is_fresh());
    d.apply(1);
    assert_eq!(d.bank_amount, 10);
    assert_eq!(d.times_betted, 0);
    d.bet_amount = Some(4);
    d.number_betted_on = Some(2);
    d.apply(2);
    assert_eq!((d.bank_amount, d.times_betted, d.times_right), (14, 1, 1));
}

#[test]
fn unsigned_parsing() {
    assert_eq!(parse_unsigned("42", usize::MAX), Some(42));
    assert_eq!(parse_unsigned("+7", 255), Some(7));
    assert_eq!(parse_unsigned("007", 255), Some(7));
    assert_eq!(parse_unsigned("255", 255), Some(255));
    assert_eq!(parse_unsigned("256", 255), None);
    assert_eq!(parse_unsigned("", 255), None);
    assert_eq!(parse_unsigned("+", 255), None);
    assert_eq!(parse_unsigned("-1", 255), None);
    assert_eq!(parse_unsigned("1a", 255), None);
    assert_eq!(parse_unsigned("18446744073709551615", usize::MAX), Some(usize::MAX));
    assert_eq!(parse_unsigned("18446744073709551616", usize::MAX), None);
    assert!(is_bet_keyword("!bet"));
    assert!(!is_bet_keyword("!BET"));
}

fn words(xs: &[&str]) -> Vec<String> {
    xs.iter().map(|x| x.to_string()).collect()
}

#[test]
fn console_commands() {
    assert!(matches!(start_command(&words(&["start", "50"])), ConsoleOutcome::Send(InputtedCommand::Start { amount: 50 })));
    assert!(matches!(start_command(&words(&["start"])), ConsoleOutcome::NotEnoughArguments));
    assert!(matches!(start_command(&words(&["start", "x"])), ConsoleOutcome::InvalidAmount { .. }));
    assert!(matches!(save(&words(&["save", "f.txt"])), ConsoleOutcome::Send(InputtedCommand::Save { .. })));
    assert!(matches!(endround(&words(&["endround", "2"])), ConsoleOutcome::Send(InputtedCommand::EndRound { correct_answer: 2 })));
    assert!(matches!(endround(&words(&["endround", "3"])), ConsoleOutcome::NotOneOrTwo { .. }));
    assert!(matches!(endround(&words(&["endround", "q"])), ConsoleOutcome::InvalidAnswer { .. }));
}

#[test]
fn console_lines_and_exit_confirmation() {
    assert!(matches!(console_step(false, &s("HELP")), (ConsoleOutcome::Help, false)));
    assert!(matches!(console_step(false, &s("  Start 30 ")), (ConsoleOutcome::Send(InputtedCommand::Start { amount: 30 }), false)));
    assert!(matches!(console_step(false, &s("exit")), (ConsoleOutcome::ConfirmExit, true)));
    assert!(matches!(console_step(true, &s("EXIT")), (ConsoleOutcome::Send(InputtedCommand::Exit), false)));
    assert!(matches!(console_step(true, &s("help")), (ConsoleOutcome::Help, false)));
    assert!(matches!(console_step(true, &s("save")), (ConsoleOutcome::NotEnoughArguments, false)));
    assert!(matches!(console_step(true, &s("start")), (ConsoleOutcome::NotEnoughArguments, false)));
    assert!(matches!(console_step(true, &s("bogus")), (ConsoleOutcome::UnknownCommand, false)));
    assert!(matches!(console_step(false, &s("")), (ConsoleOutcome::UnknownCommand, false)));
    match console_step(false, &s("save Report.TXT")) {
        (ConsoleOutcome::Send(InputtedCommand::Save { file }), false) => assert_eq!(file, "Report.TXT"),
        _ => panic!("expected a save command"),
    }
}

#[test]
fn read_retry() {
    assert!(matches!(input_safe(Some(s("x"))), ReadStep::Line(l) if l == "x"));
    assert!(matches!(input_safe(None), ReadStep::Retry));
}

#[test]
fn pre_split_words_are_handled_like_text() {
    let mut e = Engine::new();
    e.start(60);
    let ws = words(&["!bet", "25", "2"]);
    let r = e.handle_words(&s("chan"), &s("p"), &s("Pat"), &s("!bet 25 2"), &ws);
    assert!(r.is_none());
    assert_eq!(record(&e, "p").unwrap().bet_amount, Some(25));
    assert_eq!(record(&e, "p").unwrap().number_betted_on, Some(2));
    let ws = words(&["!bet", "25"]);
    assert!(e.handle_words(&s("chan"), &s("q"), &s("Quinn"), &s("!bet 25"), &ws).is_some());
}

#[test]
fn keyword_matching_is_exact() {
    assert!(text_is("save", "save"));
    assert!(!text_is("Save", "save"));
    assert!(!text_is("saves", "save"));
    let ws = words(&["ENDROUND", "1"]);
    assert!(matches!(
        console_step_words(false, &s("endround"), &ws),
        (ConsoleOutcome::Send(InputtedCommand::EndRound { correct_answer: 1 }), false)
    ));
    assert!(matches!(
        console_step_words(true, &s("ENDROUND"), &ws),
        (ConsoleOutcome::UnknownCommand, false)
    ));
}
