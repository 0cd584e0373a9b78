use way2fa::acc::Account;
use way2fa::parse::file::CsvParser;
use way2fa::parse::{AccList, DataSrc, SourceError};
use way2fa::ui::frame::{
    code_text, countdown_text, digit_str, origin_label, peek_text, widest_label, Row,
};
use way2fa::ui::layout::{
    bar_area, bar_runs_out, countdown_tone, list_height, modal_height, peek_area, Area, Tone,
};
use way2fa::ui::session::Session;
use way2fa::ui::{App, InputEvent, KeyCode, KeyKind, LoopError, RunEnd, Tick};

const RFC_KEY: &[u8] = b"12345678901234567890";

fn account(name: &str, acc_id: Option<&str>, interv: Option<u64>) -> Account {
    Account {
        name: String::from(name),
        acc_id: acc_id.map(String::from),
        key: RFC_KEY.to_vec(),
        interv,
    }
}

fn app_with(accounts: Vec<Account>) -> App {
    match App::assemble(DataSrc::Filename(String::from("keys.csv")), Ok(accounts)) {
        Ok(app) => app,
        Err(e) => panic!("no display: {:?}", e),
    }
}

fn two_accounts() -> App {
    app_with(vec![account("a", None, Some(30)), account("b", Some("me"), Some(60))])
}

fn flags(app: &App) -> (bool, bool, bool) {
    (app.quitting(), app.peek_enabled(), app.modal_open())
}

fn press(code: KeyCode) -> InputEvent {
    InputEvent::Key(code, KeyKind::Press)
}

struct Fixed {
    accounts: Result<Vec<Account>, SourceError>,
}

impl AccList for Fixed {
    fn get_accs(&self) -> Result<Vec<Account>, SourceError> {
        self.accounts.clone()
    }

    fn get_src(&self) -> DataSrc<String> {
        DataSrc::Msg(String::from("fixed"))
    }

    fn write_accs(&self, _to_write: Vec<Account>) -> Result<(), SourceError> {
        Err(SourceError::UnimplementedCapability)
    }
}

#[test]
fn a_new_display_has_every_switch_off() {
    let app = two_accounts();
    assert_eq!(flags(&app), (false, false, false));
    assert_eq!(app.accs().len(), 2);
    assert_eq!(app.accs()[0].name, "a");
    assert_eq!(app.accs()[1].name, "b");
    assert_eq!(*app.source().unwrap(), "keys.csv");
}

#[test]
fn a_display_starts_from_a_source() {
    let mut parser = CsvParser::new(Some(String::from("keys.csv")), false, None);
    parser.attach(
        b"name,key,interv\nmail,GEZDGNBVGY3TQOJQGEZDGNBVGY3TQOJQ,30\nbank,MZXW6YTB,60\n".to_vec(),
    );
    let app = App::new(&parser).unwrap_or_else(|e| panic!("no display: {:?}", e));
    assert_eq!(flags(&app), (false, false, false));
    assert_eq!(app.accs().len(), 2);
    assert_eq!(app.accs()[0].name, "mail");
    assert_eq!(app.accs()[1].name, "bank");
    match app.source() {
        DataSrc::Filename(name) => assert_eq!(name, "keys.csv"),
        DataSrc::Msg(_) => panic!("a file name was expected"),
    }
}

#[test]
fn a_failed_load_starts_no_display() {
    let parser = CsvParser::new(Some(String::from("keys.csv")), false, None);
    assert_eq!(App::new(&parser).err(), Some(SourceError::SourceUnavailable));
    let mut bad = CsvParser::new(Some(String::from("keys.csv")), false, None);
    bad.attach(b"name,key\nfine,MZXW6YTB\nbroken,11111\n".to_vec());
    assert_eq!(App::new(&bad).err(), Some(SourceError::MalformedEntry(1)));
    let failing = Fixed { accounts: Err(SourceError::UnimplementedCapability) };
    assert_eq!(App::new(&failing).err(), Some(SourceError::UnimplementedCapability));
}

#[test]
fn accounts_that_cannot_be_shown_are_refused() {
    let zero = Fixed { accounts: Ok(vec![account("a", None, None), account("b", None, Some(0))]) };
    assert_eq!(App::new(&zero).err(), Some(SourceError::MalformedEntry(1)));
    let nameless = Fixed { accounts: Ok(vec![account("", None, None)]) };
    assert_eq!(App::new(&nameless).err(), Some(SourceError::MalformedEntry(0)));
    let mut keyless = account("a", None, None);
    keyless.key = Vec::new();
    let source = Fixed {
        accounts: Ok(vec![account("x", None, None), account("y", None, None), keyless]),
    };
    assert_eq!(App::new(&source).err(), Some(SourceError::MalformedEntry(2)));
    assert_eq!(App::find_unfit(&[account("x", None, Some(1))].to_vec()), None);
    let fine = Fixed { accounts: Ok(vec![account("x", None, Some(1))]) };
    assert!(App::new(&fine).is_ok());
    let empty = Fixed { accounts: Ok(Vec::new()) };
    assert_eq!(App::new(&empty).map(|app| app.accs().len()).ok(), Some(0));
}

#[test]
fn q_quits() {
    let mut app = two_accounts();
    app.press(KeyCode::Char('q'));
    assert_eq!(flags(&app), (true, false, false));
}

#[test]
fn p_twice_is_no_change() {
    let mut app = two_accounts();
    app.press(KeyCode::Char('p'));
    assert_eq!(flags(&app), (false, true, false));
    app.press(KeyCode::Char('p'));
    assert_eq!(flags(&app), (false, false, false));
}

#[test]
fn n_then_escape_closes_the_window() {
    let mut app = two_accounts();
    app.press(KeyCode::Char('n'));
    assert_eq!(flags(&app), (false, false, true));
    app.press(KeyCode::Esc);
    assert_eq!(flags(&app), (false, false, false));
}

#[test]
fn the_open_window_swallows_every_key_but_escape() {
    let mut app = two_accounts();
    app.press(KeyCode::Char('p'));
    app.press(KeyCode::Char('n'));
    let before = flags(&app);
    assert_eq!(before, (false, true, true));
    for code in [
        KeyCode::Char('q'),
        KeyCode::Char('p'),
        KeyCode::Char('n'),
        KeyCode::Char('x'),
        KeyCode::Char('\u{e9}'),
        KeyCode::Other,
    ] {
        app.press(code);
        assert_eq!(flags(&app), before);
    }
    app.press(KeyCode::Esc);
    assert_eq!(flags(&app), (false, true, false));
}

#[test]
fn other_keys_do_nothing() {
    let mut app = two_accounts();
    for code in [
        KeyCode::Char('Q'),
        KeyCode::Char('P'),
        KeyCode::Char('N'),
        KeyCode::Char(' '),
        KeyCode::Esc,
        KeyCode::Other,
    ] {
        app.press(code);
        assert_eq!(flags(&app), (false, false, false));
    }
}

#[test]
fn only_the_latest_press_of_a_batch_counts() {
    let mut app = two_accounts();
    app.handle_events(&vec![press(KeyCode::Char('q')), press(KeyCode::Char('p'))]);
    assert_eq!(flags(&app), (false, true, false));
    app.handle_events(&vec![
        press(KeyCode::Char('p')),
        press(KeyCode::Char('n')),
        InputEvent::Other,
    ]);
    assert_eq!(flags(&app), (false, true, true));
    app.handle_events(&vec![
        press(KeyCode::Esc),
        InputEvent::Key(KeyCode::Char('q'), KeyKind::Release),
        InputEvent::Key(KeyCode::Char('q'), KeyKind::Repeat),
    ]);
    assert_eq!(flags(&app), (false, true, false));
}

#[test]
fn batches_without_a_press_change_nothing() {
    let mut app = two_accounts();
    app.handle_events(&Vec::new());
    assert_eq!(flags(&app), (false, false, false));
    app.handle_events(&vec![
        InputEvent::Other,
        InputEvent::Key(KeyCode::Char('q'), KeyKind::Release),
        InputEvent::Key(KeyCode::Char('p'), KeyKind::Repeat),
    ]);
    assert_eq!(flags(&app), (false, false, false));
}

#[test]
fn a_step_takes_in_a_tick() {
    let mut app = two_accounts();
    assert_eq!(app.step(&Tick::Polled(vec![press(KeyCode::Char('p'))])), Ok(()));
    assert_eq!(flags(&app), (false, true, false));
    assert_eq!(app.step(&Tick::Polled(Vec::new())), Ok(()));
    assert_eq!(flags(&app), (false, true, false));
    assert_eq!(app.step(&Tick::DrawFailed), Err(LoopError::RenderFailure));
    assert_eq!(app.step(&Tick::PollFailed), Err(LoopError::InputFailure));
    assert_eq!(flags(&app), (false, true, false));
}

#[test]
fn a_run_ends_when_told_to_quit() {
    let mut app = two_accounts();
    let ticks = vec![
        Tick::Polled(Vec::new()),
        Tick::Polled(vec![press(KeyCode::Char('p'))]),
        Tick::Polled(vec![press(KeyCode::Char('q'))]),
        Tick::Polled(vec![press(KeyCode::Char('p'))]),
        Tick::DrawFailed,
    ];
    assert_eq!(app.run(&ticks), RunEnd::Quit);
    assert_eq!(flags(&app), (true, true, false));
    assert_eq!(app.run(&ticks), RunEnd::Quit);
    assert_eq!(flags(&app), (true, true, false));
}

#[test]
fn a_failure_on_the_first_tick_ends_the_run() {
    let mut app = two_accounts();
    let ticks = vec![Tick::DrawFailed, Tick::Polled(vec![press(KeyCode::Char('p'))])];
    assert_eq!(app.run(&ticks), RunEnd::Failed(LoopError::RenderFailure));
    assert_eq!(flags(&app), (false, false, false));
}

#[test]
fn a_failed_poll_ends_the_run() {
    let mut app = two_accounts();
    let ticks = vec![
        Tick::Polled(vec![press(KeyCode::Char('n'))]),
        Tick::PollFailed,
        Tick::Polled(vec![press(KeyCode::Esc)]),
    ];
    assert_eq!(app.run(&ticks), RunEnd::Failed(LoopError::InputFailure));
    assert_eq!(flags(&app), (false, false, true));
}

#[test]
fn a_run_out_of_ticks_is_still_running() {
    let mut app = two_accounts();
    assert_eq!(app.run(&Vec::new()), RunEnd::Running);
    let ticks = vec![Tick::Polled(Vec::new()), Tick::Polled(vec![press(KeyCode::Char('p'))])];
    assert_eq!(app.run(&ticks), RunEnd::Running);
    assert_eq!(flags(&app), (false, true, false));
}

#[test]
fn the_terminal_is_given_back_once_after_a_quit() {
    let mut session = Session::new();
    let mut app = two_accounts();
    let mut restored = 0;
    assert!(session.may_print());
    assert!(session.enter());
    assert!(!session.may_print());
    assert_eq!(app.run(&vec![Tick::Polled(vec![press(KeyCode::Char('q'))])]), RunEnd::Quit);
    for _ in 0..3 {
        if session.leave() {
            restored += 1;
        }
    }
    assert_eq!(restored, 1);
    assert!(session.may_print());
}

#[test]
fn the_terminal_is_given_back_once_after_a_failure() {
    let mut session = Session::new();
    let mut app = two_accounts();
    let mut restored = 0;
    assert!(session.enter());
    let end = app.run(&vec![Tick::DrawFailed]);
    if session.leave() {
        restored += 1;
    }
    assert_eq!(end, RunEnd::Failed(LoopError::RenderFailure));
    assert!(session.may_print());
    if session.leave() {
        restored += 1;
    }
    assert_eq!(restored, 1);
}

#[test]
fn a_session_is_entered_once() {
    let mut session = Session::new();
    assert!(!session.leave());
    assert!(session.may_print());
    assert!(session.enter());
    assert!(!session.enter());
    assert!(session.leave());
    assert!(!session.enter());
    assert!(!session.leave());
    assert!(session.may_print());
}

#[test]
fn rows_use_one_moment_for_every_account() {
    let mut app = two_accounts();
    let rows = app.render(90);
    assert_eq!(rows.len(), 2);
    assert_eq!(rows[0].name, "a");
    assert_eq!(rows[0].qualifier, "");
    assert_eq!(rows[0].code, 969429);
    assert_eq!(rows[0].peek, None);
    assert_eq!(rows[0].remaining, 30);
    assert_eq!(rows[0].elapsed, 0);
    assert_eq!(rows[0].interval, 30);
    assert_eq!(rows[1].name, "b");
    assert_eq!(rows[1].qualifier, " <@me>");
    assert_eq!(rows[1].code, 287082);
    assert_eq!(rows[1].peek, None);
    assert_eq!(rows[1].remaining, 30);
    assert_eq!(rows[1].elapsed, 30);
    assert_eq!(rows[1].interval, 60);
    app.press(KeyCode::Char('p'));
    let rows = app.render(90);
    assert_eq!(rows[0].code, 969429);
    assert_eq!(rows[0].peek, Some(338314));
    assert_eq!(rows[1].code, 287082);
    assert_eq!(rows[1].peek, Some(359152));
}

#[test]
fn rows_of_an_account() {
    let acc = account("mail", Some("me@example.org"), None);
    let row = acc.row(true, 59);
    assert_eq!(row.name, "mail");
    assert_eq!(row.qualifier, " <@me@example.org>");
    assert_eq!(row.code, 287082);
    assert_eq!(row.peek, Some(359152));
    assert_eq!(row.remaining, 1);
    assert_eq!(row.elapsed, 29);
    assert_eq!(row.interval, 30);
    assert_eq!(row.label(), "mail <@me@example.org>: 287 082");
    assert_eq!(row.label_len(), 31);
    assert_eq!(account("x", None, None).qualifier(), "");
}

#[test]
fn codes_are_shown_in_two_groups() {
    assert_eq!(code_text(287082), "287 082");
    assert_eq!(code_text(0), "000 000");
    assert_eq!(code_text(42), "000 042");
    assert_eq!(code_text(5924), "005 924");
    assert_eq!(code_text(999_999), "999 999");
    assert_eq!(code_text(100_000), "100 000");
    assert_eq!(peek_text(81804), " 081 804 ");
    assert_eq!(peek_text(999_999), " 999 999 ");
}

#[test]
fn codes_are_shown_as_the_formatter_would() {
    for code in [0u32, 1, 9, 10, 99, 100, 999, 1000, 1001, 12345, 123456, 999_999] {
        assert_eq!(code_text(code), format!("{:0>3} {:0>3}", code / 1000, code % 1000));
        assert_eq!(peek_text(code), format!(" {:0>3} {:0>3} ", code / 1000, code % 1000));
    }
}

#[test]
fn countdowns_are_shown_in_two_digits() {
    assert_eq!(countdown_text(0), "00s");
    assert_eq!(countdown_text(5), "05s");
    assert_eq!(countdown_text(9), "09s");
    assert_eq!(countdown_text(10), "10s");
    assert_eq!(countdown_text(30), "30s");
    assert_eq!(countdown_text(120), "120s");
    assert_eq!(countdown_text(u64::MAX), "18446744073709551615s");
    for secs in [0u64, 7, 10, 59, 60, 100, 3600, 86400] {
        assert_eq!(countdown_text(secs), format!("{:0>2}s", secs));
    }
}

#[test]
fn digits_are_single_characters() {
    let all: Vec<&str> = (0..10).map(digit_str).collect();
    assert_eq!(all, vec!["0", "1", "2", "3", "4", "5", "6", "7", "8", "9"]);
}

#[test]
fn the_origin_is_shown_between_spaces() {
    assert_eq!(origin_label(&DataSrc::Filename(String::from("keys.csv"))), " keys.csv ");
    assert_eq!(origin_label(&DataSrc::Msg(String::from("<default store>"))), " <default store> ");
}

#[test]
fn the_widest_label_counts_bytes() {
    let rows: Vec<Row> = vec![
        account("a", None, None).row(false, 0),
        account("longer name", Some("id"), None).row(false, 0),
        account("\u{e9}t\u{e9}", None, None).row(false, 0),
    ];
    assert_eq!(rows[0].label_len(), 1 + 2 + 7);
    assert_eq!(rows[1].label_len(), 11 + 6 + 2 + 7);
    assert_eq!(rows[2].label_len(), 5 + 2 + 7);
    assert_eq!(widest_label(&rows), 26);
    assert_eq!(widest_label(&Vec::new()), 0);
}

#[test]
fn heights_of_the_two_parts() {
    assert_eq!(list_height(0), 2);
    assert_eq!(list_height(5), 7);
    assert_eq!(list_height(65533), 65535);
    assert_eq!(modal_height(false), 0);
    assert_eq!(modal_height(true), 10);
}

#[test]
fn countdown_tones() {
    assert_eq!(countdown_tone(30), Tone::Calm);
    assert_eq!(countdown_tone(11), Tone::Calm);
    assert_eq!(countdown_tone(10), Tone::Soon);
    assert_eq!(countdown_tone(5), Tone::Soon);
    assert_eq!(countdown_tone(4), Tone::Urgent);
    assert_eq!(countdown_tone(0), Tone::Urgent);
    assert!(bar_runs_out(5));
    assert!(bar_runs_out(0));
    assert!(!bar_runs_out(6));
}

#[test]
fn places_of_peek_and_bar() {
    let area = Area { x: 3, y: 2, width: 80, height: 24 };
    assert_eq!(peek_area(area, 0), Area { x: 68, y: 3, width: 9, height: 1 });
    assert_eq!(peek_area(area, 4), Area { x: 68, y: 7, width: 9, height: 1 });
    assert_eq!(
        peek_area(Area { x: 0, y: 0, width: 12, height: 1 }, 0),
        Area { x: 0, y: 1, width: 9, height: 1 }
    );
    assert_eq!(bar_area(area, 20, 0, false), Area { x: 29, y: 3, width: 51, height: 1 });
    assert_eq!(bar_area(area, 20, 1, true), Area { x: 29, y: 4, width: 40, height: 1 });
    assert_eq!(bar_area(area, 71, 2, false), Area { x: 80, y: 5, width: 0, height: 1 });
    assert_eq!(bar_area(area, 75, 2, true), Area { x: 84, y: 5, width: 0, height: 1 });
}

#[test]
fn the_peek_is_out_of_reach_in_the_last_time_step() {
    let mut app = app_with(vec![account("a", None, Some(1)), account("b", None, Some(30))]);
    assert!(app.in_reach(u64::MAX));
    assert_eq!(app.try_render(u64::MAX).map(|rows| rows.len()), Some(2));
    app.press(KeyCode::Char('p'));
    assert!(!app.in_reach(u64::MAX));
    assert!(app.try_render(u64::MAX).is_none());
    assert!(app.in_reach(u64::MAX - 1));
    let rows = app.try_render(u64::MAX - 1).unwrap();
    assert_eq!(rows[0].peek, Some(rows[0].peek.unwrap()));
    assert_eq!(rows[0].remaining, 1);
    assert_eq!(rows[1].peek.is_some(), true);
    let slow = {
        let mut slow = app_with(vec![account("b", None, Some(30))]);
        slow.press(KeyCode::Char('p'));
        slow
    };
    assert!(slow.in_reach(u64::MAX));
    assert_eq!(slow.try_render(u64::MAX).map(|rows| rows.len()), Some(1));
}
