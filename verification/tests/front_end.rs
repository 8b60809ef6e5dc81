use tui_timer::app::{App, Key, Level, Mode, Outcome};
use tui_timer::cli::{parse_args, ArgsError};
use tui_timer::timer::{SubTimer, Timer};

fn sub(name: &str, total: u64, since: Option<u64>) -> SubTimer {
    SubTimer { name: name.to_string(), total_seconds: total, running_since: since }
}

fn timer(name: &str, children: Vec<SubTimer>) -> Timer {
    Timer { name: name.to_string(), total_seconds: 0, running_since: None, children }
}

fn sample() -> App {
    App::new(vec![
        timer("Work", vec![sub("Deep focus", 5400, None), sub("Meetings", 1800, None)]),
        timer("Home", vec![]),
        timer("Gym", vec![sub("Run", 0, None)]),
    ])
}

const GO: Outcome = Outcome { quit: false, save: false };
const SAVE: Outcome = Outcome { quit: false, save: true };
const QUIT: Outcome = Outcome { quit: true, save: false };

fn press(app: &mut App, key: Key) -> Outcome {
    assert!(app.step_ok(key, 1000));
    app.handle_key(key, 1000)
}

fn names(app: &App) -> Vec<String> {
    app.timers.iter().map(|t| t.name.clone()).collect()
}

#[test]
fn loading_selects_the_first_timer() {
    let app = sample();
    assert_eq!(app.top_selected, Some(0));
    assert_eq!(app.child_selected, None);
    assert_eq!(app.mode, Mode::Normal);
    assert_eq!(app.level, Level::Top);
    assert_eq!(app.input, "");
    let empty = App::new(vec![]);
    assert_eq!(empty.top_selected, None);
    assert_eq!(empty.list_len(), 0);
}

#[test]
fn navigation_wraps_around() {
    let mut app = sample();
    assert_eq!(app.list_len(), 3);
    app.next();
    assert_eq!(app.top_selected, Some(1));
    app.next();
    app.next();
    assert_eq!(app.top_selected, Some(0));
    app.prev();
    assert_eq!(app.top_selected, Some(2));
    app.prev();
    assert_eq!(app.top_selected, Some(1));
}

#[test]
fn navigation_from_nothing_selected() {
    let mut app = sample();
    app.top_selected = None;
    app.next();
    assert_eq!(app.top_selected, Some(0));
    app.top_selected = None;
    app.prev();
    assert_eq!(app.top_selected, Some(0));
    let mut empty = App::new(vec![]);
    empty.next();
    empty.prev();
    assert_eq!(empty.top_selected, None);
}

#[test]
fn prev_undoes_next() {
    let mut app = sample();
    for start in 0..3 {
        app.top_selected = Some(start);
        app.next();
        app.prev();
        assert_eq!(app.top_selected, Some(start));
        app.prev();
        app.next();
        assert_eq!(app.top_selected, Some(start));
    }
}

#[test]
fn entering_and_leaving_children() {
    let mut app = sample();
    app.enter_children();
    assert_eq!(app.level, Level::Children(0));
    assert_eq!(app.child_selected, Some(0));
    assert_eq!(app.list_len(), 2);
    assert_eq!(app.parent_name(), "Work");
    app.next();
    assert_eq!(app.child_selected, Some(1));
    assert_eq!(app.selected_name(), "Meetings");
    app.exit_children();
    assert_eq!(app.level, Level::Top);
    assert_eq!(app.top_selected, Some(0));
    assert_eq!(app.parent_name(), "");
    app.top_selected = Some(1);
    app.enter_children();
    assert_eq!(app.level, Level::Children(1));
    assert_eq!(app.child_selected, None);
    assert_eq!(app.selected_name(), "this timer");
}

#[test]
fn parent_that_is_gone() {
    let mut app = sample();
    app.level = Level::Children(9);
    assert_eq!(app.parent_name(), "?");
    assert_eq!(app.list_len(), 0);
    // adding under a missing parent adds nothing but still asks to save
    assert!(app.add_item("x".to_string()));
    assert_eq!(app.timers.len(), 3);
}

#[test]
fn adding_trims_the_name() {
    let mut app = sample();
    assert!(app.add_item("  Reading \t\n".to_string()));
    assert_eq!(app.timers.len(), 4);
    assert_eq!(app.timers[3].name, "Reading");
    assert_eq!(app.top_selected, Some(3));
    assert!(!app.add_item(" \u{a0}\u{3000} ".to_string()));
    assert_eq!(app.timers.len(), 4);
}

#[test]
fn adding_a_sub_timer() {
    let mut app = sample();
    app.top_selected = Some(2);
    app.enter_children();
    assert!(app.add_item("Swim".to_string()));
    assert_eq!(app.timers[2].children.len(), 2);
    assert_eq!(app.timers[2].children[1].name, "Swim");
    assert_eq!(app.child_selected, Some(1));
}

#[test]
fn deleting_timers() {
    let mut app = sample();
    app.top_selected = Some(2);
    assert_eq!(app.selected_name(), "Gym");
    assert!(app.delete_selected());
    assert_eq!(names(&app), vec!["Work", "Home"]);
    assert_eq!(app.top_selected, Some(1));
    app.top_selected = Some(0);
    assert!(app.delete_selected());
    assert_eq!(names(&app), vec!["Home"]);
    assert_eq!(app.top_selected, Some(0));
    assert!(app.delete_selected());
    assert!(app.timers.is_empty());
    assert_eq!(app.top_selected, None);
    assert!(!app.delete_selected());
}

#[test]
fn deleting_sub_timers() {
    let mut app = sample();
    app.enter_children();
    assert!(app.delete_selected());
    assert_eq!(app.timers[0].children.len(), 1);
    assert_eq!(app.timers[0].children[0].name, "Meetings");
    assert_eq!(app.child_selected, Some(0));
    assert!(app.delete_selected());
    assert_eq!(app.child_selected, None);
    assert!(!app.delete_selected());
}

#[test]
fn delete_after_add_restores_the_list() {
    let mut app = sample();
    let before = names(&app);
    assert!(app.add_item("Temp".to_string()));
    assert!(app.delete_selected());
    assert_eq!(names(&app), before);
}

#[test]
fn toggling_the_selection() {
    let mut app = sample();
    assert!(app.toggle_selected_at(100));
    assert_eq!(app.timers[0].running_since, Some(100));
    assert!(app.toggle_selected_at(160));
    assert_eq!(app.timers[0].running_since, None);
    assert_eq!(app.timers[0].total_seconds, 60);
    app.enter_children();
    app.next();
    assert!(app.toggle_selected_at(10));
    assert_eq!(app.timers[0].children[1].running_since, Some(10));
    assert_eq!(app.timers[0].total_elapsed_at(20), 60 + 5400 + 1810);
    app.child_selected = None;
    assert!(!app.toggle_selected_at(30));
}

#[test]
fn toggling_by_the_clock() {
    let mut app = sample();
    assert!(app.toggle_selected());
    assert!(app.timers[0].running_since.is_some());
    assert!(app.toggle_selected());
    assert!(app.timers[0].running_since.is_none());
}

#[test]
fn toggle_that_would_overflow() {
    let mut app = App::new(vec![Timer {
        name: "x".to_string(),
        total_seconds: u64::MAX,
        running_since: Some(0),
        children: vec![],
    }]);
    assert!(!app.toggle_fits_at(5));
    assert!(!app.step_ok(Key::Enter, 5));
    assert!(app.step_ok(Key::Enter, 0));
    assert!(!app.toggle_selected());
    assert_eq!(app.timers[0].running_since, Some(0));
}

#[test]
fn keys_quit_and_navigate() {
    let mut app = sample();
    assert_eq!(press(&mut app, Key::Char('j')), GO);
    assert_eq!(press(&mut app, Key::Down), GO);
    assert_eq!(app.top_selected, Some(2));
    assert_eq!(press(&mut app, Key::Up), GO);
    assert_eq!(press(&mut app, Key::Char('k')), GO);
    assert_eq!(app.top_selected, Some(0));
    assert_eq!(press(&mut app, Key::Char('l')), GO);
    assert_eq!(app.level, Level::Children(0));
    assert_eq!(press(&mut app, Key::Esc), GO);
    assert_eq!(app.level, Level::Top);
    assert_eq!(press(&mut app, Key::Right), GO);
    assert_eq!(press(&mut app, Key::Char('h')), GO);
    assert_eq!(app.level, Level::Top);
    assert_eq!(press(&mut app, Key::Left), GO);
    assert_eq!(press(&mut app, Key::Other), GO);
    assert_eq!(press(&mut app, Key::Char('z')), GO);
    assert_eq!(press(&mut app, Key::Char('q')), QUIT);
    assert_eq!(press(&mut app, Key::Esc), QUIT);
}

#[test]
fn enter_key_toggles_and_saves() {
    let mut app = sample();
    assert_eq!(app.handle_key(Key::Enter, 500), SAVE);
    assert_eq!(app.timers[0].running_since, Some(500));
    let mut empty = App::new(vec![]);
    assert_eq!(empty.handle_key(Key::Enter, 500), GO);
}

#[test]
fn delete_takes_three_d_and_y() {
    let mut app = sample();
    assert_eq!(press(&mut app, Key::Char('d')), GO);
    assert_eq!(app.mode, Mode::DeletePending(1));
    assert_eq!(press(&mut app, Key::Char('d')), GO);
    assert_eq!(app.mode, Mode::DeletePending(2));
    assert_eq!(press(&mut app, Key::Char('d')), GO);
    assert_eq!(app.mode, Mode::ConfirmDelete);
    assert_eq!(app.selected_name(), "Work");
    assert_eq!(press(&mut app, Key::Char('Y')), SAVE);
    assert_eq!(app.mode, Mode::Normal);
    assert_eq!(names(&app), vec!["Home", "Gym"]);
}

#[test]
fn delete_sequence_cancels() {
    let mut app = sample();
    press(&mut app, Key::Char('d'));
    assert_eq!(press(&mut app, Key::Char('x')), GO);
    assert_eq!(app.mode, Mode::Normal);
    press(&mut app, Key::Char('d'));
    press(&mut app, Key::Char('d'));
    press(&mut app, Key::Char('d'));
    assert_eq!(press(&mut app, Key::Char('n')), GO);
    assert_eq!(app.mode, Mode::Normal);
    assert_eq!(app.timers.len(), 3);
}

#[test]
fn delete_needs_a_non_empty_list() {
    let mut app = App::new(vec![]);
    assert_eq!(press(&mut app, Key::Char('d')), GO);
    assert_eq!(app.mode, Mode::Normal);
}

#[test]
fn typing_a_name() {
    let mut app = sample();
    assert_eq!(press(&mut app, Key::Char('i')), GO);
    assert_eq!(app.mode, Mode::Insert);
    for c in " Rea".chars() {
        press(&mut app, Key::Char(c));
    }
    press(&mut app, Key::Char('x'));
    press(&mut app, Key::Backspace);
    press(&mut app, Key::Char('d'));
    press(&mut app, Key::Up);
    assert_eq!(app.input, " Read");
    assert_eq!(press(&mut app, Key::Enter), SAVE);
    assert_eq!(app.mode, Mode::Normal);
    assert_eq!(app.input, "");
    assert_eq!(app.timers[3].name, "Read");
    assert_eq!(app.top_selected, Some(3));
}

#[test]
fn typing_then_escape_adds_nothing() {
    let mut app = sample();
    press(&mut app, Key::Char('i'));
    press(&mut app, Key::Char('a'));
    assert_eq!(press(&mut app, Key::Esc), GO);
    assert_eq!(app.mode, Mode::Normal);
    assert_eq!(app.input, "");
    assert_eq!(app.timers.len(), 3);
    press(&mut app, Key::Char('i'));
    press(&mut app, Key::Backspace);
    assert_eq!(app.input, "");
    assert_eq!(press(&mut app, Key::Enter), GO);
    assert_eq!(app.timers.len(), 3);
}

#[test]
fn backspace_undoes_a_character() {
    let mut app = sample();
    press(&mut app, Key::Char('i'));
    press(&mut app, Key::Char('\u{e9}'));
    press(&mut app, Key::Char('z'));
    press(&mut app, Key::Backspace);
    assert_eq!(app.input, "\u{e9}");
}

#[test]
fn status_lines() {
    let mut app = sample();
    assert!(app.status_line().starts_with(" NORMAL  [i] new"));
    app.enter_children();
    assert_eq!(
        app.status_line(),
        " CHILDREN  [i] new sub-timer  [Enter] start/stop  [h/\u{2190}/Esc] back  [j/k \u{2191}\u{2193}] navigate  [ddd] delete"
    );
    app.mode = Mode::Insert;
    assert_eq!(app.status_line(), " INSERT  type a name  [Enter] confirm  [Esc] cancel");
    app.mode = Mode::DeletePending(1);
    assert_eq!(app.status_line(), " DELETE  keep pressing d (3\u{d7} total)  any other key cancels");
    app.mode = Mode::ConfirmDelete;
    assert_eq!(app.status_line(), " CONFIRM DELETE  [y] delete  [any other key] cancel");
}

fn args(list: &[&str]) -> Vec<String> {
    list.iter().map(|s| s.to_string()).collect()
}

#[test]
fn state_path_default() {
    assert_eq!(parse_args(&args(&["tui-timer"])), Ok("timer/main_timer.json".to_string()));
    assert_eq!(parse_args(&args(&[])), Ok("timer/main_timer.json".to_string()));
    assert_eq!(parse_args(&args(&["-f", "x.json"])), Ok("timer/main_timer.json".to_string()));
}

#[test]
fn state_path_from_flag() {
    assert_eq!(parse_args(&args(&["tui-timer", "-f", "timer/work.json"])), Ok("timer/work.json".to_string()));
    assert_eq!(
        parse_args(&args(&["tui-timer", "x", "-f", "a.json", "-f", "b.json"])),
        Ok("a.json".to_string())
    );
}

#[test]
fn state_path_missing() {
    assert_eq!(parse_args(&args(&["tui-timer", "-f"])), Err(ArgsError::MissingPath));
}

#[test]
fn toggling_keeps_every_total_at_that_instant() {
    let mut app = sample();
    app.timers[0].children[0].running_since = Some(100);
    let before: Vec<u64> = app.timers.iter().map(|t| t.total_elapsed_at(400)).collect();
    app.enter_children();
    assert!(app.toggle_selected_at(400));
    let after: Vec<u64> = app.timers.iter().map(|t| t.total_elapsed_at(400)).collect();
    assert_eq!(before, after);
    assert_eq!(app.timers[0].children[0].total_seconds, 5700);
}

#[test]
fn key_sequences_keep_selections_in_range() {
    let mut app = sample();
    let keys = [
        Key::Char('j'), Key::Char('l'), Key::Char('d'), Key::Char('d'), Key::Char('d'), Key::Char('y'),
        Key::Char('d'), Key::Char('d'), Key::Char('d'), Key::Char('y'), Key::Char('k'), Key::Esc,
        Key::Char('d'), Key::Char('d'), Key::Char('d'), Key::Char('y'), Key::Up, Key::Right,
        Key::Char('i'), Key::Char('n'), Key::Enter, Key::Down, Key::Enter,
    ];
    for key in keys {
        press(&mut app, key);
        if let Some(i) = app.top_selected {
            assert!(i < app.timers.len());
        }
        if let Level::Children(pi) = app.level {
            assert!(pi < app.timers.len());
            if let Some(ci) = app.child_selected {
                assert!(ci < app.timers[pi].children.len());
            }
        }
        if let Mode::DeletePending(n) = app.mode {
            assert!(n == 1 || n == 2);
        }
    }
}
