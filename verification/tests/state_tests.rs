use mctool::error::Failure;
use mctool::error::ValidationError;
use mctool::grid::Grid;
use mctool::io::Action;
use mctool::io::Context;
use mctool::io::Input;
use mctool::io::MouseButton;
use mctool::io::Output;
use mctool::io::Reply;
use mctool::io::Report;
use mctool::io::Request;
use mctool::state::detail::Cursor;
use mctool::state::detail::Detail;
use mctool::state::detail::TradeFirst;
use mctool::state::detail::TradeSecond;
use mctool::state::key::Bindings;
use mctool::state::Pending;
use mctool::state::State;
use mctool::state::INT_DOUBLE_CLICK;
use mctool::state::INT_LEFT;
use mctool::state::INT_RIGHT;
use mctool::state::INT_SPACE;

const BEAT: u64 = 7000;

const LEFT: u16 = 0x5A;
const RIGHT: u16 = 0x58;
const SPACE: u16 = 0x43;
const RECORD: u16 = 0x42;
const PLAY: u16 = 0x47;
const CLICK: u16 = 0x01;
const RIGHT_CLICK: u16 = 0x02;
const PREV: u16 = 0x06;
const NEXT: u16 = 0x05;
const DOUBLE_CLICK: u16 = 0x09;
const BEGIN_TRADE: u16 = 0x52;
const END_TRADE: u16 = 0xA0;
const ABORT: u16 = 0xC0;
const LOCK: u16 = 0x04;
const MODIFIER: u16 = 0xA2;
const CONFIRM: u16 = 0x0D;
const DELETE: u16 = 0x2E;
const RENAME: u16 = 0x71;

fn names(list: &[&str]) -> Vec<String> {
    list.iter().map(|s| s.to_string()).collect()
}

fn engine(list: &[&str]) -> State {
    State::new(&Bindings::default(), 0, "recipes", names(list)).expect("valid names")
}

/// One tick with the keys `down`, followed by one with no key down, both at `now`.
fn tap(state: &mut State, now: u64, down: &[u16], cursor: Option<(i32, i32)>) -> Output {
    let out = tick(state, now, down, cursor);
    let idle = tick(state, now, &[], cursor);
    assert!(idle.request.is_none());
    out
}

fn tick(state: &mut State, now: u64, down: &[u16], cursor: Option<(i32, i32)>) -> Output {
    state
        .step(&Input { now, down: down.to_vec(), cursor })
        .expect("the tick succeeds")
}

fn quiet(out: &Output) -> bool {
    out.actions.is_empty() && !out.reload_textures && out.report.is_none() && out.request.is_none()
}

fn selected(state: &State) -> Option<String> {
    state.recipes().get_name().cloned()
}

#[test]
fn intervals() {
    assert_eq!(INT_LEFT, 10_000);
    assert_eq!(INT_RIGHT, 10_000);
    assert_eq!(INT_SPACE, 50_000);
    assert_eq!(INT_DOUBLE_CLICK, 50_000);
}

#[test]
fn starts_idle_and_unlocked() {
    let state = engine(&["b", "a"]);
    assert!(matches!(state.detail(), Detail::Idle));
    assert!(!state.draw_required());
    assert!(!state.is_locked());
    assert!(!state.double_click_active_mapped());
    assert!(!state.double_click_temporarily_disabled());
    assert!(!state.spam_left().is_active());
    assert!(!state.spam_right().is_active());
    assert!(!state.spam_space().is_active());
    assert_eq!(state.pending(), None);
    assert_eq!(state.recipes().len(), 2);
    assert_eq!(selected(&state), Some("b".to_string()));
}

#[test]
fn new_refuses_a_name_without_first_character() {
    let r = State::new(&Bindings::default(), 0, "recipes", names(&["a", ""]));
    assert_eq!(r.err(), Some(Failure::Validation(ValidationError::NoLeadingChar)));
}

#[test]
fn idle_tick_without_keys_does_nothing() {
    let mut state = engine(&["a"]);
    let out = tick(&mut state, 5, &[], None);
    assert!(quiet(&out));
    assert!(matches!(state.detail(), Detail::Idle));
    assert!(!state.draw_required());
}

#[test]
fn key_press_asks_for_redraw_once() {
    let mut state = engine(&["a"]);
    tick(&mut state, 1, &[CONFIRM], None);
    assert!(state.draw_required());
    tick(&mut state, 2, &[CONFIRM], None);
    assert!(!state.draw_required());
    tick(&mut state, 3, &[CLICK, RIGHT_CLICK], None);
    assert!(!state.draw_required());
}

#[test]
fn release_of_the_modifier_asks_for_redraw() {
    let mut state = engine(&[]);
    tick(&mut state, 1, &[MODIFIER], None);
    assert!(state.draw_required());
    tick(&mut state, 2, &[MODIFIER], None);
    assert!(!state.draw_required());
    tick(&mut state, 3, &[], None);
    assert!(state.draw_required());
}

#[test]
fn navigation_moves_the_selection() {
    let mut state = engine(&["a", "b", "c"]);
    let out = tap(&mut state, 1, &[NEXT], None);
    assert!(out.reload_textures);
    assert!(out.actions.is_empty());
    assert_eq!(state.recipes().index(), Some(0));
    let out = tap(&mut state, 2, &[PREV], None);
    assert!(out.reload_textures);
    assert_eq!(state.recipes().index(), Some(2));
    let out = tick(&mut state, 3, &[], None);
    assert!(!out.reload_textures);
}

#[test]
fn navigation_with_modifier_skips_groups() {
    let mut state = engine(&["a1", "a2", "b1", "b2", "c1", "c2"]);
    assert_eq!(state.recipes().index(), Some(5));
    tap(&mut state, 1, &[MODIFIER, NEXT], None);
    assert_eq!(state.recipes().index(), Some(0));
    tap(&mut state, 2, &[MODIFIER, NEXT], None);
    assert_eq!(state.recipes().index(), Some(2));
    tap(&mut state, 3, &[NEXT], None);
    assert_eq!(state.recipes().index(), Some(3));
    tap(&mut state, 4, &[MODIFIER, PREV], None);
    assert_eq!(state.recipes().index(), Some(2));
    tap(&mut state, 5, &[MODIFIER, PREV], None);
    assert_eq!(state.recipes().index(), Some(0));
}

#[test]
fn recording_appends_cells_and_counts_repeats() {
    let mut state = engine(&[]);
    tap(&mut state, 1, &[RECORD], None);
    match state.detail() {
        Detail::Recording { clicks, count } => {
            assert!(clicks.is_empty());
            assert_eq!(*count, 0);
        }
        other => panic!("unexpected mode {:?}", other),
    }
    for expected in 1..=3 {
        tap(&mut state, 2, &[CLICK], Some((810, 366)));
        match state.detail() {
            Detail::Recording { clicks, count } => {
                assert_eq!(clicks.len(), expected);
                assert_eq!(*count, expected);
            }
            other => panic!("unexpected mode {:?}", other),
        }
    }
    tap(&mut state, 3, &[CLICK], Some((1092, 420)));
    match state.detail() {
        Detail::Recording { clicks, count } => {
            assert_eq!(
                clicks,
                &vec![Grid::Table(0, 0), Grid::Table(0, 0), Grid::Table(0, 0), Grid::Craft]
            );
            assert_eq!(*count, 1);
        }
        other => panic!("unexpected mode {:?}", other),
    }
}

#[test]
fn recording_marks_a_hit_for_redraw() {
    let mut state = engine(&[]);
    tap(&mut state, 1, &[RECORD], None);
    tick(&mut state, 2, &[CLICK], Some((717, 714)));
    assert!(state.draw_required());
    tick(&mut state, 3, &[], None);
    tick(&mut state, 4, &[CLICK], Some((0, 0)));
    assert!(!state.draw_required());
}

#[test]
fn recording_drops_a_click_beside_the_grid() {
    let mut state = engine(&[]);
    tap(&mut state, 1, &[RECORD], None);
    tap(&mut state, 2, &[CLICK], Some((782, 339)));
    match state.detail() {
        Detail::Recording { clicks, count } => {
            assert!(clicks.is_empty());
            assert_eq!(*count, 0);
        }
        other => panic!("unexpected mode {:?}", other),
    }
}

#[test]
fn recording_samples_only_on_the_press() {
    let mut state = engine(&[]);
    tap(&mut state, 1, &[RECORD], None);
    tick(&mut state, 2, &[CLICK], Some((810, 366)));
    tick(&mut state, 3, &[CLICK], Some((810, 366)));
    tick(&mut state, 4, &[CLICK], None);
    match state.detail() {
        Detail::Recording { clicks, .. } => assert_eq!(clicks.len(), 1),
        other => panic!("unexpected mode {:?}", other),
    }
}

#[test]
fn recording_fails_without_cursor() {
    let mut state = engine(&[]);
    tap(&mut state, 1, &[RECORD], None);
    let r = state.step(&Input { now: 2, down: vec![CLICK], cursor: None });
    assert_eq!(r.err(), Some(Failure::Driver));
}

fn record_two_cells(state: &mut State) {
    tap(state, 1, &[RECORD], None);
    tap(state, 2, &[CLICK], Some((1092, 420)));
    tap(state, 3, &[CLICK], Some((864, 420)));
    tap(state, 4, &[RECORD], None);
}

#[test]
fn second_record_press_locks_and_asks_for_a_name() {
    let mut state = engine(&[]);
    record_two_cells(&mut state);
    assert!(state.is_locked());
    match state.detail() {
        Detail::Naming { clicks, name, .. } => {
            assert_eq!(clicks, &vec![Grid::Craft, Grid::Table(1, 1)]);
            assert_eq!(name, "");
        }
        other => panic!("unexpected mode {:?}", other),
    }
}

#[test]
fn text_goes_into_the_name_and_comes_out_again() {
    let mut state = engine(&[]);
    record_two_cells(&mut state);
    state.push_text("sw");
    state.push_text("ord");
    state.pop_text();
    match state.detail() {
        Detail::Naming { name, draw_required, .. } => {
            assert_eq!(name, "swor");
            assert!(*draw_required);
        }
        other => panic!("unexpected mode {:?}", other),
    }
    tick(&mut state, 9, &[], None);
    assert!(state.draw_required());
    tick(&mut state, 10, &[], None);
    assert!(!state.draw_required());
    for _ in 0..10 {
        state.pop_text();
    }
    match state.detail() {
        Detail::Naming { name, .. } => assert_eq!(name, ""),
        other => panic!("unexpected mode {:?}", other),
    }
}

#[test]
fn text_outside_naming_is_ignored() {
    let mut state = engine(&["a"]);
    state.push_text("abc");
    state.pop_text();
    assert!(matches!(state.detail(), Detail::Idle));
}

#[test]
fn empty_name_is_reported_and_naming_goes_on() {
    let mut state = engine(&[]);
    record_two_cells(&mut state);
    let out = tap(&mut state, 5, &[CONFIRM], None);
    assert_eq!(
        out.report,
        Some(Report {
            context: Context::CreateRecipe,
            error: Failure::Validation(ValidationError::EmptyName),
        })
    );
    assert_eq!(out.request, None);
    assert_eq!(state.pending(), None);
    assert!(matches!(state.detail(), Detail::Naming { .. }));
    assert!(state.is_locked());
}

#[test]
fn taken_name_is_reported_and_naming_goes_on() {
    let mut state = engine(&["axe", "bow"]);
    record_two_cells(&mut state);
    state.push_text("axe");
    let out = tap(&mut state, 5, &[CONFIRM], None);
    assert_eq!(
        out.report,
        Some(Report {
            context: Context::CreateRecipe,
            error: Failure::Validation(ValidationError::DuplicateName),
        })
    );
    assert_eq!(out.request, None);
    match state.detail() {
        Detail::Naming { name, clicks, .. } => {
            assert_eq!(name, "axe");
            assert_eq!(clicks.len(), 2);
        }
        other => panic!("unexpected mode {:?}", other),
    }
}

#[test]
fn confirmed_name_is_saved_and_the_engine_returns_to_idle() {
    let mut state = engine(&["axe"]);
    record_two_cells(&mut state);
    state.push_text("bow");
    let out = tick(&mut state, 5, &[CONFIRM], None);
    assert_eq!(
        out.request,
        Some(Request::Save {
            name: "bow".to_string(),
            clicks: "[{\"Craft\":null},{\"Table\":[1,1]}]".to_string(),
        })
    );
    assert_eq!(out.report, None);
    assert_eq!(state.pending(), Some(Pending::Save));
    assert!(matches!(state.detail(), Detail::Naming { .. }));
    let out = state
        .complete(Reply::Listing(names(&["bow", "axe"])), 6)
        .expect("the reload succeeds");
    assert!(out.reload_textures);
    assert!(out.actions.is_empty());
    assert_eq!(out.request, None);
    assert!(matches!(state.detail(), Detail::Idle));
    assert!(!state.is_locked());
    assert_eq!(state.pending(), None);
    assert_eq!(state.recipes().len(), 2);
    assert_eq!(selected(&state), Some("bow".to_string()));
}

#[test]
fn failed_save_is_reported_and_can_be_tried_again() {
    let mut state = engine(&[]);
    record_two_cells(&mut state);
    state.push_text("bow");
    tick(&mut state, 5, &[CONFIRM], None);
    let out = state.complete(Reply::Failed(Failure::Storage), 6).expect("no fatal error");
    assert_eq!(
        out.report,
        Some(Report { context: Context::CreateRecipe, error: Failure::Storage })
    );
    assert_eq!(state.pending(), None);
    assert!(state.is_locked());
    match state.detail() {
        Detail::Naming { name, clicks, .. } => {
            assert_eq!(name, "bow");
            assert_eq!(clicks.len(), 2);
        }
        other => panic!("unexpected mode {:?}", other),
    }
    tick(&mut state, 7, &[], None);
    let out = tick(&mut state, 8, &[CONFIRM], None);
    assert!(matches!(out.request, Some(Request::Save { .. })));
}

#[test]
fn unloadable_folder_after_a_save_is_reported_and_naming_goes_on() {
    let mut state = engine(&["axe"]);
    record_two_cells(&mut state);
    state.push_text("bow");
    tick(&mut state, 5, &[CONFIRM], None);
    let out = state
        .complete(Reply::Listing(names(&["axe", "bow", ""])), 6)
        .expect("no fatal error");
    assert_eq!(
        out.report,
        Some(Report {
            context: Context::CreateRecipe,
            error: Failure::Validation(ValidationError::NoLeadingChar),
        })
    );
    assert!(!out.reload_textures);
    assert!(out.request.is_none() && out.actions.is_empty());
    assert_eq!(state.pending(), None);
    assert!(state.is_locked());
    match state.detail() {
        Detail::Naming { name, clicks, .. } => {
            assert_eq!(name, "bow");
            assert_eq!(clicks, &vec![Grid::Craft, Grid::Table(1, 1)]);
        }
        other => panic!("unexpected mode {:?}", other),
    }
    assert_eq!(state.recipes().len(), 1);
    assert_eq!(selected(&state), Some("axe".to_string()));
}

#[test]
fn unloadable_folder_after_a_delete_is_reported_and_the_mode_stays() {
    let mut state = engine(&["a", "b"]);
    tap(&mut state, 1, &[DELETE], None);
    tick(&mut state, 2, &[CONFIRM], None);
    assert_eq!(state.pending(), Some(Pending::Remove));
    let out = state
        .complete(Reply::Listing(names(&["a", ""])), 3)
        .expect("no fatal error");
    assert_eq!(
        out.report,
        Some(Report {
            context: Context::DeleteRecipe,
            error: Failure::Validation(ValidationError::NoLeadingChar),
        })
    );
    assert!(!out.reload_textures);
    assert!(out.request.is_none() && out.actions.is_empty());
    assert_eq!(state.pending(), None);
    assert!(matches!(state.detail(), Detail::Deleting));
    assert!(!state.is_locked());
    assert_eq!(state.recipes().len(), 2);
    assert_eq!(selected(&state), Some("b".to_string()));
    // The confirmation can be given again.
    tick(&mut state, 4, &[], None);
    let out = tick(&mut state, 5, &[CONFIRM], None);
    assert_eq!(out.request, Some(Request::Remove { path: "recipes/b".to_string() }));
}

#[test]
fn unloadable_folder_after_a_rename_is_reported_and_the_buffer_stays() {
    let mut state = engine(&["axe", "bow"]);
    tap(&mut state, 1, &[RENAME], None);
    state.push_text("arrow");
    tick(&mut state, 2, &[CONFIRM], None);
    assert_eq!(state.pending(), Some(Pending::Rename));
    let out = state
        .complete(Reply::Listing(names(&["", "arrow", "axe"])), 3)
        .expect("no fatal error");
    assert_eq!(
        out.report,
        Some(Report {
            context: Context::RenameRecipe,
            error: Failure::Validation(ValidationError::NoLeadingChar),
        })
    );
    assert!(!out.reload_textures);
    assert!(out.request.is_none() && out.actions.is_empty());
    assert_eq!(state.pending(), None);
    match state.detail() {
        Detail::Renaming { name, .. } => assert_eq!(name, "arrow"),
        other => panic!("unexpected mode {:?}", other),
    }
    assert_eq!(state.recipes().len(), 2);
    assert_eq!(selected(&state), Some("bow".to_string()));
}

#[test]
fn delete_does_not_lift_the_lock_but_a_save_does() {
    let mut state = engine(&["a"]);
    tap(&mut state, 1, &[DELETE], None);
    tap(&mut state, 2, &[MODIFIER, LOCK], None);
    assert!(state.is_locked());
    tick(&mut state, 3, &[CONFIRM], None);
    state.complete(Reply::Listing(names(&[])), 4).expect("the reload succeeds");
    assert!(matches!(state.detail(), Detail::Idle));
    assert!(state.is_locked());
}

#[test]
fn answer_without_open_operation_changes_nothing() {
    let mut state = engine(&["a"]);
    let out = state.complete(Reply::Listing(names(&[])), 1).expect("ignored");
    assert!(quiet(&out));
    assert_eq!(state.recipes().len(), 1);
    let out = state
        .complete(Reply::Clicks(r#"[{"Craft":null}]"#.to_string()), 1)
        .expect("ignored");
    assert!(quiet(&out));
    assert!(matches!(state.detail(), Detail::Idle));
    let out = state.complete(Reply::Failed(Failure::Storage), 1).expect("ignored");
    assert!(quiet(&out));
}

#[test]
fn answer_of_the_wrong_kind_leaves_the_operation_open() {
    let mut state = engine(&["a"]);
    tick(&mut state, 1, &[PLAY], None);
    assert_eq!(state.pending(), Some(Pending::Load));
    let out = state.complete(Reply::Listing(names(&[])), 2).expect("ignored");
    assert!(quiet(&out));
    assert_eq!(state.pending(), Some(Pending::Load));
    assert_eq!(state.recipes().len(), 1);
}

#[test]
fn next_tick_gives_up_an_unanswered_operation() {
    let mut state = engine(&["a"]);
    tick(&mut state, 1, &[PLAY], None);
    assert_eq!(state.pending(), Some(Pending::Load));
    tick(&mut state, 2, &[PLAY], None);
    assert_eq!(state.pending(), None);
    let out = state
        .complete(Reply::Clicks(r#"[{"Craft":null}]"#.to_string()), 3)
        .expect("ignored");
    assert!(quiet(&out));
    assert!(matches!(state.detail(), Detail::Idle));
}

fn start_playing(state: &mut State, clicks: &str, now: u64) {
    let out = tick(state, now, &[PLAY], None);
    assert_eq!(out.request, Some(Request::Load { path: "recipes/a".to_string() }));
    let out = state.complete(Reply::Clicks(clicks.to_string()), now).expect("valid cells");
    assert!(quiet(&out));
}

#[test]
fn play_without_recipe_stays_idle() {
    let mut state = engine(&[]);
    let out = tick(&mut state, 1, &[PLAY], None);
    assert_eq!(out.request, None);
    assert_eq!(state.pending(), None);
    assert!(matches!(state.detail(), Detail::Idle));
}

#[test]
fn playing_moves_then_clicks_each_cell_and_ends_after_two_n_beats() {
    let mut state = engine(&["a"]);
    let t0 = 1000;
    start_playing(
        &mut state,
        r#"[{"Craft":null},{"Table":[1,1]},{"Hotbar":[0]}]"#,
        t0,
    );
    match state.detail() {
        Detail::Playing { clicks, origin } => {
            assert_eq!(*origin, t0);
            assert!(clicks.iter().all(|(_, cursor)| *cursor == Cursor::New));
        }
        other => panic!("unexpected mode {:?}", other),
    }
    let expected = vec![
        Action::SetCursor(1092, 420),
        Action::Click(MouseButton::Left),
        Action::SetCursor(864, 420),
        Action::Click(MouseButton::Left),
        Action::SetCursor(744, 741),
        Action::Click(MouseButton::Left),
    ];
    for (beat, action) in expected.iter().enumerate() {
        let now = t0 + BEAT * beat as u64;
        let out = tick(&mut state, now, &[], None);
        assert_eq!(out.actions, vec![*action], "beat {}", beat);
        assert!(matches!(state.detail(), Detail::Playing { .. }));
        // More polls within the same beat do nothing.
        let out = tick(&mut state, now + BEAT - 1, &[], None);
        assert!(quiet(&out), "beat {}", beat);
        assert!(matches!(state.detail(), Detail::Playing { .. }));
    }
    let out = tick(&mut state, t0 + BEAT * 6, &[], None);
    assert!(quiet(&out));
    assert!(matches!(state.detail(), Detail::Idle));
    assert!(state.draw_required());
}

#[test]
fn empty_sequence_ends_at_the_first_tick() {
    let mut state = engine(&["a"]);
    start_playing(&mut state, "[]", 50);
    assert!(matches!(state.detail(), Detail::Playing { .. }));
    let out = tick(&mut state, 50, &[], None);
    assert!(quiet(&out));
    assert!(matches!(state.detail(), Detail::Idle));
}

#[test]
fn sequence_with_a_cell_outside_its_region_is_malformed() {
    let mut state = engine(&["a"]);
    tick(&mut state, 1, &[PLAY], None);
    let r = state.complete(Reply::Clicks(r#"[{"Craft":null},{"Inv":[9,0]}]"#.to_string()), 2);
    assert_eq!(r.err(), Some(Failure::Serialization));
    assert_eq!(state.pending(), None);
    assert!(matches!(state.detail(), Detail::Idle));
}

#[test]
fn click_file_that_is_no_json_is_malformed() {
    let mut state = engine(&["a"]);
    tick(&mut state, 1, &[PLAY], None);
    let r = state.complete(Reply::Clicks("[{\"Craft\":null}".to_string()), 2);
    assert_eq!(r.err(), Some(Failure::Serialization));
}

#[test]
fn sequence_that_cannot_be_read_ends_the_run() {
    let mut state = engine(&["a"]);
    tick(&mut state, 1, &[PLAY], None);
    let r = state.complete(Reply::Failed(Failure::Storage), 2);
    assert_eq!(r.err(), Some(Failure::Storage));
    let mut state = engine(&["a"]);
    tick(&mut state, 1, &[PLAY], None);
    let r = state.complete(Reply::Failed(Failure::Serialization), 2);
    assert_eq!(r.err(), Some(Failure::Serialization));
}

#[test]
fn abort_ends_a_playback() {
    let mut state = engine(&["a"]);
    start_playing(&mut state, r#"[{"Craft":null}]"#, 0);
    tick(&mut state, 0, &[], None);
    let out = tick(&mut state, BEAT, &[ABORT], None);
    assert!(out.actions.is_empty());
    assert!(matches!(state.detail(), Detail::Idle));
}

#[test]
fn trade_choreography() {
    let mut state = engine(&[]);
    let t0 = 100;
    let out = tick(&mut state, t0, &[BEGIN_TRADE], Some((11, 22)));
    assert_eq!(out.actions, vec![Action::Click(MouseButton::Left)]);
    match state.detail() {
        Detail::TradingFirst { state, position, origin } => {
            assert_eq!(*state, TradeFirst::InvClicked);
            assert_eq!(*position, (11, 22));
            assert_eq!(*origin, t0);
        }
        other => panic!("unexpected mode {:?}", other),
    }
    assert!(quiet(&tick(&mut state, t0 + BEAT - 1, &[], None)));
    let out = tick(&mut state, t0 + BEAT, &[], None);
    assert_eq!(out.actions, vec![Action::SetCursor(828, 474)]);
    assert!(quiet(&tick(&mut state, t0 + 2 * BEAT - 1, &[], None)));
    let out = tick(&mut state, t0 + 2 * BEAT, &[], None);
    assert_eq!(out.actions, vec![Action::Click(MouseButton::Left)]);
    let out = tick(&mut state, t0 + 3 * BEAT, &[], None);
    assert_eq!(out.actions, vec![Action::SetCursor(1080, 474)]);
    assert!(matches!(
        state.detail(),
        Detail::TradingFirst { state: TradeFirst::Waiting, .. }
    ));
    assert!(quiet(&tick(&mut state, t0 + 100 * BEAT, &[], None)));

    let t1 = t0 + 200 * BEAT;
    let out = tick(&mut state, t1, &[END_TRADE], None);
    assert_eq!(out.actions, vec![Action::Click(MouseButton::Left)]);
    match state.detail() {
        Detail::TradingSecond { state, position, origin } => {
            assert_eq!(*state, TradeSecond::RightClicked);
            assert_eq!(*position, (11, 22));
            assert_eq!(*origin, t1);
        }
        other => panic!("unexpected mode {:?}", other),
    }
    assert!(quiet(&tick(&mut state, t1 + BEAT - 1, &[], None)));
    let out = tick(&mut state, t1 + BEAT, &[], None);
    assert_eq!(out.actions, vec![Action::SetCursor(828, 474)]);
    let out = tick(&mut state, t1 + 2 * BEAT, &[], None);
    assert_eq!(out.actions, vec![Action::Click(MouseButton::Left)]);
    let out = tick(&mut state, t1 + 3 * BEAT, &[], None);
    assert_eq!(out.actions, vec![Action::SetCursor(11, 22)]);
    assert!(matches!(state.detail(), Detail::Idle));
    assert!(state.draw_required());
}

#[test]
fn late_poll_does_one_beat_per_tick() {
    let mut state = engine(&[]);
    tick(&mut state, 0, &[BEGIN_TRADE], Some((1, 2)));
    let out = tick(&mut state, 50 * BEAT, &[], None);
    assert_eq!(out.actions, vec![Action::SetCursor(828, 474)]);
    let out = tick(&mut state, 50 * BEAT, &[], None);
    assert_eq!(out.actions, vec![Action::Click(MouseButton::Left)]);
    let out = tick(&mut state, 50 * BEAT, &[], None);
    assert_eq!(out.actions, vec![Action::SetCursor(1080, 474)]);
    assert!(quiet(&tick(&mut state, 50 * BEAT, &[], None)));
}

#[test]
fn trade_fails_without_cursor() {
    let mut state = engine(&[]);
    let r = state.step(&Input { now: 1, down: vec![BEGIN_TRADE], cursor: None });
    assert_eq!(r.err(), Some(Failure::Driver));
}

#[test]
fn begin_trade_wins_over_record() {
    let mut state = engine(&[]);
    tick(&mut state, 1, &[RECORD, BEGIN_TRADE, DELETE, RENAME], Some((0, 0)));
    assert!(matches!(state.detail(), Detail::TradingFirst { .. }));
    let mut state = engine(&[]);
    tick(&mut state, 1, &[RECORD, DELETE, RENAME, PLAY], Some((0, 0)));
    assert!(matches!(state.detail(), Detail::Recording { .. }));
    let mut state = engine(&[]);
    tick(&mut state, 1, &[DELETE, RENAME, PLAY], Some((0, 0)));
    assert!(matches!(state.detail(), Detail::Deleting));
}

#[test]
fn delete_is_confirmed_and_reloads() {
    let mut state = engine(&["a", "b"]);
    tap(&mut state, 1, &[DELETE], None);
    assert!(matches!(state.detail(), Detail::Deleting));
    assert!(quiet(&tick(&mut state, 2, &[], None)));
    let out = tick(&mut state, 3, &[CONFIRM], None);
    assert_eq!(out.request, Some(Request::Remove { path: "recipes/b".to_string() }));
    assert_eq!(state.pending(), Some(Pending::Remove));
    assert!(matches!(state.detail(), Detail::Deleting));
    let out = state.complete(Reply::Listing(names(&["a"])), 4).expect("the reload succeeds");
    assert!(out.reload_textures);
    assert!(matches!(state.detail(), Detail::Idle));
    assert_eq!(state.recipes().len(), 1);
    assert_eq!(selected(&state), Some("a".to_string()));
}

#[test]
fn failed_delete_is_reported_and_the_mode_stays() {
    let mut state = engine(&["a"]);
    tap(&mut state, 1, &[DELETE], None);
    tick(&mut state, 2, &[CONFIRM], None);
    let out = state.complete(Reply::Failed(Failure::Storage), 3).expect("no fatal error");
    assert_eq!(
        out.report,
        Some(Report { context: Context::DeleteRecipe, error: Failure::Storage })
    );
    assert!(matches!(state.detail(), Detail::Deleting));
    assert_eq!(state.recipes().len(), 1);
}

#[test]
fn delete_with_nothing_selected_returns_to_idle() {
    let mut state = engine(&[]);
    tap(&mut state, 1, &[DELETE], None);
    let out = tick(&mut state, 2, &[CONFIRM], None);
    assert_eq!(out.request, None);
    assert!(matches!(state.detail(), Detail::Idle));
}

#[test]
fn rename_to_the_same_name_is_reported() {
    let mut state = engine(&["axe", "bow"]);
    tap(&mut state, 1, &[RENAME], None);
    match state.detail() {
        Detail::Renaming { name, .. } => assert_eq!(name, ""),
        other => panic!("unexpected mode {:?}", other),
    }
    state.push_text("bow");
    let out = tap(&mut state, 2, &[CONFIRM], None);
    assert_eq!(
        out.report,
        Some(Report {
            context: Context::RenameRecipe,
            error: Failure::Validation(ValidationError::RenameNotNeeded),
        })
    );
    assert_eq!(out.request, None);
    match state.detail() {
        Detail::Renaming { name, .. } => assert_eq!(name, "bow"),
        other => panic!("unexpected mode {:?}", other),
    }
    assert_eq!(state.recipes().len(), 2);
    assert_eq!(selected(&state), Some("bow".to_string()));
}

#[test]
fn rename_moves_the_recipe_and_reloads() {
    let mut state = engine(&["axe", "bow"]);
    tap(&mut state, 1, &[RENAME], None);
    state.push_text("arrow");
    let out = tick(&mut state, 2, &[CONFIRM], None);
    assert_eq!(
        out.request,
        Some(Request::Rename {
            from: "recipes/bow".to_string(),
            to: "recipes/arrow".to_string(),
        })
    );
    assert_eq!(state.pending(), Some(Pending::Rename));
    let out = state
        .complete(Reply::Listing(names(&["axe", "arrow"])), 3)
        .expect("the reload succeeds");
    assert!(out.reload_textures);
    assert!(matches!(state.detail(), Detail::Idle));
    assert_eq!(selected(&state), Some("axe".to_string()));
}

#[test]
fn failed_rename_keeps_the_buffer() {
    let mut state = engine(&["axe"]);
    tap(&mut state, 1, &[RENAME], None);
    state.push_text("bow");
    tick(&mut state, 2, &[CONFIRM], None);
    let out = state.complete(Reply::Failed(Failure::Storage), 3).expect("no fatal error");
    assert_eq!(
        out.report,
        Some(Report { context: Context::RenameRecipe, error: Failure::Storage })
    );
    match state.detail() {
        Detail::Renaming { name, .. } => assert_eq!(name, "bow"),
        other => panic!("unexpected mode {:?}", other),
    }
}

#[test]
fn rename_with_nothing_selected_returns_to_idle() {
    let mut state = engine(&[]);
    tap(&mut state, 1, &[RENAME], None);
    state.push_text("x");
    let out = tick(&mut state, 2, &[CONFIRM], None);
    assert!(out.request.is_none() && out.report.is_none());
    assert!(matches!(state.detail(), Detail::Idle));
}

#[test]
fn abort_returns_to_idle_from_every_mode() {
    let mut state = engine(&["a"]);
    tap(&mut state, 1, &[RECORD], None);
    tap(&mut state, 2, &[ABORT], None);
    assert!(matches!(state.detail(), Detail::Idle));
    tap(&mut state, 3, &[DELETE], None);
    tap(&mut state, 4, &[ABORT], None);
    assert!(matches!(state.detail(), Detail::Idle));
    tap(&mut state, 5, &[RENAME], None);
    tap(&mut state, 6, &[ABORT], None);
    assert!(matches!(state.detail(), Detail::Idle));
    tap(&mut state, 7, &[BEGIN_TRADE], Some((0, 0)));
    tap(&mut state, 8, &[ABORT], None);
    assert!(matches!(state.detail(), Detail::Idle));
    assert!(!state.is_locked());
}

#[test]
fn abort_from_naming_lifts_the_lock() {
    let mut state = engine(&[]);
    record_two_cells(&mut state);
    assert!(state.is_locked());
    tap(&mut state, 5, &[ABORT], None);
    assert!(matches!(state.detail(), Detail::Idle));
    assert!(!state.is_locked());
}

#[test]
fn abort_elsewhere_keeps_the_lock() {
    let mut state = engine(&["a"]);
    tap(&mut state, 1, &[DELETE], None);
    tap(&mut state, 2, &[MODIFIER, LOCK], None);
    assert!(state.is_locked());
    tap(&mut state, 3, &[ABORT], None);
    assert!(matches!(state.detail(), Detail::Idle));
    assert!(state.is_locked());
}

#[test]
fn abort_and_record_in_one_tick_start_a_recording() {
    let mut state = engine(&["a"]);
    tap(&mut state, 1, &[DELETE], None);
    tick(&mut state, 2, &[ABORT, RECORD], None);
    assert!(matches!(state.detail(), Detail::Recording { .. }));
}

#[test]
fn lock_disables_the_mode_keys() {
    let mut state = engine(&["a", "b"]);
    tap(&mut state, 1, &[MODIFIER, LOCK], None);
    assert!(state.is_locked());
    tap(&mut state, 2, &[RECORD], None);
    assert!(matches!(state.detail(), Detail::Idle));
    tap(&mut state, 3, &[NEXT], None);
    assert_eq!(state.recipes().index(), Some(1));
    tap(&mut state, 4, &[LEFT], None);
    assert!(!state.spam_left().is_active());
    tap(&mut state, 5, &[MODIFIER, LOCK], None);
    assert!(!state.is_locked());
    tap(&mut state, 6, &[RECORD], None);
    assert!(matches!(state.detail(), Detail::Recording { .. }));
}

#[test]
fn lock_needs_both_keys() {
    let mut state = engine(&[]);
    tap(&mut state, 1, &[LOCK], None);
    assert!(!state.is_locked());
    tap(&mut state, 2, &[MODIFIER], None);
    assert!(!state.is_locked());
}

#[test]
fn periodic_actions_are_switched_and_stepped() {
    let mut state = engine(&[]);
    let out = tap(&mut state, 1000, &[LEFT], None);
    assert!(out.actions.is_empty());
    assert!(state.spam_left().is_active());
    assert!(quiet(&tick(&mut state, 9999, &[], None)));
    let out = tick(&mut state, 10_000, &[], None);
    assert_eq!(out.actions, vec![Action::MouseDown(MouseButton::Left)]);
    assert!(quiet(&tick(&mut state, 20_000, &[], None)));
    tap(&mut state, 21_000, &[LEFT], None);
    assert!(!state.spam_left().is_active());
    assert!(quiet(&tick(&mut state, 29_999, &[], None)));
    let out = tick(&mut state, 30_000, &[], None);
    assert_eq!(out.actions, vec![Action::MouseUp(MouseButton::Left)]);
    assert!(quiet(&tick(&mut state, 40_000, &[], None)));
}

#[test]
fn driver_calls_come_in_a_fixed_order() {
    let mut state = engine(&[]);
    tap(&mut state, 0, &[LEFT, RIGHT, SPACE], None);
    assert!(state.spam_left().is_active());
    assert!(state.spam_right().is_active());
    assert!(state.spam_space().is_active());
    let out = tick(&mut state, 50_000, &[BEGIN_TRADE], Some((3, 4)));
    assert_eq!(
        out.actions,
        vec![
            Action::MouseDown(MouseButton::Left),
            Action::MouseDown(MouseButton::Right),
            Action::KeyDown(0x20),
            Action::Click(MouseButton::Left),
        ]
    );
}

#[test]
fn repeated_key_uses_its_own_interval() {
    let mut state = engine(&[]);
    tap(&mut state, 0, &[SPACE], None);
    assert!(quiet(&tick(&mut state, 49_999, &[], None)));
    let out = tick(&mut state, 50_000, &[], None);
    assert_eq!(out.actions, vec![Action::KeyDown(0x20)]);
}

#[test]
fn double_click_assist_fires_once_after_its_delay() {
    let mut state = engine(&[]);
    tap(&mut state, 0, &[DOUBLE_CLICK], None);
    assert!(state.double_click_active_mapped());
    assert!(!state.double_click_temporarily_disabled());
    let t = 1000;
    assert!(quiet(&tick(&mut state, t, &[RIGHT_CLICK], None)));
    assert!(quiet(&tick(&mut state, t + 49_999, &[RIGHT_CLICK], None)));
    let out = tick(&mut state, t + 50_000, &[], None);
    assert_eq!(out.actions, vec![Action::Click(MouseButton::Right)]);
    assert!(quiet(&tick(&mut state, t + 50_001, &[], None)));
    assert!(quiet(&tick(&mut state, t + 200_000, &[], None)));
}

#[test]
fn double_click_assist_is_off_by_default() {
    let mut state = engine(&[]);
    tap(&mut state, 0, &[RIGHT_CLICK], None);
    assert!(quiet(&tick(&mut state, 60_000, &[], None)));
}

#[test]
fn double_click_assist_is_suppressed_by_the_modifier() {
    let mut state = engine(&[]);
    tap(&mut state, 0, &[DOUBLE_CLICK], None);
    tick(&mut state, 10, &[MODIFIER], None);
    assert!(!state.double_click_active_mapped());
    assert!(state.double_click_temporarily_disabled());
    tick(&mut state, 20, &[MODIFIER, RIGHT_CLICK], None);
    tick(&mut state, 30, &[], None);
    assert!(state.double_click_active_mapped());
    assert!(quiet(&tick(&mut state, 60_000, &[], None)));
}

#[test]
fn double_click_assist_is_suppressed_by_the_repeated_right_click() {
    let mut state = engine(&[]);
    tap(&mut state, 0, &[DOUBLE_CLICK], None);
    tap(&mut state, 1, &[RIGHT], None);
    assert!(state.spam_right().is_active());
    assert!(!state.double_click_active_mapped());
    assert!(state.double_click_temporarily_disabled());
    let out = tap(&mut state, 2, &[RIGHT_CLICK], None);
    assert!(out.actions.is_empty());
    let out = tick(&mut state, 60_000, &[], None);
    assert_eq!(out.actions, vec![Action::MouseDown(MouseButton::Right)]);
}

#[test]
fn second_toggle_switches_the_assist_off() {
    let mut state = engine(&[]);
    tap(&mut state, 0, &[DOUBLE_CLICK], None);
    tap(&mut state, 1, &[DOUBLE_CLICK], None);
    assert!(!state.double_click_active_mapped());
    assert!(!state.double_click_temporarily_disabled());
}

#[test]
fn alternate_bindings_are_honoured() {
    let mut bindings = Bindings::default();
    bindings.record = 0x70;
    bindings.spam_key = 0x41;
    let mut state = State::new(&bindings, 0, "r", names(&[])).expect("valid names");
    tick(&mut state, 1, &[RECORD], None);
    assert!(matches!(state.detail(), Detail::Idle));
    tick(&mut state, 2, &[0x70], None);
    assert!(matches!(state.detail(), Detail::Recording { .. }));
    tap(&mut state, 3, &[ABORT], None);
    tap(&mut state, 4, &[SPACE], None);
    let out = tick(&mut state, 50_000, &[], None);
    assert_eq!(out.actions, vec![Action::KeyDown(0x41)]);
    assert!(state.keys().space.is_released() || !state.keys().space.is_pressed());
}
