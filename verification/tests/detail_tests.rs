use mctool::grid::Grid;
use mctool::io::Action;
use mctool::io::MouseButton;
use mctool::state::detail::beats;
use mctool::state::detail::new_playback;
use mctool::state::detail::play;
use mctool::state::detail::record_click;
use mctool::state::detail::trade_first;
use mctool::state::detail::trade_second;
use mctool::state::detail::Cursor;
use mctool::state::detail::Detail;
use mctool::state::detail::TradeFirst;
use mctool::state::detail::TradeSecond;
use mctool::state::detail::INT_PLAY;

const CLICK: Action = Action::Click(MouseButton::Left);

#[test]
fn default_mode_is_idle() {
    assert!(matches!(Detail::default(), Detail::Idle));
}

#[test]
fn beats_count_whole_intervals() {
    assert_eq!(INT_PLAY, 7000);
    assert_eq!(beats(100, 100), 0);
    assert_eq!(beats(100, 7099), 0);
    assert_eq!(beats(100, 7100), 1);
    assert_eq!(beats(100, 14100), 2);
    assert_eq!(beats(0, 70_000), 10);
    assert_eq!(beats(500, 100), 0);
}

#[test]
fn same_cell_three_times_counts_to_three() {
    let mut clicks = Vec::new();
    let mut count = 0;
    count = record_click(&mut clicks, count, Grid::Inv(1, 1));
    assert_eq!(count, 1);
    count = record_click(&mut clicks, count, Grid::Inv(1, 1));
    assert_eq!(count, 2);
    count = record_click(&mut clicks, count, Grid::Inv(1, 1));
    assert_eq!(count, 3);
    count = record_click(&mut clicks, count, Grid::Craft);
    assert_eq!(count, 1);
    count = record_click(&mut clicks, count, Grid::Inv(1, 1));
    assert_eq!(count, 1);
    assert_eq!(
        clicks,
        vec![Grid::Inv(1, 1), Grid::Inv(1, 1), Grid::Inv(1, 1), Grid::Craft, Grid::Inv(1, 1)]
    );
}

#[test]
fn repeat_counter_never_exceeds_the_recording() {
    let mut clicks = vec![Grid::Craft];
    let count = record_click(&mut clicks, 40, Grid::Craft);
    assert_eq!(count, 2);
}

#[test]
fn new_playback_marks_every_cell_as_new() {
    assert_eq!(
        new_playback(&vec![Grid::Hotbar(1), Grid::Hotbar(1)]),
        vec![(Grid::Hotbar(1), Cursor::New), (Grid::Hotbar(1), Cursor::New)]
    );
    assert_eq!(new_playback(&vec![]), vec![]);
}

#[test]
fn playback_of_n_cells_takes_two_n_beats() {
    let cells = vec![Grid::Table(0, 0), Grid::Craft, Grid::Hotbar(8)];
    let mut clicks = new_playback(&cells);
    let mut log = Vec::new();
    let mut beat = 0;
    loop {
        let (going, action) = play(&mut clicks, beat);
        if !going {
            assert_eq!(action, None);
            break;
        }
        log.push(action);
        beat += 1;
    }
    assert_eq!(beat, 6);
    assert_eq!(
        log,
        vec![
            Some(Action::SetCursor(810, 366)),
            Some(CLICK),
            Some(Action::SetCursor(1092, 420)),
            Some(CLICK),
            Some(Action::SetCursor(1176, 741)),
            Some(CLICK),
        ]
    );
    assert!(clicks.iter().all(|(_, cursor)| *cursor == Cursor::Clicked));
}

#[test]
fn playback_acts_once_per_beat() {
    let mut clicks = new_playback(&vec![Grid::Craft]);
    assert_eq!(play(&mut clicks, 0), (true, Some(Action::SetCursor(1092, 420))));
    assert_eq!(play(&mut clicks, 0), (true, None));
    assert_eq!(play(&mut clicks, 0), (true, None));
    assert_eq!(play(&mut clicks, 1), (true, Some(CLICK)));
    assert_eq!(play(&mut clicks, 1), (true, None));
    assert_eq!(play(&mut clicks, 2), (false, None));
    assert_eq!(play(&mut clicks, u64::MAX), (false, None));
}

#[test]
fn missed_first_beat_skips_the_cell() {
    let mut clicks = new_playback(&vec![Grid::Craft, Grid::Craft]);
    // The poll comes late, on the second beat of the first cell: no move, so no click.
    assert_eq!(play(&mut clicks, 1), (true, None));
    assert_eq!(clicks[0].1, Cursor::New);
    assert_eq!(play(&mut clicks, 2), (true, Some(Action::SetCursor(1092, 420))));
    assert_eq!(play(&mut clicks, 3), (true, Some(CLICK)));
    assert_eq!(play(&mut clicks, 4), (false, None));
}

#[test]
fn empty_playback_is_over_at_once() {
    let mut clicks = Vec::new();
    assert_eq!(play(&mut clicks, 0), (false, None));
}

#[test]
fn first_half_of_a_trade() {
    assert_eq!(trade_first(TradeFirst::InvClicked, 0, false), (Some(TradeFirst::InvClicked), None));
    assert_eq!(
        trade_first(TradeFirst::InvClicked, 1, false),
        (Some(TradeFirst::MovedToLeft), Some(Action::SetCursor(828, 474)))
    );
    assert_eq!(
        trade_first(TradeFirst::MovedToLeft, 1, false),
        (Some(TradeFirst::MovedToLeft), None)
    );
    assert_eq!(trade_first(TradeFirst::MovedToLeft, 2, false), (Some(TradeFirst::LeftClicked), Some(CLICK)));
    assert_eq!(
        trade_first(TradeFirst::LeftClicked, 2, false),
        (Some(TradeFirst::LeftClicked), None)
    );
    assert_eq!(
        trade_first(TradeFirst::LeftClicked, 3, true),
        (Some(TradeFirst::Waiting), Some(Action::SetCursor(1080, 474)))
    );
    assert_eq!(trade_first(TradeFirst::Waiting, 99, false), (Some(TradeFirst::Waiting), None));
    assert_eq!(trade_first(TradeFirst::Waiting, 0, true), (None, Some(CLICK)));
    // The confirmation counts only while waiting.
    assert_eq!(trade_first(TradeFirst::InvClicked, 0, true), (Some(TradeFirst::InvClicked), None));
}

#[test]
fn second_half_of_a_trade() {
    let home = (12, -34);
    assert_eq!(
        trade_second(TradeSecond::RightClicked, 0, home),
        (Some(TradeSecond::RightClicked), None)
    );
    assert_eq!(
        trade_second(TradeSecond::RightClicked, 1, home),
        (Some(TradeSecond::MovedToLeft), Some(Action::SetCursor(828, 474)))
    );
    assert_eq!(
        trade_second(TradeSecond::MovedToLeft, 2, home),
        (Some(TradeSecond::LeftClicked), Some(CLICK))
    );
    assert_eq!(
        trade_second(TradeSecond::LeftClicked, 2, home),
        (Some(TradeSecond::LeftClicked), None)
    );
    assert_eq!(
        trade_second(TradeSecond::LeftClicked, 3, home),
        (None, Some(Action::SetCursor(12, -34)))
    );
}
