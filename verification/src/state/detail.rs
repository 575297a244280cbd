use vstd::prelude::*;

use crate::grid::all_valid;
use crate::grid::Grid;
use crate::io::Action;
use crate::io::MouseButton;

verus! {

/// Length of one beat of a playback or of the trading choreography, in
/// microseconds.
pub const INT_PLAY: u64 = 7000;

/// How far the playback of one cell has come.
#[derive(Clone, Copy, Debug, PartialEq, Eq, Structural)]
pub enum Cursor {
    /// Nothing was done yet.
    New,
    /// The cursor was put on the cell.
    Moved,
    /// The cell was clicked.
    Clicked,
}

/// How far the first half of the trading choreography has come.
#[derive(Clone, Copy, Debug, PartialEq, Eq, Structural)]
pub enum TradeFirst {
    InvClicked,
    MovedToLeft,
    LeftClicked,
    /// All beats are done; the user has to confirm.
    Waiting,
}

/// How far the second half of the trading choreography has come.
#[derive(Clone, Copy, Debug, PartialEq, Eq, Structural)]
pub enum TradeSecond {
    RightClicked,
    MovedToLeft,
    LeftClicked,
}

/// The mode the engine is in, with what the mode has to remember.
#[derive(Debug)]
#[allow(inconsistent_fields)]
pub enum Detail {
    Idle,
    Recording { clicks: Vec<Grid>, count: usize },
    Naming { clicks: Vec<Grid>, name: String, draw_required: bool },
    Playing { clicks: Vec<(Grid, Cursor)>, origin: u64 },
    TradingFirst { state: TradeFirst, position: (i32, i32), origin: u64 },
    TradingSecond { state: TradeSecond, position: (i32, i32), origin: u64 },
    Deleting,
    Renaming { name: String, draw_required: bool },
}

/// Mathematical model of [`Detail`].
#[allow(inconsistent_fields)]
pub enum DetailView {
    Idle,
    Recording { clicks: Seq<Grid>, count: nat },
    Naming { clicks: Seq<Grid>, name: Seq<char>, draw_required: bool },
    Playing { clicks: Seq<(Grid, Cursor)>, origin: u64 },
    TradingFirst { state: TradeFirst, position: (i32, i32), origin: u64 },
    TradingSecond { state: TradeSecond, position: (i32, i32), origin: u64 },
    Deleting,
    Renaming { name: Seq<char>, draw_required: bool },
}

impl DetailView {
    /// Every recorded or played cell lies inside its region, and the
    /// repeat counter is no more than the number of recorded cells.
    pub open spec fn valid(self) -> bool {
        match self {
            DetailView::Recording { clicks, count } => all_valid(clicks) && count <= clicks.len(),
            DetailView::Naming { clicks, .. } => all_valid(clicks),
            DetailView::Playing { clicks, .. } => all_valid_played(clicks),
            _ => true,
        }
    }
}

impl View for Detail {
    type V = DetailView;

    open spec fn view(&self) -> DetailView {
        match self {
            Detail::Idle => DetailView::Idle,
            Detail::Recording { clicks, count } => DetailView::Recording {
                clicks: clicks@,
                count: *count as nat,
            },
            Detail::Naming { clicks, name, draw_required } => DetailView::Naming {
                clicks: clicks@,
                name: name@,
                draw_required: *draw_required,
            },
            Detail::Playing { clicks, origin } => DetailView::Playing {
                clicks: clicks@,
                origin: *origin,
            },
            Detail::TradingFirst { state, position, origin } => DetailView::TradingFirst {
                state: *state,
                position: *position,
                origin: *origin,
            },
            Detail::TradingSecond { state, position, origin } => DetailView::TradingSecond {
                state: *state,
                position: *position,
                origin: *origin,
            },
            Detail::Deleting => DetailView::Deleting,
            Detail::Renaming { name, draw_required } => DetailView::Renaming {
                name: name@,
                draw_required: *draw_required,
            },
        }
    }
}

impl Default for Detail {
    fn default() -> (r: Self)
        ensures
            r@ == DetailView::Idle,
    {
        Detail::Idle
    }
}

/// Number of whole beats between `origin` and `now`; none where the
/// clock has not passed `origin`.
pub open spec fn beat_index(origin: u64, now: u64) -> nat {
    if now >= origin {
        ((now - origin) / (INT_PLAY as int)) as nat
    } else {
        0
    }
}

/// Number of whole beats between `origin` and `now`.
pub fn beats(origin: u64, now: u64) -> (r: u64)
    ensures
        r == beat_index(origin, now),
{
    if now >= origin {
        (now - origin) / INT_PLAY
    } else {
        0
    }
}

/// The repeat counter after `cell` was appended to `clicks`: one more
/// than before where the last recorded cell is the same, yet never more
/// than the number of recorded cells; one otherwise.
pub open spec fn repeat_count(clicks: Seq<Grid>, count: nat, cell: Grid) -> nat {
    if clicks.len() > 0 && clicks.last() == cell {
        if count < clicks.len() {
            count + 1
        } else {
            clicks.len() + 1
        }
    } else {
        1
    }
}

/// Appends `cell` to the recorded `clicks` and counts how often the
/// same cell was recorded in a row.
pub fn record_click(clicks: &mut Vec<Grid>, count: usize, cell: Grid) -> (r: usize)
    ensures
        final(clicks)@ == old(clicks)@.push(cell),
        r == repeat_count(old(clicks)@, count as nat, cell),
        r <= final(clicks)@.len(),
        all_valid(old(clicks)@) && cell.wf() ==> all_valid(final(clicks)@),
{
    let n = clicks.len();
    let same = n > 0 && clicks[n - 1] == cell;
    clicks.push(cell);
    if same {
        if count < n {
            count + 1
        } else {
            clicks.len()
        }
    } else {
        1
    }
}

/// The cells of a stored sequence, none of them played yet.
pub open spec fn fresh_playback(cells: Seq<Grid>) -> Seq<(Grid, Cursor)> {
    cells.map_values(|cell: Grid| (cell, Cursor::New))
}

/// Whether every cell of the playback lies inside its region.
pub open spec fn all_valid_played(clicks: Seq<(Grid, Cursor)>) -> bool {
    forall|i: int| 0 <= i < clicks.len() ==> (#[trigger] clicks[i]).0.wf()
}

/// The playback of `cells` at its start: no cell was played yet.
pub fn new_playback(cells: &Vec<Grid>) -> (clicks: Vec<(Grid, Cursor)>)
    ensures
        clicks@ == fresh_playback(cells@),
        all_valid(cells@) ==> all_valid_played(clicks@),
{
    let mut clicks: Vec<(Grid, Cursor)> = Vec::new();
    let mut i: usize = 0;
    while i < cells.len()
        invariant
            i <= cells.len(),
            clicks@ == fresh_playback(cells@.take(i as int)),
        decreases cells.len() - i,
    {
        clicks.push((cells[i], Cursor::New));
        proof {
            assert(cells@.take(i + 1) =~= cells@.take(i as int).push(cells@[i as int]));
            assert(clicks@ =~= fresh_playback(cells@.take(i + 1)));
        }
        i += 1;
    }
    assert(cells@.take(i as int) =~= cells@);
    assert(all_valid(cells@) ==> all_valid_played(clicks@)) by {
        if all_valid(cells@) {
            assert forall|k: int| 0 <= k < clicks@.len() implies (#[trigger] clicks@[k]).0.wf() by {
                assert(cells@[k].wf());
            }
        }
    }
    clicks
}

/// What one poll of a playback does at the beat `index`: the cell in
/// turn is `index / 2`; on an even beat a new cell gets the cursor, on
/// an odd beat a cell that has the cursor is clicked. The result is the
/// playback afterwards, `None` where it is over, and the driver call.
pub open spec fn play_step(clicks: Seq<(Grid, Cursor)>, index: nat) -> (
    Option<Seq<(Grid, Cursor)>>,
    Option<Action>,
) {
    let cell = (index / 2) as int;
    if cell >= clicks.len() {
        (None, None)
    } else {
        let (grid, cursor) = clicks[cell];
        if cursor == Cursor::New && index % 2 == 0 {
            (
                Some(clicks.update(cell, (grid, Cursor::Moved))),
                Some(Action::SetCursor(grid.center().0, grid.center().1)),
            )
        } else if cursor == Cursor::Moved && index % 2 == 1 {
            (
                Some(clicks.update(cell, (grid, Cursor::Clicked))),
                Some(Action::Click(MouseButton::Left)),
            )
        } else {
            (Some(clicks), None)
        }
    }
}

/// One poll of a playback at the beat `index`. Tells whether the
/// playback goes on, and the driver call to make.
pub fn play(clicks: &mut Vec<(Grid, Cursor)>, index: u64) -> (r: (bool, Option<Action>))
    ensures
        match play_step(old(clicks)@, index as nat).0 {
            Some(next) => r.0 && final(clicks)@ == next,
            None => !r.0 && final(clicks)@ == old(clicks)@,
        },
        r.1 == play_step(old(clicks)@, index as nat).1,
        all_valid_played(old(clicks)@) ==> all_valid_played(final(clicks)@),
{
    let half = index / 2;
    if half >= clicks.len() as u64 {
        return (false, None);
    }
    let cell = half as usize;
    let (grid, cursor) = clicks[cell];
    if cursor == Cursor::New && index % 2 == 0 {
        clicks.set(cell, (grid, Cursor::Moved));
        (true, Some(grid.set_cursor()))
    } else if cursor == Cursor::Moved && index % 2 == 1 {
        clicks.set(cell, (grid, Cursor::Clicked));
        (true, Some(Action::Click(MouseButton::Left)))
    } else {
        (true, None)
    }
}

/// Where the cursor goes for the first slot of a trade.
pub open spec fn trade_left() -> Action {
    Action::SetCursor(828, 474)
}

/// Where the cursor goes for the second slot of a trade.
pub open spec fn trade_right() -> Action {
    Action::SetCursor(1080, 474)
}

/// What one poll of the first half of a trade does at the beat `index`:
/// the three beats come one after the other once the index has passed
/// 0, 1 and 2; after them the choreography waits for the user. The
/// result is the next step, `None` where the second half begins, and
/// the driver call.
pub open spec fn trade_first_step(state: TradeFirst, index: nat, end_pressed: bool) -> (
    Option<TradeFirst>,
    Option<Action>,
) {
    match state {
        TradeFirst::InvClicked if index > 0 => (Some(TradeFirst::MovedToLeft), Some(trade_left())),
        TradeFirst::MovedToLeft if index > 1 => (
            Some(TradeFirst::LeftClicked),
            Some(Action::Click(MouseButton::Left)),
        ),
        TradeFirst::LeftClicked if index > 2 => (Some(TradeFirst::Waiting), Some(trade_right())),
        TradeFirst::Waiting if end_pressed => (None, Some(Action::Click(MouseButton::Left))),
        _ => (Some(state), None),
    }
}

/// One poll of the first half of a trade at the beat `index`.
pub fn trade_first(state: TradeFirst, index: u64, end_pressed: bool) -> (r: (
    Option<TradeFirst>,
    Option<Action>,
))
    ensures
        r == trade_first_step(state, index as nat, end_pressed),
{
    match state {
        TradeFirst::InvClicked if index > 0 => (
            Some(TradeFirst::MovedToLeft),
            Some(Action::SetCursor(828, 474)),
        ),
        TradeFirst::MovedToLeft if index > 1 => (
            Some(TradeFirst::LeftClicked),
            Some(Action::Click(MouseButton::Left)),
        ),
        TradeFirst::LeftClicked if index > 2 => (
            Some(TradeFirst::Waiting),
            Some(Action::SetCursor(1080, 474)),
        ),
        TradeFirst::Waiting if end_pressed => (None, Some(Action::Click(MouseButton::Left))),
        _ => (Some(state), None),
    }
}

/// What one poll of the second half of a trade does at the beat
/// `index`. The last beat puts the cursor back to `position`. The
/// result is the next step, `None` where the trade is over, and the
/// driver call.
pub open spec fn trade_second_step(state: TradeSecond, index: nat, position: (i32, i32)) -> (
    Option<TradeSecond>,
    Option<Action>,
) {
    match state {
        TradeSecond::RightClicked if index > 0 => (
            Some(TradeSecond::MovedToLeft),
            Some(trade_left()),
        ),
        TradeSecond::MovedToLeft if index > 1 => (
            Some(TradeSecond::LeftClicked),
            Some(Action::Click(MouseButton::Left)),
        ),
        TradeSecond::LeftClicked if index > 2 => (
            None,
            Some(Action::SetCursor(position.0, position.1)),
        ),
        _ => (Some(state), None),
    }
}

/// One poll of the second half of a trade at the beat `index`.
pub fn trade_second(state: TradeSecond, index: u64, position: (i32, i32)) -> (r: (
    Option<TradeSecond>,
    Option<Action>,
))
    ensures
        r == trade_second_step(state, index as nat, position),
{
    match state {
        TradeSecond::RightClicked if index > 0 => (
            Some(TradeSecond::MovedToLeft),
            Some(Action::SetCursor(828, 474)),
        ),
        TradeSecond::MovedToLeft if index > 1 => (
            Some(TradeSecond::LeftClicked),
            Some(Action::Click(MouseButton::Left)),
        ),
        TradeSecond::LeftClicked if index > 2 => (
            None,
            Some(Action::SetCursor(position.0, position.1)),
        ),
        _ => (Some(state), None),
    }
}

/// The recorded cells and the repeat counter after `cell` was recorded
/// `n` times in a row.
pub open spec fn record_times(clicks: Seq<Grid>, count: nat, cell: Grid, n: nat) -> (
    Seq<Grid>,
    nat,
)
    decreases n,
{
    if n == 0 {
        (clicks, count)
    } else {
        let (before, c) = record_times(clicks, count, cell, (n - 1) as nat);
        (before.push(cell), repeat_count(before, c, cell))
    }
}

/// Recording a cell `n` times in a row after another cell, or at the
/// start of a recording, leaves the repeat counter at `n`; recording a
/// different cell after that puts it back to one.
pub proof fn lemma_repeat_counter(clicks: Seq<Grid>, count: nat, cell: Grid, n: nat, other: Grid)
    requires
        n >= 1,
        clicks.len() == 0 || clicks.last() != cell,
        other != cell,
    ensures
        record_times(clicks, count, cell, n).1 == n,
        record_times(clicks, count, cell, n).0.len() == clicks.len() + n,
        record_times(clicks, count, cell, n).0.last() == cell,
        repeat_count(
            record_times(clicks, count, cell, n).0,
            record_times(clicks, count, cell, n).1,
            other,
        ) == 1,
    decreases n,
{
    if n > 1 {
        lemma_repeat_counter(clicks, count, cell, (n - 1) as nat, other);
    } else {
        assert(record_times(clicks, count, cell, 0) == (clicks, count));
    }
}

/// The playback of `cells` after the beats before `beat` were polled
/// one by one: the cells before `beat / 2` are clicked, the cell in
/// turn has the cursor if its first beat is over, the rest is new.
pub open spec fn played(cells: Seq<Grid>, beat: nat) -> Seq<(Grid, Cursor)> {
    Seq::new(
        cells.len(),
        |i: int|
            (
                cells[i],
                if 2 * i + 1 < beat {
                    Cursor::Clicked
                } else if 2 * i < beat {
                    Cursor::Moved
                } else {
                    Cursor::New
                },
            ),
    )
}

/// What the playback of `cells` does at `beat` when every beat is
/// polled: the cursor goes to a cell on the cell's first beat and the
/// click follows on its second.
pub open spec fn scheduled_action(cells: Seq<Grid>, beat: nat) -> Action {
    if beat % 2 == 0 {
        Action::SetCursor(cells[beat as int / 2].center().0, cells[beat as int / 2].center().1)
    } else {
        Action::Click(MouseButton::Left)
    }
}

/// A playback goes on for as long as the beat is less than twice the
/// number of cells, and is over at every later beat.
pub proof fn lemma_playback_length(clicks: Seq<(Grid, Cursor)>, beat: nat)
    ensures
        play_step(clicks, beat).0 is None <==> beat >= 2 * clicks.len(),
        play_step(clicks, beat).0 matches Some(next) ==> next.len() == clicks.len(),
{
}

/// A cell is clicked only after the cursor was put on it: a click
/// comes on the second beat of a cell that is marked as moved, and the
/// mark comes only from the move on the first beat.
pub proof fn lemma_click_follows_move(clicks: Seq<(Grid, Cursor)>, beat: nat)
    ensures
        play_step(clicks, beat).1 == Some(Action::Click(MouseButton::Left)) ==> {
            &&& beat % 2 == 1
            &&& clicks[beat as int / 2].1 == Cursor::Moved
        },
        play_step(clicks, beat).1 matches Some(Action::SetCursor(x, y)) ==> {
            &&& beat % 2 == 0
            &&& clicks[beat as int / 2].1 == Cursor::New
            &&& play_step(clicks, beat).0->0[beat as int / 2].1 == Cursor::Moved
        },
{
}

/// Polled at every beat, the playback of `n` cells makes one driver
/// call per beat for `2 * n` beats, the move of each cell right before
/// its click, and is over at the beat `2 * n` and not before.
pub proof fn lemma_playback_schedule(cells: Seq<Grid>, beat: nat)
    ensures
        played(cells, 0) == fresh_playback(cells),
        beat < 2 * cells.len() ==> play_step(played(cells, beat), beat) == (
            Some(played(cells, beat + 1)),
            Some(scheduled_action(cells, beat)),
        ),
        beat >= 2 * cells.len() ==> play_step(played(cells, beat), beat).0 is None,
{
    assert(played(cells, 0) =~= fresh_playback(cells));
    if beat < 2 * cells.len() {
        let cell = beat as int / 2;
        let before = played(cells, beat);
        let after = played(cells, beat + 1);
        if beat % 2 == 0 {
            assert(after =~= before.update(cell, (cells[cell], Cursor::Moved)));
        } else {
            assert(after =~= before.update(cell, (cells[cell], Cursor::Clicked)));
        }
    }
}

} // verus!
