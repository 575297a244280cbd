pub mod detail;
pub mod key;
pub mod recipes;
pub mod spam;

use vstd::prelude::*;
use vstd::string::*;

use crate::clicks::decode;
use crate::clicks::encode;
use crate::clicks::lemma_read_cells_are_valid;
use crate::clicks::load_clicks;
use crate::clicks::save_clicks;
use crate::coord::Coord;
use crate::error::Failure;
use crate::error::ValidationError;
use crate::grid::all_valid;
use crate::grid::Grid;
use crate::io::Action;
use crate::io::Context;
use crate::io::Input;
use crate::io::InputView;
use crate::io::MouseButton;
use crate::io::Output;
use crate::io::OutputView;
use crate::io::Reply;
use crate::io::ReplyView;
use crate::io::Report;
use crate::io::Request;
use crate::io::RequestView;
use crate::json::json_objects;
use crate::json::json_text;
use crate::state::detail::beat_index;
use crate::state::detail::beats;
use crate::state::detail::fresh_playback;
use crate::state::detail::play;
use crate::state::detail::play_step;
use crate::state::detail::record_click;
use crate::state::detail::repeat_count;
use crate::state::detail::new_playback;
use crate::state::detail::trade_first;
use crate::state::detail::trade_first_step;
use crate::state::detail::trade_second;
use crate::state::detail::trade_second_step;
use crate::state::detail::Cursor;
use crate::state::detail::Detail;
use crate::state::detail::DetailView;
use crate::state::detail::TradeFirst;
use crate::state::detail::INT_PLAY;
use crate::state::detail::TradeSecond;
use crate::state::key::Bindings;
use crate::state::key::Keys;
use crate::state::key::KeysView;
use crate::state::recipes::join;
use crate::state::recipes::Recipes;
use crate::state::recipes::RecipesView;
use crate::state::spam::Spam;
use crate::state::spam::SpamKind;
use crate::state::spam::SpamView;
use crate::text::pop_char;

verus! {

/// Interval of the repeated left click, in microseconds.
pub const INT_LEFT: u64 = 10000;

/// Interval of the repeated right click, in microseconds.
pub const INT_RIGHT: u64 = 10000;

/// Interval of the repeated key, in microseconds.
pub const INT_SPACE: u64 = 50000;

/// Delay of the second click of the double-click assist, in
/// microseconds.
pub const INT_DOUBLE_CLICK: u64 = 50000;

/// The storage operation that the engine waits for.
#[derive(Clone, Copy, Debug, PartialEq, Eq, Structural)]
pub enum Pending {
    Load,
    Save,
    Remove,
    Rename,
}

/// Mathematical model of the engine.
pub struct StateView {
    pub detail: DetailView,
    pub draw_required: bool,
    pub keys: KeysView,
    pub spam_left: SpamView,
    pub spam_right: SpamView,
    pub spam_space: SpamView,
    pub recipes: RecipesView,
    pub double_click_active: bool,
    pub double_click_origin: Option<u64>,
    pub is_locked: bool,
    pub pending: Option<Pending>,
}

/// Whether the open storage operation belongs to the mode: a sequence is
/// read for idle, a recipe is stored while it is named, removed while a
/// deletion waits and moved while a new name is entered.
pub open spec fn pending_fits(pending: Option<Pending>, detail: DetailView) -> bool {
    match pending {
        Some(Pending::Load) => detail is Idle,
        Some(Pending::Save) => detail is Naming,
        Some(Pending::Remove) => detail is Deleting,
        Some(Pending::Rename) => detail is Renaming,
        None => true,
    }
}

/// The sequence of the driver call `action`, empty where there is none.
pub open spec fn opt_action(action: Option<Action>) -> Seq<Action> {
    match action {
        Some(a) => seq![a],
        None => Seq::empty(),
    }
}

/// The model of what a tick hands to the host.
pub open spec fn outcome_view(r: Result<Output, Failure>) -> Result<OutputView, Failure> {
    match r {
        Ok(out) => Ok(out@),
        Err(e) => Err(e),
    }
}

/// The output that holds only the driver call `action`.
pub open spec fn only_action(action: Option<Action>) -> OutputView {
    OutputView { actions: opt_action(action), ..OutputView::empty() }
}

/// The output that holds only an error to show.
pub open spec fn only_report(context: Context, error: Failure) -> OutputView {
    OutputView { report: Some(Report { context, error }), ..OutputView::empty() }
}

/// The output that holds only a storage operation.
pub open spec fn only_request(request: RequestView) -> OutputView {
    OutputView { request: Some(request), ..OutputView::empty() }
}

impl StateView {
    /// The engine at its start: idle, unlocked, nothing switched on.
    pub open spec fn initial(bindings: Bindings, now: u64, recipes: RecipesView) -> StateView {
        StateView {
            detail: DetailView::Idle,
            draw_required: false,
            keys: KeysView::fresh(bindings),
            spam_left: SpamView {
                is_active: false,
                is_down: false,
                last: now as int,
                interval: INT_LEFT as int,
                kind: SpamKind::Mouse(MouseButton::Left),
            },
            spam_right: SpamView {
                is_active: false,
                is_down: false,
                last: now as int,
                interval: INT_RIGHT as int,
                kind: SpamKind::Mouse(MouseButton::Right),
            },
            spam_space: SpamView {
                is_active: false,
                is_down: false,
                last: now as int,
                interval: INT_SPACE as int,
                kind: SpamKind::Key(bindings.spam_key),
            },
            recipes,
            double_click_active: false,
            double_click_origin: None,
            is_locked: false,
            pending: None,
        }
    }

    /// What holds of the data of the engine at all times: the repository
    /// and the periodic actions are well formed, every recorded or
    /// played cell lies inside its region, and the repeat counter is no
    /// more than the number of recorded cells.
    pub open spec fn valid(self) -> bool {
        &&& self.recipes.wf()
        &&& self.spam_left.wf()
        &&& self.spam_right.wf()
        &&& self.spam_space.wf()
        &&& self.detail.valid()
    }

    /// What holds of the engine at all times: its data is valid, and a
    /// storage operation is open only in the mode that asked for it.
    pub open spec fn wf(self) -> bool {
        &&& self.valid()
        &&& pending_fits(self.pending, self.detail)
    }

    /// The double-click assist is suppressed while the modifier is held
    /// and while the repeated right click is switched on.
    pub open spec fn double_click_disable_condition(self) -> bool {
        self.keys.cancel_dc.previous || self.spam_right.is_active
    }

    /// The double-click assist is switched on and not suppressed.
    pub open spec fn double_click_active_mapped(self) -> bool {
        self.double_click_active && !self.double_click_disable_condition()
    }

    /// The double-click assist is switched on but suppressed.
    pub open spec fn double_click_temporarily_disabled(self) -> bool {
        self.double_click_active && self.double_click_disable_condition()
    }

    /// The engine after the user typed `text`: it goes to the end of
    /// the name that is being entered, if one is.
    pub open spec fn push_text(self, text: Seq<char>) -> StateView {
        match self.detail {
            DetailView::Naming { clicks, name, draw_required } => StateView {
                detail: DetailView::Naming { clicks, name: name + text, draw_required: true },
                ..self
            },
            DetailView::Renaming { name, draw_required } => StateView {
                detail: DetailView::Renaming { name: name + text, draw_required: true },
                ..self
            },
            _ => self,
        }
    }

    /// The engine after the user erased a character: the last one
    /// leaves the name that is being entered, if one is.
    pub open spec fn pop_text(self) -> StateView {
        match self.detail {
            DetailView::Naming { clicks, name, draw_required } => StateView {
                detail: DetailView::Naming {
                    clicks,
                    name: if name.len() > 0 { name.drop_last() } else { name },
                    draw_required: true,
                },
                ..self
            },
            DetailView::Renaming { name, draw_required } => StateView {
                detail: DetailView::Renaming {
                    name: if name.len() > 0 { name.drop_last() } else { name },
                    draw_required: true,
                },
                ..self
            },
            _ => self,
        }
    }

    /// First part of a tick: an unanswered storage operation is given
    /// up, every detector is fed the polled keys, the display is marked
    /// for drawing if one of them shows a press, and the three periodic
    /// actions are switched by their keys.
    pub open spec fn poll(self, input: InputView) -> StateView {
        let keys = self.keys.update(input.down, self.is_locked);
        StateView {
            keys,
            draw_required: keys.any_pressed(),
            spam_left: if keys.left.is_pressed {
                self.spam_left.toggle()
            } else {
                self.spam_left
            },
            spam_right: if keys.right.is_pressed {
                self.spam_right.toggle()
            } else {
                self.spam_right
            },
            spam_space: if keys.space.is_pressed {
                self.spam_space.toggle()
            } else {
                self.spam_space
            },
            pending: None,
            ..self
        }
    }

    /// Whether the delayed click of the double-click assist is due at
    /// `now`, for a click scheduled at `origin`.
    pub open spec fn double_click_due(origin: Option<u64>, now: u64) -> bool {
        origin matches Some(t) && now - t >= INT_DOUBLE_CLICK
    }

    /// The switches of the second part of a tick: the lock and the
    /// double-click assist are switched by their keys, abort returns to
    /// idle and lifts the lock that naming had set, and the release of
    /// the modifier marks the display for drawing.
    pub open spec fn switch(self) -> StateView {
        let locked = if self.keys.lock.is_pressed {
            !self.is_locked
        } else {
            self.is_locked
        };
        StateView {
            detail: if self.keys.abort.is_pressed {
                DetailView::Idle
            } else {
                self.detail
            },
            draw_required: self.draw_required || self.keys.cancel_dc.is_released,
            double_click_active: if self.keys.double_click.is_pressed {
                !self.double_click_active
            } else {
                self.double_click_active
            },
            is_locked: if self.keys.abort.is_pressed && self.detail is Naming {
                false
            } else {
                locked
            },
            ..self
        }
    }

    /// The delayed click that is scheduled after this tick's right
    /// click: a press of the right button while the assist is on and
    /// not suppressed schedules one at `now`.
    pub open spec fn scheduled(self, now: u64) -> Option<u64> {
        if self.double_click_active_mapped() && self.keys.right_click.is_pressed {
            Some(now)
        } else {
            self.double_click_origin
        }
    }

    /// The double-click assist at `now`: a right click schedules the
    /// delayed click, and a scheduled click whose delay has passed is
    /// fired and forgotten, so that it is fired once.
    pub open spec fn assist(self, now: u64) -> (StateView, Seq<Action>) {
        if Self::double_click_due(self.scheduled(now), now) {
            (
                StateView { double_click_origin: None, ..self },
                seq![Action::Click(MouseButton::Right)],
            )
        } else {
            (StateView { double_click_origin: self.scheduled(now), ..self }, Seq::empty())
        }
    }

    /// The three periodic actions stepped at `now`, with the driver
    /// calls that they fire: left click, right click, key.
    pub open spec fn spam(self, now: u64) -> (StateView, Seq<Action>) {
        (
            StateView {
                spam_left: self.spam_left.step(now as int),
                spam_right: self.spam_right.step(now as int),
                spam_space: self.spam_space.step(now as int),
                ..self
            },
            opt_action(self.spam_left.fired(now as int)) + opt_action(
                self.spam_right.fired(now as int),
            ) + opt_action(self.spam_space.fired(now as int)),
        )
    }

    /// Second part of a tick, the same in every mode: the switches, the
    /// double-click assist and the periodic actions. The result holds
    /// the driver calls in the order in which they have to be made.
    pub open spec fn on_step(self, now: u64) -> (StateView, Seq<Action>) {
        let (assisted, first) = self.switch().assist(now);
        let (stepped, rest) = assisted.spam(now);
        (stepped, first + rest)
    }

    /// The repository after the navigation keys of this tick.
    pub open spec fn navigate(self) -> RecipesView {
        let back = if self.keys.prev.is_pressed {
            if self.keys.prev_skip.is_pressed {
                self.recipes.decrement_skip()
            } else {
                self.recipes.decrement()
            }
        } else {
            self.recipes
        };
        if self.keys.next.is_pressed {
            if self.keys.next_skip.is_pressed {
                back.increment_skip()
            } else {
                back.increment()
            }
        } else {
            back
        }
    }

    /// A tick in idle mode: the navigation keys move the selection; then
    /// the first of these decides: begin trade clicks once, remembers
    /// the cursor and starts the first half of a trade; record starts a
    /// recording; play asks for the click sequence of the selected
    /// recipe; delete and rename enter their modes.
    pub open spec fn on_idle(self, input: InputView) -> (StateView, Result<OutputView, Failure>) {
        let recipes = self.navigate();
        let moved = StateView { recipes, ..self };
        let reload = self.keys.prev.is_pressed || self.keys.next.is_pressed;
        let quiet = OutputView { reload_textures: reload, ..OutputView::empty() };
        if self.keys.begin_trade.is_pressed {
            match input.cursor {
                Some(position) => (
                    StateView {
                        detail: DetailView::TradingFirst {
                            state: TradeFirst::InvClicked,
                            position,
                            origin: input.now,
                        },
                        ..moved
                    },
                    Ok(OutputView { actions: seq![Action::Click(MouseButton::Left)], ..quiet }),
                ),
                None => (moved, Err(Failure::Driver)),
            }
        } else if self.keys.record.is_pressed {
            (
                StateView {
                    detail: DetailView::Recording { clicks: Seq::empty(), count: 0 },
                    ..moved
                },
                Ok(quiet),
            )
        } else if self.keys.play.is_pressed && recipes.current_path() is Some {
            (
                StateView { pending: Some(Pending::Load), ..moved },
                Ok(
                    OutputView {
                        request: Some(RequestView::Load { path: recipes.current_path()->0 }),
                        ..quiet
                    },
                ),
            )
        } else if self.keys.delete.is_pressed {
            (StateView { detail: DetailView::Deleting, ..moved }, Ok(quiet))
        } else if self.keys.rename.is_pressed {
            (
                StateView {
                    detail: DetailView::Renaming { name: Seq::empty(), draw_required: false },
                    ..moved
                },
                Ok(quiet),
            )
        } else {
            (moved, Ok(quiet))
        }
    }

    /// A tick while recording: a click on a cell appends the cell and
    /// counts repeats, a click elsewhere is dropped; record ends the
    /// recording, sets the lock and asks for a name.
    pub open spec fn on_record(self, clicks: Seq<Grid>, count: nat, input: InputView) -> (
        StateView,
        Result<OutputView, Failure>,
    ) {
        if self.keys.click.is_pressed && input.cursor is None {
            (self, Err(Failure::Driver))
        } else {
            let hit = match input.cursor {
                Some(position) if self.keys.click.is_pressed => Grid::locate(
                    Coord(position.0, position.1),
                ),
                _ => None,
            };
            let (clicks, count, draw_required) = match hit {
                Some(cell) => (clicks.push(cell), repeat_count(clicks, count, cell), true),
                None => (clicks, count, self.draw_required),
            };
            if self.keys.record.is_pressed {
                (
                    StateView {
                        detail: DetailView::Naming {
                            clicks,
                            name: Seq::empty(),
                            draw_required: false,
                        },
                        draw_required,
                        is_locked: true,
                        ..self
                    },
                    Ok(OutputView::empty()),
                )
            } else {
                (
                    StateView {
                        detail: DetailView::Recording { clicks, count },
                        draw_required,
                        ..self
                    },
                    Ok(OutputView::empty()),
                )
            }
        }
    }

    /// A tick while a name is entered: confirm refuses an empty name
    /// and one that is taken, and asks to store the recipe with the
    /// text of its click file otherwise. The mode stays until the
    /// storage has answered.
    pub open spec fn on_name(
        self,
        clicks: Seq<Grid>,
        name: Seq<char>,
        draw_required: bool,
    ) -> (StateView, Result<OutputView, Failure>) {
        let stay = StateView {
            detail: DetailView::Naming { clicks, name, draw_required: false },
            draw_required: self.draw_required || draw_required,
            ..self
        };
        if !self.keys.confirm.is_pressed {
            (stay, Ok(OutputView::empty()))
        } else if name.len() == 0 {
            (
                stay,
                Ok(
                    only_report(
                        Context::CreateRecipe,
                        Failure::Validation(ValidationError::EmptyName),
                    ),
                ),
            )
        } else if self.recipes.contains(name) {
            (
                stay,
                Ok(
                    only_report(
                        Context::CreateRecipe,
                        Failure::Validation(ValidationError::DuplicateName),
                    ),
                ),
            )
        } else {
            match json_text(encode(clicks)) {
                Some(text) => (
                    StateView { pending: Some(Pending::Save), ..stay },
                    Ok(only_request(RequestView::Save { name, clicks: text })),
                ),
                None => (stay, Ok(only_report(Context::CreateRecipe, Failure::Serialization))),
            }
        }
    }

    /// A tick of a playback: the beat decides what is done to which
    /// cell; beyond the last cell the engine returns to idle.
    pub open spec fn on_play(self, clicks: Seq<(Grid, Cursor)>, origin: u64, now: u64) -> (
        StateView,
        Result<OutputView, Failure>,
    ) {
        let (next, action) = play_step(clicks, beat_index(origin, now));
        match next {
            Some(clicks) => (
                StateView { detail: DetailView::Playing { clicks, origin }, ..self },
                Ok(only_action(action)),
            ),
            None => (
                StateView { detail: DetailView::Idle, draw_required: true, ..self },
                Ok(OutputView::empty()),
            ),
        }
    }

    /// A tick of the first half of a trade.
    pub open spec fn on_trade_first(
        self,
        state: TradeFirst,
        position: (i32, i32),
        origin: u64,
        now: u64,
    ) -> (StateView, Result<OutputView, Failure>) {
        let (next, action) = trade_first_step(
            state,
            beat_index(origin, now),
            self.keys.end_trade.is_pressed,
        );
        let detail = match next {
            Some(state) => DetailView::TradingFirst { state, position, origin },
            None => DetailView::TradingSecond {
                state: TradeSecond::RightClicked,
                position,
                origin: now,
            },
        };
        (StateView { detail, ..self }, Ok(only_action(action)))
    }

    /// A tick of the second half of a trade.
    pub open spec fn on_trade_second(
        self,
        state: TradeSecond,
        position: (i32, i32),
        origin: u64,
        now: u64,
    ) -> (StateView, Result<OutputView, Failure>) {
        let (next, action) = trade_second_step(state, beat_index(origin, now), position);
        match next {
            Some(state) => (
                StateView {
                    detail: DetailView::TradingSecond { state, position, origin },
                    ..self
                },
                Ok(only_action(action)),
            ),
            None => (
                StateView { detail: DetailView::Idle, draw_required: true, ..self },
                Ok(only_action(action)),
            ),
        }
    }

    /// A tick while a deletion waits for its confirmation: confirm asks
    /// to remove the selected recipe; with nothing selected the engine
    /// returns to idle.
    pub open spec fn on_delete(self) -> (StateView, Result<OutputView, Failure>) {
        let stay = StateView { detail: DetailView::Deleting, ..self };
        if !self.keys.confirm.is_pressed {
            (stay, Ok(OutputView::empty()))
        } else {
            match self.recipes.delete() {
                Some(request) => (
                    StateView { pending: Some(Pending::Remove), ..stay },
                    Ok(only_request(request)),
                ),
                None => (self, Ok(OutputView::empty())),
            }
        }
    }

    /// A tick while a new name is entered: confirm refuses the name
    /// that the recipe has, and asks to move the recipe otherwise; with
    /// nothing selected the engine returns to idle.
    pub open spec fn on_rename(self, name: Seq<char>, draw_required: bool) -> (
        StateView,
        Result<OutputView, Failure>,
    ) {
        let stay = StateView {
            detail: DetailView::Renaming { name, draw_required: false },
            draw_required: self.draw_required || draw_required,
            ..self
        };
        if !self.keys.confirm.is_pressed {
            (stay, Ok(OutputView::empty()))
        } else {
            match self.recipes.rename(join(self.recipes.root, name)) {
                Err(e) => (stay, Ok(only_report(Context::RenameRecipe, e))),
                Ok(Some(request)) => (
                    StateView { pending: Some(Pending::Rename), ..stay },
                    Ok(only_request(request)),
                ),
                Ok(None) => (
                    StateView { detail: DetailView::Idle, ..stay },
                    Ok(OutputView::empty()),
                ),
            }
        }
    }

    /// Third part of a tick: the mode that the second part left decides.
    /// The handlers start from idle and put the next mode in place.
    pub open spec fn dispatch(self, input: InputView) -> (StateView, Result<OutputView, Failure>) {
        let idle = StateView { detail: DetailView::Idle, ..self };
        match self.detail {
            DetailView::Idle => idle.on_idle(input),
            DetailView::Recording { clicks, count } => idle.on_record(clicks, count, input),
            DetailView::Naming { clicks, name, draw_required } => idle.on_name(
                clicks,
                name,
                draw_required,
            ),
            DetailView::Playing { clicks, origin } => idle.on_play(clicks, origin, input.now),
            DetailView::TradingFirst { state, position, origin } => idle.on_trade_first(
                state,
                position,
                origin,
                input.now,
            ),
            DetailView::TradingSecond { state, position, origin } => idle.on_trade_second(
                state,
                position,
                origin,
                input.now,
            ),
            DetailView::Deleting => idle.on_delete(),
            DetailView::Renaming { name, draw_required } => idle.on_rename(name, draw_required),
        }
    }

    /// One tick: the engine afterwards, and what the host has to do or
    /// the error that ends the run. The driver calls of the second part
    /// come before those of the mode.
    pub open spec fn step(self, input: InputView) -> (StateView, Result<OutputView, Failure>) {
        let (crossed, actions) = self.poll(input).on_step(input.now);
        let (next, result) = crossed.dispatch(input);
        (
            next,
            match result {
                Ok(out) => Ok(OutputView { actions: actions + out.actions, ..out }),
                Err(e) => Err(e),
            },
        )
    }

    /// The engine after the storage did what the user confirmed and the
    /// folder now holds `names`: the repository is read anew and the
    /// engine returns to idle, unlocked where a recipe was created.
    /// Where the names cannot be loaded the operation counts as failed:
    /// the error is shown for `context`, and the mode, the lock and the
    /// repository stay as they were.
    pub open spec fn reloaded(self, names: Seq<Seq<char>>, context: Context) -> (
        StateView,
        Result<OutputView, Failure>,
    ) {
        match RecipesView::load(self.recipes.root, names) {
            Ok(recipes) => (
                StateView {
                    detail: DetailView::Idle,
                    recipes,
                    is_locked: if context == Context::CreateRecipe {
                        false
                    } else {
                        self.is_locked
                    },
                    pending: None,
                    ..self
                },
                Ok(OutputView { reload_textures: true, ..OutputView::empty() }),
            ),
            Err(e) => (StateView { pending: None, ..self }, Ok(only_report(context, e))),
        }
    }

    /// The engine after the host answered the storage operation of the
    /// last tick at the time `now`. A click file that was read starts
    /// the playback of its sequence, unless it is malformed, which ends
    /// the run, as does a click file that could not be read. A folder
    /// that was changed is read anew and the engine returns to idle. A
    /// failure of what the user confirmed, be it the storage operation
    /// or the reading of the folder after it, is shown and the mode
    /// stays, so that the user can try again or abort. An answer that
    /// fits no open operation changes nothing.
    pub open spec fn complete(self, reply: ReplyView, now: u64) -> (
        StateView,
        Result<OutputView, Failure>,
    ) {
        let closed = StateView { pending: None, ..self };
        match (self.pending, reply) {
            (Some(Pending::Load), ReplyView::Clicks(text)) => match decode(json_objects(text)) {
                Ok(cells) => (
                    StateView {
                        detail: DetailView::Playing { clicks: fresh_playback(cells), origin: now },
                        ..closed
                    },
                    Ok(OutputView::empty()),
                ),
                Err(e) => (closed, Err(e)),
            },
            (Some(Pending::Load), ReplyView::Failed(e)) => (closed, Err(e)),
            (Some(Pending::Save), ReplyView::Listing(names)) => self.reloaded(
                names,
                Context::CreateRecipe,
            ),
            (Some(Pending::Save), ReplyView::Failed(e)) => (
                closed,
                Ok(only_report(Context::CreateRecipe, e)),
            ),
            (Some(Pending::Remove), ReplyView::Listing(names)) => self.reloaded(
                names,
                Context::DeleteRecipe,
            ),
            (Some(Pending::Remove), ReplyView::Failed(e)) => (
                closed,
                Ok(only_report(Context::DeleteRecipe, e)),
            ),
            (Some(Pending::Rename), ReplyView::Listing(names)) => self.reloaded(
                names,
                Context::RenameRecipe,
            ),
            (Some(Pending::Rename), ReplyView::Failed(e)) => (
                closed,
                Ok(only_report(Context::RenameRecipe, e)),
            ),
            _ => (self, Ok(OutputView::empty())),
        }
    }
}

/// The tick-driven controller: it owns the detectors, the periodic
/// actions, the repository and the mode, and makes one transition per
/// tick.
pub struct State {
    detail: Detail,
    draw_required: bool,
    keys: Keys,
    spam_left: Spam,
    spam_right: Spam,
    spam_space: Spam,
    recipes: Recipes,
    double_click_active: bool,
    double_click_origin: Option<u64>,
    is_locked: bool,
    pending: Option<Pending>,
}

impl View for State {
    type V = StateView;

    closed spec fn view(&self) -> StateView {
        StateView {
            detail: self.detail@,
            draw_required: self.draw_required,
            keys: self.keys@,
            spam_left: self.spam_left@,
            spam_right: self.spam_right@,
            spam_space: self.spam_space@,
            recipes: self.recipes@,
            double_click_active: self.double_click_active,
            double_click_origin: self.double_click_origin,
            is_locked: self.is_locked,
            pending: self.pending,
        }
    }
}

/// An output with nothing in it.
fn empty_output() -> (out: Output)
    ensures
        out@ == OutputView::empty(),
{
    Output { actions: Vec::new(), reload_textures: false, report: None, request: None }
}

/// An output that holds the driver call `action`, if there is one.
fn action_output(action: Option<Action>) -> (out: Output)
    ensures
        out@ == only_action(action),
{
    let mut out = empty_output();
    if let Some(a) = action {
        out.actions.push(a);
    }
    assert(out.actions@ =~= opt_action(action));
    out
}

/// An output that holds an error to show.
fn report_output(context: Context, error: Failure) -> (out: Output)
    ensures
        out@ == only_report(context, error),
{
    let mut out = empty_output();
    out.report = Some(Report { context, error });
    out
}

/// An output that holds a storage operation.
fn request_output(request: Request) -> (out: Output)
    ensures
        out@ == only_request(request@),
{
    let mut out = empty_output();
    out.request = Some(request);
    out
}

impl State {
    /// The engine at its start, at the time `now`, with the bindings
    /// `bindings` and the recipes called `names` in the folder `root`.
    pub fn new(bindings: &Bindings, now: u64, root: &str, names: Vec<String>) -> (r: Result<
        Self,
        Failure,
    >)
        ensures
            match r {
                Ok(state) => {
                    &&& RecipesView::load(root@, crate::io::string_views(names@)) == Ok::<
                        RecipesView,
                        Failure,
                    >(state@.recipes)
                    &&& state@ == StateView::initial(*bindings, now, state@.recipes)
                    &&& state@.wf()
                },
                Err(e) => RecipesView::load(root@, crate::io::string_views(names@)) == Err::<
                    RecipesView,
                    Failure,
                >(e),
            },
    {
        let recipes = match Recipes::new(root, names) {
            Ok(recipes) => recipes,
            Err(e) => {
                return Err(e);
            },
        };
        Ok(
            State {
                detail: Detail::Idle,
                draw_required: false,
                keys: Keys::new(bindings),
                spam_left: Spam::new(INT_LEFT, now, SpamKind::Mouse(MouseButton::Left)),
                spam_right: Spam::new(INT_RIGHT, now, SpamKind::Mouse(MouseButton::Right)),
                spam_space: Spam::new(INT_SPACE, now, SpamKind::Key(bindings.spam_key)),
                recipes,
                double_click_active: false,
                double_click_origin: None,
                is_locked: false,
                pending: None,
            },
        )
    }

    /// Whether the display has to be drawn again after the last tick.
    pub fn draw_required(&self) -> (r: bool)
        ensures
            r == self@.draw_required,
    {
        self.draw_required
    }

    /// The mode the engine is in.
    pub fn detail(&self) -> (r: &Detail)
        ensures
            r@ == self@.detail,
    {
        &self.detail
    }

    /// The detectors, as the last tick left them.
    pub fn keys(&self) -> (r: &Keys)
        ensures
            r@ == self@.keys,
    {
        &self.keys
    }

    /// The repeated left click.
    pub fn spam_left(&self) -> (r: &Spam)
        ensures
            r@ == self@.spam_left,
    {
        &self.spam_left
    }

    /// The repeated right click.
    pub fn spam_right(&self) -> (r: &Spam)
        ensures
            r@ == self@.spam_right,
    {
        &self.spam_right
    }

    /// The repeated key.
    pub fn spam_space(&self) -> (r: &Spam)
        ensures
            r@ == self@.spam_space,
    {
        &self.spam_space
    }

    /// The recipe repository.
    pub fn recipes(&self) -> (r: &Recipes)
        ensures
            r@ == self@.recipes,
    {
        &self.recipes
    }

    /// Whether the interaction lock is on.
    pub fn is_locked(&self) -> (r: bool)
        ensures
            r == self@.is_locked,
    {
        self.is_locked
    }

    /// The storage operation that the engine waits for.
    pub fn pending(&self) -> (r: Option<Pending>)
        ensures
            r == self@.pending,
    {
        self.pending
    }

    /// Whether the double-click assist is switched on and not
    /// suppressed.
    pub fn double_click_active_mapped(&self) -> (r: bool)
        ensures
            r == self@.double_click_active_mapped(),
    {
        self.double_click_active && !self.double_click_disable_condition()
    }

    /// Whether the double-click assist is switched on but suppressed.
    pub fn double_click_temporarily_disabled(&self) -> (r: bool)
        ensures
            r == self@.double_click_temporarily_disabled(),
    {
        self.double_click_active && self.double_click_disable_condition()
    }

    /// The text that the user typed goes to the end of the name that is
    /// being entered; outside naming and renaming nothing happens.
    pub fn push_text(&mut self, text: &str)
        ensures
            final(self)@ == old(self)@.push_text(text@),
            old(self)@.wf() ==> final(self)@.wf(),
    {
        let mut detail = Detail::Idle;
        core::mem::swap(&mut self.detail, &mut detail);
        self.detail = match detail {
            Detail::Naming { clicks, mut name, draw_required } => {
                name.append(text);
                Detail::Naming { clicks, name, draw_required: true }
            },
            Detail::Renaming { mut name, draw_required } => {
                name.append(text);
                Detail::Renaming { name, draw_required: true }
            },
            other => other,
        };
        proof {
            if old(self)@.wf() {
                lemma_text_keeps_wf(old(self)@, text@);
            }
        }
    }

    /// The last character leaves the name that is being entered;
    /// outside naming and renaming nothing happens.
    pub fn pop_text(&mut self)
        ensures
            final(self)@ == old(self)@.pop_text(),
            old(self)@.wf() ==> final(self)@.wf(),
    {
        let mut detail = Detail::Idle;
        core::mem::swap(&mut self.detail, &mut detail);
        self.detail = match detail {
            Detail::Naming { clicks, mut name, draw_required } => {
                let _ = pop_char(&mut name);
                Detail::Naming { clicks, name, draw_required: true }
            },
            Detail::Renaming { mut name, draw_required } => {
                let _ = pop_char(&mut name);
                Detail::Renaming { name, draw_required: true }
            },
            other => other,
        };
        proof {
            if old(self)@.wf() {
                lemma_text_keeps_wf(old(self)@, Seq::empty());
            }
        }
    }

    /// One tick: feeds the detectors, steps the periodic actions and the
    /// double-click assist, and lets the mode make its transition.
    /// Returns what the host has to do, or the error that ends the run.
    pub fn step(&mut self, input: &Input) -> (r: Result<Output, Failure>)
        ensures
            final(self)@ == old(self)@.step(input@).0,
            outcome_view(r) == old(self)@.step(input@).1,
            old(self)@.wf() ==> final(self)@.wf(),
    {
        proof {
            if old(self)@.wf() {
                lemma_step_keeps_wf(old(self)@, input@);
            }
        }
        self.poll(input);
        let mut actions = self.on_step(input.now);
        match self.dispatch(input) {
            Ok(mut out) => {
                actions.append(&mut out.actions);
                out.actions = actions;
                Ok(out)
            },
            Err(e) => Err(e),
        }
    }

    /// Takes the host's answer to the storage operation of the last
    /// tick, at the time `now`.
    pub fn complete(&mut self, reply: Reply, now: u64) -> (r: Result<Output, Failure>)
        ensures
            final(self)@ == old(self)@.complete(reply@, now).0,
            outcome_view(r) == old(self)@.complete(reply@, now).1,
            old(self)@.wf() ==> final(self)@.wf(),
    {
        proof {
            if old(self)@.wf() {
                lemma_complete_keeps_wf(old(self)@, reply@, now);
            }
        }
        let pending = match self.pending {
            Some(pending) => pending,
            None => {
                return Ok(empty_output());
            },
        };
        match reply {
            Reply::Clicks(text) => {
                match pending {
                    Pending::Load => {
                        self.pending = None;
                        let cells = match load_clicks(text.as_str()) {
                            Ok(cells) => cells,
                            Err(e) => {
                                return Err(e);
                            },
                        };
                        self.detail = Detail::Playing { clicks: new_playback(&cells), origin: now };
                        Ok(empty_output())
                    },
                    _ => Ok(empty_output()),
                }
            },
            Reply::Listing(names) => {
                match pending {
                    Pending::Load => Ok(empty_output()),
                    Pending::Save => self.reload(names, Context::CreateRecipe),
                    Pending::Remove => self.reload(names, Context::DeleteRecipe),
                    Pending::Rename => self.reload(names, Context::RenameRecipe),
                }
            },
            Reply::Failed(e) => {
                self.pending = None;
                match pending {
                    Pending::Load => Err(e),
                    Pending::Save => Ok(report_output(Context::CreateRecipe, e)),
                    Pending::Remove => Ok(report_output(Context::DeleteRecipe, e)),
                    Pending::Rename => Ok(report_output(Context::RenameRecipe, e)),
                }
            },
        }
    }

    /// Reads the repository anew from `names` and returns to idle, or
    /// shows for `context` why the names cannot be loaded and stays.
    fn reload(&mut self, names: Vec<String>, context: Context) -> (r: Result<Output, Failure>)
        ensures
            final(self)@ == old(self)@.reloaded(crate::io::string_views(names@), context).0,
            outcome_view(r) == old(self)@.reloaded(crate::io::string_views(names@), context).1,
    {
        self.pending = None;
        let root = self.recipes.root().clone();
        match Recipes::new(root.as_str(), names) {
            Ok(recipes) => {
                self.recipes = recipes;
                self.detail = Detail::Idle;
                if context == Context::CreateRecipe {
                    self.is_locked = false;
                }
                let mut out = empty_output();
                out.reload_textures = true;
                Ok(out)
            },
            Err(e) => Ok(report_output(context, e)),
        }
    }

    fn double_click_disable_condition(&self) -> (r: bool)
        ensures
            r == self@.double_click_disable_condition(),
    {
        self.keys.cancel_dc.is_down() || self.spam_right.is_active()
    }

    fn poll(&mut self, input: &Input)
        ensures
            final(self)@ == old(self)@.poll(input@),
    {
        self.pending = None;
        self.draw_required = self.keys.update(&input.down, self.is_locked);
        if self.keys.left.is_pressed() {
            self.spam_left.toggle_active();
        }
        if self.keys.right.is_pressed() {
            self.spam_right.toggle_active();
        }
        if self.keys.space.is_pressed() {
            self.spam_space.toggle_active();
        }
    }

    fn switch(&mut self)
        ensures
            final(self)@ == old(self)@.switch(),
    {
        if self.keys.lock.is_pressed() {
            self.is_locked = !self.is_locked;
        }
        if self.keys.abort.is_pressed() {
            let naming = match &self.detail {
                Detail::Naming { .. } => true,
                _ => false,
            };
            if naming {
                self.is_locked = false;
            }
            self.detail = Detail::Idle;
        }
        if self.keys.double_click.is_pressed() {
            self.double_click_active = !self.double_click_active;
        }
        if self.keys.cancel_dc.is_released() {
            self.draw_required = true;
        }
    }

    fn assist(&mut self, now: u64) -> (actions: Vec<Action>)
        ensures
            final(self)@ == old(self)@.assist(now).0,
            actions@ == old(self)@.assist(now).1,
    {
        if self.double_click_active_mapped() && self.keys.right_click.is_pressed() {
            self.double_click_origin = Some(now);
        }
        let mut actions: Vec<Action> = Vec::new();
        if let Some(origin) = self.double_click_origin {
            if now >= origin && now - origin >= INT_DOUBLE_CLICK {
                actions.push(Action::Click(MouseButton::Right));
                self.double_click_origin = None;
            }
        }
        actions
    }

    fn spam(&mut self, now: u64, actions: &mut Vec<Action>)
        ensures
            final(self)@ == old(self)@.spam(now).0,
            final(actions)@ == old(actions)@ + old(self)@.spam(now).1,
    {
        let left = self.spam_left.step(now);
        if let Some(a) = left {
            actions.push(a);
        }
        let right = self.spam_right.step(now);
        if let Some(a) = right {
            actions.push(a);
        }
        let space = self.spam_space.step(now);
        if let Some(a) = space {
            actions.push(a);
        }
        assert(actions@ =~= old(actions)@ + (opt_action(left) + opt_action(right) + opt_action(
            space,
        )));
    }

    fn on_step(&mut self, now: u64) -> (actions: Vec<Action>)
        ensures
            final(self)@ == old(self)@.on_step(now).0,
            actions@ == old(self)@.on_step(now).1,
    {
        self.switch();
        let mut actions = self.assist(now);
        self.spam(now, &mut actions);
        actions
    }

    fn dispatch(&mut self, input: &Input) -> (r: Result<Output, Failure>)
        ensures
            final(self)@ == old(self)@.dispatch(input@).0,
            outcome_view(r) == old(self)@.dispatch(input@).1,
    {
        let mut detail = Detail::Idle;
        core::mem::swap(&mut self.detail, &mut detail);
        match detail {
            Detail::Idle => self.on_idle(input),
            Detail::Recording { clicks, count } => self.on_record(clicks, count, input),
            Detail::Naming { clicks, name, draw_required } => self.on_name(
                clicks,
                name,
                draw_required,
            ),
            Detail::Playing { clicks, origin } => self.on_play(clicks, origin, input.now),
            Detail::TradingFirst { state, position, origin } => self.on_trade_first(
                state,
                position,
                origin,
                input.now,
            ),
            Detail::TradingSecond { state, position, origin } => self.on_trade_second(
                state,
                position,
                origin,
                input.now,
            ),
            Detail::Deleting => self.on_delete(),
            Detail::Renaming { name, draw_required } => self.on_rename(name, draw_required),
        }
    }

    fn on_idle(&mut self, input: &Input) -> (r: Result<Output, Failure>)
        requires
            old(self)@.detail is Idle,
        ensures
            final(self)@ == old(self)@.on_idle(input@).0,
            outcome_view(r) == old(self)@.on_idle(input@).1,
    {
        let prev = self.keys.prev.is_pressed();
        let next = self.keys.next.is_pressed();
        if prev {
            if self.keys.prev_skip.is_pressed() {
                self.recipes.decrement_skip();
            } else {
                self.recipes.decrement();
            }
        }
        if next {
            if self.keys.next_skip.is_pressed() {
                self.recipes.increment_skip();
            } else {
                self.recipes.increment();
            }
        }
        let mut out = empty_output();
        out.reload_textures = prev || next;
        let load: Option<String> = if self.keys.play.is_pressed() {
            match self.recipes.get_path() {
                Some(path) => Some(path.clone()),
                None => None,
            }
        } else {
            None
        };
        if self.keys.begin_trade.is_pressed() {
            match input.cursor {
                Some(position) => {
                    out.actions.push(Action::Click(MouseButton::Left));
                    assert(out.actions@ =~= seq![Action::Click(MouseButton::Left)]);
                    self.detail =
                    Detail::TradingFirst {
                        state: TradeFirst::InvClicked,
                        position,
                        origin: input.now,
                    };
                    Ok(out)
                },
                None => Err(Failure::Driver),
            }
        } else if self.keys.record.is_pressed() {
            self.detail = Detail::Recording { clicks: Vec::new(), count: 0 };
            Ok(out)
        } else if let Some(path) = load {
            self.pending = Some(Pending::Load);
            out.request = Some(Request::Load { path });
            Ok(out)
        } else if self.keys.delete.is_pressed() {
            self.detail = Detail::Deleting;
            Ok(out)
        } else if self.keys.rename.is_pressed() {
            self.detail = Detail::Renaming { name: String::new(), draw_required: false };
            Ok(out)
        } else {
            Ok(out)
        }
    }

    fn on_record(&mut self, clicks: Vec<Grid>, count: usize, input: &Input) -> (r: Result<
        Output,
        Failure,
    >)
        requires
            old(self)@.detail is Idle,
        ensures
            final(self)@ == old(self)@.on_record(clicks@, count as nat, input@).0,
            outcome_view(r) == old(self)@.on_record(clicks@, count as nat, input@).1,
    {
        let mut clicks = clicks;
        let mut count = count;
        if self.keys.click.is_pressed() {
            let position = match input.cursor {
                Some(position) => position,
                None => {
                    return Err(Failure::Driver);
                },
            };
            let coord = Coord(position.0, position.1);
            if let Ok(cell) = Grid::from_coord(&coord) {
                self.draw_required = true;
                count = record_click(&mut clicks, count, cell);
            }
        }
        if self.keys.record.is_pressed() {
            self.is_locked = true;
            self.detail = Detail::Naming { clicks, name: String::new(), draw_required: false };
        } else {
            self.detail = Detail::Recording { clicks, count };
        }
        Ok(empty_output())
    }

    fn on_name(&mut self, clicks: Vec<Grid>, name: String, draw_required: bool) -> (r: Result<
        Output,
        Failure,
    >)
        requires
            old(self)@.detail is Idle,
        ensures
            final(self)@ == old(self)@.on_name(clicks@, name@, draw_required).0,
            outcome_view(r) == old(self)@.on_name(clicks@, name@, draw_required).1,
    {
        self.draw_required = self.draw_required || draw_required;
        let out = if !self.keys.confirm.is_pressed() {
            empty_output()
        } else if name.as_str().is_empty() {
            report_output(Context::CreateRecipe, Failure::Validation(ValidationError::EmptyName))
        } else if self.recipes.contains(name.as_str()) {
            report_output(
                Context::CreateRecipe,
                Failure::Validation(ValidationError::DuplicateName),
            )
        } else {
            match save_clicks(&clicks) {
                Ok(text) => {
                    self.pending = Some(Pending::Save);
                    request_output(Request::Save { name: name.clone(), clicks: text })
                },
                Err(e) => report_output(Context::CreateRecipe, e),
            }
        };
        self.detail = Detail::Naming { clicks, name, draw_required: false };
        Ok(out)
    }

    fn on_play(&mut self, clicks: Vec<(Grid, Cursor)>, origin: u64, now: u64) -> (r: Result<
        Output,
        Failure,
    >)
        requires
            old(self)@.detail is Idle,
        ensures
            final(self)@ == old(self)@.on_play(clicks@, origin, now).0,
            outcome_view(r) == old(self)@.on_play(clicks@, origin, now).1,
    {
        let mut clicks = clicks;
        let (going, action) = play(&mut clicks, beats(origin, now));
        if going {
            self.detail = Detail::Playing { clicks, origin };
            Ok(action_output(action))
        } else {
            self.draw_required = true;
            Ok(empty_output())
        }
    }

    fn on_trade_first(
        &mut self,
        state: TradeFirst,
        position: (i32, i32),
        origin: u64,
        now: u64,
    ) -> (r: Result<Output, Failure>)
        requires
            old(self)@.detail is Idle,
        ensures
            final(self)@ == old(self)@.on_trade_first(state, position, origin, now).0,
            outcome_view(r) == old(self)@.on_trade_first(state, position, origin, now).1,
    {
        let (next, action) = trade_first(
            state,
            beats(origin, now),
            self.keys.end_trade.is_pressed(),
        );
        self.detail = match next {
            Some(state) => Detail::TradingFirst { state, position, origin },
            None => Detail::TradingSecond {
                state: TradeSecond::RightClicked,
                position,
                origin: now,
            },
        };
        Ok(action_output(action))
    }

    fn on_trade_second(
        &mut self,
        state: TradeSecond,
        position: (i32, i32),
        origin: u64,
        now: u64,
    ) -> (r: Result<Output, Failure>)
        requires
            old(self)@.detail is Idle,
        ensures
            final(self)@ == old(self)@.on_trade_second(state, position, origin, now).0,
            outcome_view(r) == old(self)@.on_trade_second(state, position, origin, now).1,
    {
        let (next, action) = trade_second(state, beats(origin, now), position);
        match next {
            Some(state) => {
                self.detail = Detail::TradingSecond { state, position, origin };
            },
            None => {
                self.draw_required = true;
            },
        }
        Ok(action_output(action))
    }

    fn on_delete(&mut self) -> (r: Result<Output, Failure>)
        requires
            old(self)@.detail is Idle,
        ensures
            final(self)@ == old(self)@.on_delete().0,
            outcome_view(r) == old(self)@.on_delete().1,
    {
        if !self.keys.confirm.is_pressed() {
            self.detail = Detail::Deleting;
            return Ok(empty_output());
        }
        match self.recipes.delete() {
            Some(request) => {
                self.detail = Detail::Deleting;
                self.pending = Some(Pending::Remove);
                Ok(request_output(request))
            },
            None => Ok(empty_output()),
        }
    }

    fn on_rename(&mut self, name: String, draw_required: bool) -> (r: Result<Output, Failure>)
        requires
            old(self)@.detail is Idle,
        ensures
            final(self)@ == old(self)@.on_rename(name@, draw_required).0,
            outcome_view(r) == old(self)@.on_rename(name@, draw_required).1,
    {
        self.draw_required = self.draw_required || draw_required;
        if !self.keys.confirm.is_pressed() {
            self.detail = Detail::Renaming { name, draw_required: false };
            return Ok(empty_output());
        }
        let to = self.recipes.path_of(name.as_str());
        match self.recipes.rename(to.as_str()) {
            Err(e) => {
                self.detail = Detail::Renaming { name, draw_required: false };
                Ok(report_output(Context::RenameRecipe, e))
            },
            Ok(Some(request)) => {
                self.detail = Detail::Renaming { name, draw_required: false };
                self.pending = Some(Pending::Rename);
                Ok(request_output(request))
            },
            Ok(None) => Ok(empty_output()),
        }
    }
}

/// A playback of `n` cells goes on for `2 * n` beats from its start and
/// ends at the first tick after that, with the display marked for
/// drawing; until then every tick leaves the engine playing.
pub proof fn lemma_playing_ends(s: StateView, clicks: Seq<(Grid, Cursor)>, origin: u64, now: u64)
    requires
        origin <= now,
    ensures
        s.on_play(clicks, origin, now).0.detail is Idle <==> now - origin >= 2 * clicks.len()
            * INT_PLAY,
        s.on_play(clicks, origin, now).0.detail is Idle || s.on_play(
            clicks,
            origin,
            now,
        ).0.detail is Playing,
        s.on_play(clicks, origin, now).0.detail is Idle ==> s.on_play(
            clicks,
            origin,
            now,
        ).0.draw_required,
{
    crate::state::detail::lemma_playback_length(clicks, beat_index(origin, now));
    let n = clicks.len() as int;
    let e = now - origin;
    assert(INT_PLAY == 7000);
    assert(2 * clicks.len() * INT_PLAY == 14000 * n) by (nonlinear_arith)
        requires
            INT_PLAY == 7000,
            n == clicks.len(),
    ;
    assert(e / 7000 >= 2 * n <==> e >= 14000 * n);
}

/// What the user confirmed can be tried again: whatever the storage
/// answers to a save, a removal or a move, the run goes on. Where the
/// operation failed, or the folder cannot be loaded after it, the error
/// is shown for the operation, and the mode with its buffer, the lock
/// and the repository stay as they were.
pub proof fn lemma_confirmed_failure_is_reported(s: StateView, reply: ReplyView, now: u64)
    requires
        s.pending is Some,
        s.pending != Some(Pending::Load),
        !(reply is Clicks),
    ensures
        s.complete(reply, now).1 is Ok,
        s.complete(reply, now).0.pending is None,
        ({
            let context = match s.pending->0 {
                Pending::Save => Context::CreateRecipe,
                Pending::Remove => Context::DeleteRecipe,
                _ => Context::RenameRecipe,
            };
            let failure = match reply {
                ReplyView::Failed(e) => Some(e),
                ReplyView::Listing(names) => match RecipesView::load(s.recipes.root, names) {
                    Err(e) => Some(e),
                    Ok(_) => None,
                },
                _ => None,
            };
            match failure {
                Some(e) => {
                    &&& s.complete(reply, now).1 == Ok::<OutputView, Failure>(
                        only_report(context, e),
                    )
                    &&& s.complete(reply, now).0 == (StateView { pending: None, ..s })
                },
                None => {
                    &&& s.complete(reply, now).0.detail is Idle
                    &&& s.complete(reply, now).1->Ok_0.reload_textures
                    &&& s.complete(reply, now).1->Ok_0.report is None
                },
            }
        }),
{
}

/// Abort ends every mode: whatever the engine was doing, the part of
/// the tick that comes before the mode puts it to idle, and a lock that
/// naming had set is lifted.
pub proof fn lemma_abort_forces_idle(s: StateView, now: u64)
    requires
        s.keys.abort.is_pressed,
    ensures
        s.on_step(now).0.detail == DetailView::Idle,
        s.detail is Naming ==> !s.on_step(now).0.is_locked,
{
}

/// The delayed click of the double-click assist is fired once: it is
/// fired at the first tick at which its delay has passed, not before,
/// and a later tick without a new right click fires nothing.
pub proof fn lemma_assist_fires_once(s: StateView, origin: u64, now: u64, later: u64)
    requires
        s.double_click_origin == Some(origin),
        !s.keys.right_click.is_pressed,
    ensures
        s.assist(now).1 == (if now - origin >= INT_DOUBLE_CLICK {
            seq![Action::Click(MouseButton::Right)]
        } else {
            Seq::<Action>::empty()
        }),
        now - origin >= INT_DOUBLE_CLICK ==> s.assist(now).0.double_click_origin is None
            && s.assist(now).0.assist(later).1 == Seq::<Action>::empty(),
        now - origin < INT_DOUBLE_CLICK ==> s.assist(now).0 == s,
{
}

/// A tick makes four driver calls at most before the mode acts: one of
/// the double-click assist and one of each periodic action.
pub proof fn lemma_step_actions_bounded(s: StateView, now: u64)
    ensures
        s.on_step(now).1.len() <= 4,
        s.assist(now).1.len() <= 1,
        s.spam(now).1.len() <= 3,
{
}

/// The engine starts well formed, and typed text, ticks and answers of
/// the storage keep it so, whether they succeed or end the run.
pub proof fn lemma_wf_is_kept(
    s: StateView,
    input: InputView,
    reply: ReplyView,
    now: u64,
    text: Seq<char>,
    bindings: Bindings,
    recipes: RecipesView,
)
    requires
        s.wf(),
        recipes.wf(),
    ensures
        StateView::initial(bindings, now, recipes).wf(),
        s.push_text(text).wf(),
        s.pop_text().wf(),
        s.step(input).0.wf(),
        s.complete(reply, now).0.wf(),
{
    lemma_text_keeps_wf(s, text);
    lemma_step_keeps_wf(s, input);
    lemma_complete_keeps_wf(s, reply, now);
}

/// The first two parts of a tick keep the engine well formed and leave
/// no storage operation open.
proof fn lemma_on_step_keeps_wf(s: StateView, input: InputView)
    requires
        s.wf(),
    ensures
        s.poll(input).on_step(input.now).0.wf(),
        s.poll(input).on_step(input.now).0.pending is None,
{
    let polled = s.poll(input);
    assert(polled.wf() && polled.pending is None);
    let switched = polled.switch();
    assert(switched.wf() && switched.pending is None);
    let assisted = switched.assist(input.now).0;
    assert(assisted.wf() && assisted.pending is None);
    crate::state::spam::lemma_phase_kept(assisted.spam_left, input.now as int);
    crate::state::spam::lemma_phase_kept(assisted.spam_right, input.now as int);
    crate::state::spam::lemma_phase_kept(assisted.spam_space, input.now as int);
}

/// A tick in idle mode keeps the engine well formed.
proof fn lemma_on_idle_keeps_wf(s: StateView, input: InputView)
    requires
        s.wf(),
        s.detail is Idle,
        s.pending is None,
    ensures
        s.on_idle(input).0.wf(),
{
    crate::state::recipes::lemma_navigation_keeps_wf(s.recipes);
    crate::state::recipes::lemma_navigation_keeps_wf(s.recipes.decrement());
    crate::state::recipes::lemma_navigation_keeps_wf(s.recipes.decrement_skip());
    assert(s.navigate().wf());
}

/// A tick while recording keeps the engine well formed.
proof fn lemma_on_record_keeps_wf(s: StateView, clicks: Seq<Grid>, count: nat, input: InputView)
    requires
        s.wf(),
        s.detail is Idle,
        s.pending is None,
        all_valid(clicks),
        count <= clicks.len(),
    ensures
        s.on_record(clicks, count, input).0.wf(),
{
    if s.keys.click.is_pressed && input.cursor is Some {
        let position = input.cursor->0;
        match Grid::locate(Coord(position.0, position.1)) {
            Some(cell) => {
                assert(cell.wf());
                let next = clicks.push(cell);
                assert forall|i: int| 0 <= i < next.len() implies (#[trigger] next[i]).wf() by {
                    if i < clicks.len() {
                        assert(next[i] == clicks[i]);
                    }
                }
            },
            None => {},
        }
    }
}

/// A tick of a playback keeps the engine well formed.
proof fn lemma_on_play_keeps_wf(s: StateView, clicks: Seq<(Grid, Cursor)>, origin: u64, now: u64)
    requires
        s.wf(),
        s.detail is Idle,
        s.pending is None,
        forall|i: int| 0 <= i < clicks.len() ==> (#[trigger] clicks[i]).0.wf(),
    ensures
        s.on_play(clicks, origin, now).0.wf(),
{
    match play_step(clicks, beat_index(origin, now)).0 {
        Some(next) => {
            assert forall|i: int| 0 <= i < next.len() implies (#[trigger] next[i]).0.wf() by {
                assert(next[i].0 == clicks[i].0);
            }
        },
        None => {},
    }
}

/// Typed and erased text keeps the engine well formed.
proof fn lemma_text_keeps_wf(s: StateView, text: Seq<char>)
    requires
        s.wf(),
    ensures
        s.push_text(text).wf(),
        s.pop_text().wf(),
{
}

/// A tick keeps the engine well formed.
proof fn lemma_step_keeps_wf(s: StateView, input: InputView)
    requires
        s.wf(),
    ensures
        s.step(input).0.wf(),
{
    lemma_on_step_keeps_wf(s, input);
    let crossed = s.poll(input).on_step(input.now).0;
    let idle = StateView { detail: DetailView::Idle, ..crossed };
    match crossed.detail {
        DetailView::Idle => {
            lemma_on_idle_keeps_wf(idle, input);
        },
        DetailView::Recording { clicks, count } => {
            lemma_on_record_keeps_wf(idle, clicks, count, input);
        },
        DetailView::Playing { clicks, origin } => {
            lemma_on_play_keeps_wf(idle, clicks, origin, input.now);
        },
        DetailView::Naming { clicks, name, draw_required } => {
            assert(idle.on_name(clicks, name, draw_required).0.wf());
        },
        DetailView::TradingFirst { state, position, origin } => {
            assert(idle.on_trade_first(state, position, origin, input.now).0.wf());
        },
        DetailView::TradingSecond { state, position, origin } => {
            assert(idle.on_trade_second(state, position, origin, input.now).0.wf());
        },
        DetailView::Deleting => {
            assert(idle.on_delete().0.wf());
        },
        DetailView::Renaming { name, draw_required } => {
            assert(idle.on_rename(name, draw_required).0.wf());
        },
    }
}

/// An answer of the storage keeps the engine well formed.
proof fn lemma_complete_keeps_wf(s: StateView, reply: ReplyView, now: u64)
    requires
        s.wf(),
    ensures
        s.complete(reply, now).0.wf(),
{
    match reply {
        ReplyView::Listing(names) => {
            crate::state::recipes::lemma_load_wf(s.recipes.root, names);
        },
        ReplyView::Clicks(text) => {
            if let Ok(cells) = decode(json_objects(text)) {
                lemma_read_cells_are_valid(json_objects(text));
                let clicks = fresh_playback(cells);
                assert forall|i: int| 0 <= i < clicks.len() implies (#[trigger] clicks[i]).0.wf() by {
                    assert(cells[i].wf());
                }
            }
        },
        _ => {},
    }
}

} // verus!
