use vstd::prelude::*;

verus! {

/// Mathematical model of a debounced key or key combination.
pub struct KeyView {
    /// Identifiers of the raw keys that have to be down together.
    pub vkeys: Seq<u16>,
    /// Whether the key counted as down at the last update.
    pub previous: bool,
    /// The key went down at the last update.
    pub is_pressed: bool,
    /// The key went up at the last update.
    pub is_released: bool,
}

impl KeyView {
    /// Whether every raw key of the combination is among the keys `down`.
    pub open spec fn raw_down(self, down: Seq<u16>) -> bool {
        forall|i: int| 0 <= i < self.vkeys.len() ==> down.contains(#[trigger] self.vkeys[i])
    }

    /// Whether the key counts as down: all its raw keys are down and it
    /// is not disabled.
    pub open spec fn effective_down(self, down: Seq<u16>, is_disabled: bool) -> bool {
        !is_disabled && self.raw_down(down)
    }

    /// A key over `vkeys` that has not seen an update yet.
    pub open spec fn fresh(vkeys: Seq<u16>) -> KeyView {
        KeyView { vkeys, previous: false, is_pressed: false, is_released: false }
    }

    /// The key after an update with the raw keys `down`.
    pub open spec fn update(self, down: Seq<u16>, is_disabled: bool) -> KeyView {
        let is_down = self.effective_down(down, is_disabled);
        KeyView {
            vkeys: self.vkeys,
            previous: is_down,
            is_pressed: is_down && !self.previous,
            is_released: !is_down && self.previous,
        }
    }
}

/// Turns the polled state of a key, or of several keys that have to be
/// down together, into one-shot press and release edges.
pub struct Key {
    vkeys: Vec<u16>,
    previous: bool,
    is_pressed: bool,
    is_released: bool,
}

impl View for Key {
    type V = KeyView;

    closed spec fn view(&self) -> KeyView {
        KeyView {
            vkeys: self.vkeys@,
            previous: self.previous,
            is_pressed: self.is_pressed,
            is_released: self.is_released,
        }
    }
}

/// Whether `key` occurs in `keys`.
pub fn contains_key(keys: &Vec<u16>, key: u16) -> (r: bool)
    ensures
        r == keys@.contains(key),
{
    let mut i: usize = 0;
    while i < keys.len()
        invariant
            i <= keys.len(),
            forall|j: int| 0 <= j < i ==> keys@[j] != key,
        decreases keys.len() - i,
    {
        if keys[i] == key {
            return true;
        }
        i += 1;
    }
    false
}

impl Key {
    /// A detector for one raw key.
    pub fn single(vkey: u16) -> (r: Self)
        ensures
            r@ == KeyView::fresh(seq![vkey]),
    {
        let mut vkeys: Vec<u16> = Vec::new();
        vkeys.push(vkey);
        assert(vkeys@ =~= seq![vkey]);
        Key { vkeys, previous: false, is_pressed: false, is_released: false }
    }

    /// A detector for raw keys that have to be down together.
    pub fn multiple(vkeys: Vec<u16>) -> (r: Self)
        ensures
            r@ == KeyView::fresh(vkeys@),
    {
        Key { vkeys, previous: false, is_pressed: false, is_released: false }
    }

    /// Feeds the detector the raw keys that are down at this tick.
    pub fn update(&mut self, down: &Vec<u16>, is_disabled: bool)
        ensures
            final(self)@ == old(self)@.update(down@, is_disabled),
    {
        let mut is_down = !is_disabled;
        let mut i: usize = 0;
        while is_down && i < self.vkeys.len()
            invariant
                i <= self.vkeys.len(),
                *self == *old(self),
                is_down ==> !is_disabled,
                is_down ==> forall|j: int|
                    0 <= j < i ==> down@.contains(#[trigger] self.vkeys@[j]),
                !is_down ==> !old(self)@.effective_down(down@, is_disabled),
            decreases self.vkeys.len() - i + (if is_down { 1nat } else { 0nat }),
        {
            if !contains_key(down, self.vkeys[i]) {
                assert(!down@.contains(old(self)@.vkeys[i as int]));
                is_down = false;
            } else {
                i += 1;
            }
        }
        self.is_pressed = is_down && !self.previous;
        self.is_released = !is_down && self.previous;
        self.previous = is_down;
    }

    /// Whether the key went down at the last update.
    pub fn is_pressed(&self) -> (r: bool)
        ensures
            r == self@.is_pressed,
    {
        self.is_pressed
    }

    /// Whether the key went up at the last update.
    pub fn is_released(&self) -> (r: bool)
        ensures
            r == self@.is_released,
    {
        self.is_released
    }

    /// Whether the key counted as down at the last update.
    pub fn is_down(&self) -> (r: bool)
        ensures
            r == self@.previous,
    {
        self.previous
    }
}

/// Pressed and released are one-shot and exclude each other: an edge
/// shows only at the update where the effective state changed, and a
/// second update with the same raw keys shows none.
pub proof fn lemma_edges_one_shot(k: KeyView, down: Seq<u16>, is_disabled: bool)
    ensures
        !(k.update(down, is_disabled).is_pressed && k.update(down, is_disabled).is_released),
        k.update(down, is_disabled).is_pressed <==> (k.effective_down(down, is_disabled)
            && !k.previous),
        k.update(down, is_disabled).is_released <==> (!k.effective_down(down, is_disabled)
            && k.previous),
        !k.update(down, is_disabled).update(down, is_disabled).is_pressed,
        !k.update(down, is_disabled).update(down, is_disabled).is_released,
        is_disabled ==> !k.update(down, is_disabled).previous,
{
}

/// Which raw key or button stands for which logical action.
#[derive(Clone, Copy, Debug, PartialEq, Eq, Structural)]
pub struct Bindings {
    /// Key that switches the repeated left click.
    pub left: u16,
    /// Key that switches the repeated right click.
    pub right: u16,
    /// Key that switches the repeated key.
    pub space: u16,
    /// Key that starts and ends a recording.
    pub record: u16,
    /// Key that plays the selected recipe.
    pub play: u16,
    /// Button whose presses are recorded.
    pub click: u16,
    /// Button that the double-click assist repeats.
    pub right_click: u16,
    /// Button that selects the previous recipe.
    pub prev: u16,
    /// Button that selects the next recipe.
    pub next: u16,
    /// Key that switches the double-click assist.
    pub double_click: u16,
    /// Key that starts the trading choreography.
    pub begin_trade: u16,
    /// Key that confirms the first half of the trading choreography.
    pub end_trade: u16,
    /// Key that returns to idle.
    pub abort: u16,
    /// Button that, held together with the modifier, switches the lock.
    pub lock: u16,
    /// Key that turns navigation into skipping, arms the lock button and suppresses the double-click assist while held.
    pub modifier: u16,
    /// Key that confirms a name or a deletion.
    pub confirm: u16,
    /// Key that asks to delete the selected recipe.
    pub delete: u16,
    /// Key that asks to rename the selected recipe.
    pub rename: u16,
    /// Key that the repeated key action holds down.
    pub spam_key: u16,
}

impl Bindings {
    /// The bindings that the engine uses unless told otherwise.
    pub open spec fn standard() -> Bindings {
        Bindings {
            left: 0x5A,
            right: 0x58,
            space: 0x43,
            record: 0x42,
            play: 0x47,
            click: 0x01,
            right_click: 0x02,
            prev: 0x06,
            next: 0x05,
            double_click: 0x09,
            begin_trade: 0x52,
            end_trade: 0xA0,
            abort: 0xC0,
            lock: 0x04,
            modifier: 0xA2,
            confirm: 0x0D,
            delete: 0x2E,
            rename: 0x71,
            spam_key: 0x20,
        }
    }
}

impl Default for Bindings {
    fn default() -> (r: Self)
        ensures
            r == Bindings::standard(),
    {
        Bindings {
            // Z
            left: 0x5A,
            // X
            right: 0x58,
            // C
            space: 0x43,
            // B
            record: 0x42,
            // G
            play: 0x47,
            // left mouse button
            click: 0x01,
            // right mouse button
            right_click: 0x02,
            // second extra mouse button
            prev: 0x06,
            // first extra mouse button
            next: 0x05,
            // tab
            double_click: 0x09,
            // R
            begin_trade: 0x52,
            // left shift
            end_trade: 0xA0,
            // backquote
            abort: 0xC0,
            // middle mouse button
            lock: 0x04,
            // left control
            modifier: 0xA2,
            // return
            confirm: 0x0D,
            // delete
            delete: 0x2E,
            // F2
            rename: 0x71,
            // space bar
            spam_key: 0x20,
        }
    }
}

/// Mathematical model of the set of detectors.
pub struct KeysView {
    pub left: KeyView,
    pub right: KeyView,
    pub space: KeyView,
    pub record: KeyView,
    pub play: KeyView,
    pub click: KeyView,
    pub right_click: KeyView,
    pub prev: KeyView,
    pub next: KeyView,
    pub double_click: KeyView,
    pub begin_trade: KeyView,
    pub end_trade: KeyView,
    pub abort: KeyView,
    pub lock: KeyView,
    pub cancel_dc: KeyView,
    pub confirm: KeyView,
    pub prev_skip: KeyView,
    pub next_skip: KeyView,
    pub delete: KeyView,
    pub rename: KeyView,
}

impl KeysView {
    /// The detectors for `bindings`, none of which has seen an update.
    /// The lock and the two skip actions ask for the modifier together
    /// with their button.
    pub open spec fn fresh(bindings: Bindings) -> KeysView {
        KeysView {
            left: KeyView::fresh(seq![bindings.left]),
            right: KeyView::fresh(seq![bindings.right]),
            space: KeyView::fresh(seq![bindings.space]),
            record: KeyView::fresh(seq![bindings.record]),
            play: KeyView::fresh(seq![bindings.play]),
            click: KeyView::fresh(seq![bindings.click]),
            right_click: KeyView::fresh(seq![bindings.right_click]),
            prev: KeyView::fresh(seq![bindings.prev]),
            next: KeyView::fresh(seq![bindings.next]),
            double_click: KeyView::fresh(seq![bindings.double_click]),
            begin_trade: KeyView::fresh(seq![bindings.begin_trade]),
            end_trade: KeyView::fresh(seq![bindings.end_trade]),
            abort: KeyView::fresh(seq![bindings.abort]),
            lock: KeyView::fresh(seq![bindings.modifier, bindings.lock]),
            cancel_dc: KeyView::fresh(seq![bindings.modifier]),
            confirm: KeyView::fresh(seq![bindings.confirm]),
            prev_skip: KeyView::fresh(seq![bindings.modifier, bindings.prev]),
            next_skip: KeyView::fresh(seq![bindings.modifier, bindings.next]),
            delete: KeyView::fresh(seq![bindings.delete]),
            rename: KeyView::fresh(seq![bindings.rename]),
        }
    }

    /// The detectors after an update with the raw keys `down`. While
    /// the lock is on every detector is fed as disabled but those for
    /// the two physical buttons, abort, lock, the modifier and confirm.
    pub open spec fn update(self, down: Seq<u16>, is_locked: bool) -> KeysView {
        KeysView {
            left: self.left.update(down, is_locked),
            right: self.right.update(down, is_locked),
            space: self.space.update(down, is_locked),
            record: self.record.update(down, is_locked),
            play: self.play.update(down, is_locked),
            click: self.click.update(down, false),
            right_click: self.right_click.update(down, false),
            prev: self.prev.update(down, is_locked),
            next: self.next.update(down, is_locked),
            double_click: self.double_click.update(down, is_locked),
            begin_trade: self.begin_trade.update(down, is_locked),
            end_trade: self.end_trade.update(down, is_locked),
            abort: self.abort.update(down, false),
            lock: self.lock.update(down, false),
            cancel_dc: self.cancel_dc.update(down, false),
            confirm: self.confirm.update(down, false),
            prev_skip: self.prev_skip.update(down, is_locked),
            next_skip: self.next_skip.update(down, is_locked),
            delete: self.delete.update(down, is_locked),
            rename: self.rename.update(down, is_locked),
        }
    }

    /// Whether any detector but those of the two physical buttons shows
    /// a press.
    pub open spec fn any_pressed(self) -> bool {
        ||| self.left.is_pressed
        ||| self.right.is_pressed
        ||| self.space.is_pressed
        ||| self.record.is_pressed
        ||| self.play.is_pressed
        ||| self.prev.is_pressed
        ||| self.next.is_pressed
        ||| self.double_click.is_pressed
        ||| self.begin_trade.is_pressed
        ||| self.end_trade.is_pressed
        ||| self.abort.is_pressed
        ||| self.lock.is_pressed
        ||| self.cancel_dc.is_pressed
        ||| self.confirm.is_pressed
        ||| self.prev_skip.is_pressed
        ||| self.next_skip.is_pressed
        ||| self.delete.is_pressed
        ||| self.rename.is_pressed
    }
}

/// The detectors of all logical actions.
pub struct Keys {
    /// Switches the repeated left click on and off.
    pub left: Key,
    /// Switches the repeated right click on and off.
    pub right: Key,
    /// Switches the repeated key on and off.
    pub space: Key,
    /// Starts and ends a recording.
    pub record: Key,
    /// Plays the selected recipe.
    pub play: Key,
    /// The physical left button, sampled while recording.
    pub click: Key,
    /// The physical right button, watched by the double-click assist.
    pub right_click: Key,
    /// Selects the previous recipe.
    pub prev: Key,
    /// Selects the next recipe.
    pub next: Key,
    /// Switches the double-click assist on and off.
    pub double_click: Key,
    /// Starts the trading choreography.
    pub begin_trade: Key,
    /// Confirms the first half of the trading choreography.
    pub end_trade: Key,
    /// Returns to idle from any mode.
    pub abort: Key,
    /// Switches the interaction lock on and off.
    pub lock: Key,
    /// Suppresses the double-click assist while held.
    pub cancel_dc: Key,
    /// Confirms a name or a deletion.
    pub confirm: Key,
    /// Selects the previous group of recipes.
    pub prev_skip: Key,
    /// Selects the next group of recipes.
    pub next_skip: Key,
    /// Asks to delete the selected recipe.
    pub delete: Key,
    /// Asks to rename the selected recipe.
    pub rename: Key,
}

impl View for Keys {
    type V = KeysView;

    open spec fn view(&self) -> KeysView {
        KeysView {
            left: self.left@,
            right: self.right@,
            space: self.space@,
            record: self.record@,
            play: self.play@,
            click: self.click@,
            right_click: self.right_click@,
            prev: self.prev@,
            next: self.next@,
            double_click: self.double_click@,
            begin_trade: self.begin_trade@,
            end_trade: self.end_trade@,
            abort: self.abort@,
            lock: self.lock@,
            cancel_dc: self.cancel_dc@,
            confirm: self.confirm@,
            prev_skip: self.prev_skip@,
            next_skip: self.next_skip@,
            delete: self.delete@,
            rename: self.rename@,
        }
    }
}

/// A detector for the raw keys `first` and `second` held together.
fn pair(first: u16, second: u16) -> (r: Key)
    ensures
        r@ == KeyView::fresh(seq![first, second]),
{
    let mut vkeys: Vec<u16> = Vec::new();
    vkeys.push(first);
    vkeys.push(second);
    assert(vkeys@ =~= seq![first, second]);
    Key::multiple(vkeys)
}

impl Keys {
    /// The detectors for `bindings`, none of which has seen an update.
    pub fn new(bindings: &Bindings) -> (r: Self)
        ensures
            r@ == KeysView::fresh(*bindings),
    {
        Keys {
            left: Key::single(bindings.left),
            right: Key::single(bindings.right),
            space: Key::single(bindings.space),
            record: Key::single(bindings.record),
            play: Key::single(bindings.play),
            click: Key::single(bindings.click),
            right_click: Key::single(bindings.right_click),
            prev: Key::single(bindings.prev),
            next: Key::single(bindings.next),
            double_click: Key::single(bindings.double_click),
            begin_trade: Key::single(bindings.begin_trade),
            end_trade: Key::single(bindings.end_trade),
            abort: Key::single(bindings.abort),
            lock: pair(bindings.modifier, bindings.lock),
            cancel_dc: Key::single(bindings.modifier),
            confirm: Key::single(bindings.confirm),
            prev_skip: pair(bindings.modifier, bindings.prev),
            next_skip: pair(bindings.modifier, bindings.next),
            delete: Key::single(bindings.delete),
            rename: Key::single(bindings.rename),
        }
    }

    /// Feeds every detector the raw keys that are down at this tick and
    /// tells whether the display has to be drawn again.
    pub fn update(&mut self, down: &Vec<u16>, is_locked: bool) -> (redraw: bool)
        ensures
            final(self)@ == old(self)@.update(down@, is_locked),
            redraw == final(self)@.any_pressed(),
    {
        self.click.update(down, false);
        self.right_click.update(down, false);
        self.abort.update(down, false);
        self.lock.update(down, false);
        self.cancel_dc.update(down, false);
        self.confirm.update(down, false);
        self.left.update(down, is_locked);
        self.right.update(down, is_locked);
        self.space.update(down, is_locked);
        self.record.update(down, is_locked);
        self.play.update(down, is_locked);
        self.prev.update(down, is_locked);
        self.next.update(down, is_locked);
        self.double_click.update(down, is_locked);
        self.begin_trade.update(down, is_locked);
        self.end_trade.update(down, is_locked);
        self.prev_skip.update(down, is_locked);
        self.next_skip.update(down, is_locked);
        self.delete.update(down, is_locked);
        self.rename.update(down, is_locked);
        self.abort.is_pressed()
            || self.lock.is_pressed()
            || self.cancel_dc.is_pressed()
            || self.confirm.is_pressed()
            || self.left.is_pressed()
            || self.right.is_pressed()
            || self.space.is_pressed()
            || self.record.is_pressed()
            || self.play.is_pressed()
            || self.prev.is_pressed()
            || self.next.is_pressed()
            || self.double_click.is_pressed()
            || self.begin_trade.is_pressed()
            || self.end_trade.is_pressed()
            || self.prev_skip.is_pressed()
            || self.next_skip.is_pressed()
            || self.delete.is_pressed()
            || self.rename.is_pressed()
    }
}

/// While the lock is on, none of the lockable detectors shows a press
/// or counts as down, whatever keys are held; abort, lock, the modifier
/// and confirm go on as without the lock.
pub proof fn lemma_lock_disables(keys: KeysView, down: Seq<u16>)
    ensures
        ({
            let k = keys.update(down, true);
            &&& !k.left.is_pressed && !k.right.is_pressed && !k.space.is_pressed
            &&& !k.record.is_pressed && !k.play.is_pressed
            &&& !k.prev.is_pressed && !k.next.is_pressed
            &&& !k.prev_skip.is_pressed && !k.next_skip.is_pressed
            &&& !k.double_click.is_pressed
            &&& !k.begin_trade.is_pressed && !k.end_trade.is_pressed
            &&& !k.delete.is_pressed && !k.rename.is_pressed
            &&& k.abort == keys.update(down, false).abort
            &&& k.lock == keys.update(down, false).lock
            &&& k.cancel_dc == keys.update(down, false).cancel_dc
            &&& k.confirm == keys.update(down, false).confirm
            &&& k.click == keys.update(down, false).click
            &&& k.right_click == keys.update(down, false).right_click
        }),
{
}

} // verus!
