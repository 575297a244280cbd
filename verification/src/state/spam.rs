use vstd::prelude::*;

use crate::io::Action;
use crate::io::MouseButton;

verus! {

/// What a periodic action holds down while it is engaged.
#[derive(Clone, Copy, Debug, PartialEq, Eq, Structural)]
pub enum SpamKind {
    /// A mouse button.
    Mouse(MouseButton),
    /// The key with this identifier.
    Key(u16),
}

impl SpamKind {
    /// The driver call that engages the effect.
    pub open spec fn engage(self) -> Action {
        match self {
            SpamKind::Mouse(button) => Action::MouseDown(button),
            SpamKind::Key(key) => Action::KeyDown(key),
        }
    }

    /// The driver call that releases the effect.
    pub open spec fn release(self) -> Action {
        match self {
            SpamKind::Mouse(button) => Action::MouseUp(button),
            SpamKind::Key(key) => Action::KeyUp(key),
        }
    }

    /// The driver call that engages the effect.
    pub fn on_down(&self) -> (r: Action)
        ensures
            r == self.engage(),
    {
        match self {
            SpamKind::Mouse(button) => Action::MouseDown(*button),
            SpamKind::Key(key) => Action::KeyDown(*key),
        }
    }

    /// The driver call that releases the effect.
    pub fn on_up(&self) -> (r: Action)
        ensures
            r == self.release(),
    {
        match self {
            SpamKind::Mouse(button) => Action::MouseUp(*button),
            SpamKind::Key(key) => Action::KeyUp(*key),
        }
    }
}

/// Mathematical model of a periodic action. Times are microseconds on
/// the host's monotonic clock.
pub struct SpamView {
    /// Switched on by the user.
    pub is_active: bool,
    /// The effect is engaged: an engage was fired and not yet released.
    pub is_down: bool,
    /// Start of the current interval.
    pub last: int,
    /// Length of an interval, positive.
    pub interval: int,
    /// What is held down while engaged.
    pub kind: SpamKind,
}

impl SpamView {
    /// The interval is positive.
    pub open spec fn wf(self) -> bool {
        self.interval > 0
    }

    /// Whether a full interval has passed at `now`.
    pub open spec fn due(self, now: int) -> bool {
        now - self.last >= self.interval
    }

    /// Start of the interval that `now` falls into: `now` less what has
    /// passed of that interval, so the phase of the schedule is kept
    /// however late the call comes.
    pub open spec fn phase(self, now: int) -> int {
        now - (now - self.last) % self.interval
    }

    /// The driver call that a step at `now` fires, if any.
    pub open spec fn fired(self, now: int) -> Option<Action> {
        if !self.due(now) {
            None
        } else if self.is_active && !self.is_down {
            Some(self.kind.engage())
        } else if !self.is_active && self.is_down {
            Some(self.kind.release())
        } else {
            None
        }
    }

    /// The action after a step at `now`.
    pub open spec fn step(self, now: int) -> SpamView {
        if !self.due(now) {
            self
        } else {
            SpamView {
                last: self.phase(now),
                is_down: if self.is_active && !self.is_down {
                    true
                } else if !self.is_active && self.is_down {
                    false
                } else {
                    self.is_down
                },
                ..self
            }
        }
    }

    /// The action after the user switched it on or off.
    pub open spec fn toggle(self) -> SpamView {
        SpamView { is_active: !self.is_active, ..self }
    }
}

/// A background action that the user switches on and off and that is
/// held engaged while it is on, refreshed on a fixed interval.
pub struct Spam {
    is_active: bool,
    is_down: bool,
    last: u64,
    interval: u64,
    kind: SpamKind,
}

impl View for Spam {
    type V = SpamView;

    closed spec fn view(&self) -> SpamView {
        SpamView {
            is_active: self.is_active,
            is_down: self.is_down,
            last: self.last as int,
            interval: self.interval as int,
            kind: self.kind,
        }
    }
}

impl Spam {
    /// Every value of the type has a positive interval.
    #[verifier::type_invariant]
    pub open spec fn inv(self) -> bool {
        self@.wf()
    }

    /// A switched-off, released action with its first interval starting
    /// at `now`.
    pub fn new(interval: u64, now: u64, kind: SpamKind) -> (r: Self)
        requires
            interval > 0,
        ensures
            r@ == (SpamView {
                is_active: false,
                is_down: false,
                last: now as int,
                interval: interval as int,
                kind,
            }),
    {
        Spam { is_active: false, is_down: false, last: now, interval, kind }
    }

    /// Whether the user has switched the action on.
    pub fn is_active(&self) -> (r: bool)
        ensures
            r == self@.is_active,
    {
        self.is_active
    }

    /// Whether the effect is engaged.
    pub fn is_down(&self) -> (r: bool)
        ensures
            r == self@.is_down,
    {
        self.is_down
    }

    /// Start of the current interval.
    pub fn last(&self) -> (r: u64)
        ensures
            r == self@.last,
    {
        self.last
    }

    /// Length of an interval.
    pub fn interval(&self) -> (r: u64)
        ensures
            r == self@.interval,
            r > 0,
    {
        proof {
            use_type_invariant(self);
        }
        self.interval
    }

    /// Switches the action on or off.
    pub fn _set_active(&mut self, value: bool)
        ensures
            final(self)@ == (SpamView { is_active: value, ..old(self)@ }),
    {
        proof {
            use_type_invariant(&*self);
        }
        self.is_active = value;
    }

    /// Switches the action on if it is off and off if it is on.
    pub fn toggle_active(&mut self)
        ensures
            final(self)@ == old(self)@.toggle(),
    {
        proof {
            use_type_invariant(&*self);
        }
        self.is_active = !self.is_active;
    }

    /// Lets the action fire at the time `now`: nothing happens before a
    /// full interval has passed since the last start; after that the
    /// start is moved to the last interval boundary and at most one
    /// driver call is returned.
    pub fn step(&mut self, now: u64) -> (r: Option<Action>)
        ensures
            final(self)@ == old(self)@.step(now as int),
            r == old(self)@.fired(now as int),
            final(self)@.wf(),
    {
        proof {
            use_type_invariant(&*self);
        }
        if now < self.last || now - self.last < self.interval {
            return None;
        }
        let rem = (now - self.last) % self.interval;
        self.last = now - rem;
        if self.is_active && !self.is_down {
            self.is_down = true;
            Some(self.kind.on_down())
        } else if !self.is_active && self.is_down {
            self.is_down = false;
            Some(self.kind.on_up())
        } else {
            None
        }
    }
}

/// An action that was switched on while released engages at the first
/// step that comes a full interval after `last`, and at no earlier one;
/// once engaged it fires nothing more while it stays switched on.
pub proof fn lemma_engages_once(s: SpamView, now: int, later: int)
    requires
        s.wf(),
        s.is_active,
        !s.is_down,
    ensures
        s.fired(now) == (if now >= s.last + s.interval {
            Some(s.kind.engage())
        } else {
            None
        }),
        s.due(now) ==> s.step(now).is_down && s.step(now).fired(later) is None,
{
}

/// An action that was switched off while engaged releases at the first
/// step that comes a full interval after `last`, and at no earlier one;
/// once released it fires nothing more while it stays switched off.
pub proof fn lemma_releases_once(s: SpamView, now: int, later: int)
    requires
        s.wf(),
        !s.is_active,
        s.is_down,
    ensures
        s.fired(now) == (if now >= s.last + s.interval {
            Some(s.kind.release())
        } else {
            None
        }),
        s.due(now) ==> !s.step(now).is_down && s.step(now).fired(later) is None,
{
}

/// A step that is due moves the start of the interval to the last
/// boundary of the schedule at or before `now`: a whole number of
/// intervals after the old start, and less than one interval before
/// `now`. A step that is not due changes nothing.
pub proof fn lemma_phase_kept(s: SpamView, now: int)
    requires
        s.wf(),
    ensures
        s.step(now).wf(),
        s.step(now).interval == s.interval,
        s.step(now).is_active == s.is_active,
        s.step(now).kind == s.kind,
        !s.due(now) ==> s.step(now) == s,
        s.due(now) ==> {
            &&& now - s.interval < s.step(now).last <= now
            &&& (s.step(now).last - s.last) % s.interval == 0
            &&& s.step(now).last == s.last + s.interval * ((now - s.last) / s.interval)
        },
{
    if s.due(now) {
        let e = now - s.last;
        let i = s.interval;
        vstd::arithmetic::div_mod::lemma_fundamental_div_mod(e, i);
        vstd::arithmetic::div_mod::lemma_mod_bound(e, i);
        assert(s.step(now).last - s.last == i * (e / i));
        vstd::arithmetic::div_mod::lemma_mod_multiples_basic(e / i, i);
        assert((i * (e / i)) % i == 0) by {
            vstd::arithmetic::mul::lemma_mul_is_commutative(i, e / i);
        }
    }
}

} // verus!
