use vstd::prelude::*;

verus! {

/// Abstract input symbol produced by resolving a raw key code.
#[derive(Clone, Copy, Debug, PartialEq, Eq, Structural)]
pub enum InputEvent {
    Confirm,
    Fire,
    Up,
    Down,
    Left,
    Right,
}

/// Number of distinct input events.
pub const NUM_EVENTS: usize = 6;

/// Position of an event in the tracker's table.
pub open spec fn event_index(e: InputEvent) -> int {
    match e {
        InputEvent::Confirm => 0,
        InputEvent::Fire => 1,
        InputEvent::Up => 2,
        InputEvent::Down => 3,
        InputEvent::Left => 4,
        InputEvent::Right => 5,
    }
}

pub fn index_of(e: InputEvent) -> (r: usize)
    ensures
        r as int == event_index(e),
        r < NUM_EVENTS,
{
    match e {
        InputEvent::Confirm => 0,
        InputEvent::Fire => 1,
        InputEvent::Up => 2,
        InputEvent::Down => 3,
        InputEvent::Left => 4,
        InputEvent::Right => 5,
    }
}

/// What the binding table yields for `code`: the event of the first entry
/// whose key is `code`, or nothing when no entry has that key.
pub open spec fn resolve_in(table: Seq<(u32, InputEvent)>, code: u32) -> Option<InputEvent>
    decreases table.len(),
{
    if table.len() == 0 {
        None
    } else if table[0].0 == code {
        Some(table[0].1)
    } else {
        resolve_in(table.drop_first(), code)
    }
}

/// A lookup finds an event exactly when some entry has the key, and what it
/// finds is the event of such an entry.
pub proof fn lemma_resolve_finds_bound_keys(table: Seq<(u32, InputEvent)>, code: u32)
    ensures
        resolve_in(table, code) is Some <==> exists|i: int| 0 <= i < table.len() && (#[trigger] table[i]).0 == code,
        resolve_in(table, code) matches Some(e) ==> exists|i: int| 0 <= i < table.len() && #[trigger] table[i] == (code, e),
    decreases table.len(),
{
    if table.len() > 0 {
        let rest = table.drop_first();
        lemma_resolve_finds_bound_keys(rest, code);
        if table[0].0 != code {
            if exists|i: int| 0 <= i < table.len() && (#[trigger] table[i]).0 == code {
                let i = choose|i: int| 0 <= i < table.len() && (#[trigger] table[i]).0 == code;
                assert(rest[i - 1] == table[i]);
            }
            if resolve_in(rest, code) is Some {
                let e = resolve_in(rest, code)->Some_0;
                let j = choose|j: int| 0 <= j < rest.len() && #[trigger] rest[j] == (code, e);
                assert(table[j + 1] == rest[j]);
            }
        }
    }
}

/// Immutable mapping from raw key codes to abstract input events.
pub struct InputBinding {
    pub entries: Vec<(u32, InputEvent)>,
}

impl View for InputBinding {
    type V = Seq<(u32, InputEvent)>;

    open spec fn view(&self) -> Seq<(u32, InputEvent)> {
        self.entries@
    }
}

impl InputBinding {
    /// An empty table: every key is unbound.
    pub fn new() -> (r: InputBinding)
        ensures
            r@ == Seq::<(u32, InputEvent)>::empty(),
    {
        InputBinding { entries: Vec::new() }
    }

    /// Binds `code` to `event`. A key that is already bound keeps its
    /// earlier event.
    pub fn bind(&mut self, code: u32, event: InputEvent)
        ensures
            final(self)@ == old(self)@.push((code, event)),
    {
        self.entries.push((code, event));
    }

    /// Looks up a raw key code. Total and pure: the answer depends on the
    /// table and the code alone.
    pub fn resolve(&self, code: u32) -> (r: Option<InputEvent>)
        ensures
            r == resolve_in(self@, code),
    {
        let mut i: usize = 0;
        assert(self@.subrange(0, self@.len() as int) =~= self@);
        while i < self.entries.len()
            invariant
                i <= self.entries@.len(),
                resolve_in(self@, code) == resolve_in(self@.subrange(i as int, self@.len() as int), code),
            decreases self.entries@.len() - i,
        {
            let ghost rest = self@.subrange(i as int, self@.len() as int);
            assert(rest.drop_first() =~= self@.subrange(i + 1, self@.len() as int));
            if self.entries[i].0 == code {
                return Some(self.entries[i].1);
            }
            i = i + 1;
        }
        assert(self@.subrange(i as int, self@.len() as int).len() == 0);
        None
    }
}

/// A binding table with one key for each event: return (13) confirms, space
/// (32) fires, and the four arrow keys (1073741906, 1073741905, 1073741904,
/// 1073741903: up, down, left, right) give the axis directions.
pub fn create_input_binding() -> (r: InputBinding)
    ensures
        r@ == seq![
            (13u32, InputEvent::Confirm),
            (32u32, InputEvent::Fire),
            (1073741906u32, InputEvent::Up),
            (1073741905u32, InputEvent::Down),
            (1073741904u32, InputEvent::Left),
            (1073741903u32, InputEvent::Right),
        ],
{
    let mut b = InputBinding::new();
    b.bind(13, InputEvent::Confirm);
    b.bind(32, InputEvent::Fire);
    b.bind(1073741906, InputEvent::Up);
    b.bind(1073741905, InputEvent::Down);
    b.bind(1073741904, InputEvent::Left);
    b.bind(1073741903, InputEvent::Right);
    assert(b@ =~= seq![
        (13u32, InputEvent::Confirm),
        (32u32, InputEvent::Fire),
        (1073741906u32, InputEvent::Up),
        (1073741905u32, InputEvent::Down),
        (1073741904u32, InputEvent::Left),
        (1073741903u32, InputEvent::Right),
    ]);
    b
}

/// Adds `d` milliseconds to a held duration, stopping at the largest `u64`.
pub open spec fn add_ms(ms: u64, d: u64) -> u64 {
    if ms + d > u64::MAX {
        u64::MAX
    } else {
        (ms + d) as u64
    }
}

/// The tracker's table after one tick of `d` milliseconds: every held event
/// has its duration advanced, the others stay as they are.
pub open spec fn advance(s: Seq<(bool, u64)>, d: u64) -> Seq<(bool, u64)> {
    Seq::new(s.len(), |i: int| if s[i].0 { (true, add_ms(s[i].1, d)) } else { s[i] })
}

/// The table after `n` ticks of `d` milliseconds each.
pub open spec fn advance_n(s: Seq<(bool, u64)>, d: u64, n: nat) -> Seq<(bool, u64)>
    decreases n,
{
    if n == 0 {
        s
    } else {
        advance(advance_n(s, d, (n - 1) as nat), d)
    }
}

/// The table after a press (`pressed`) or release of the event at `i`. A
/// press of an event that is already held changes nothing; a fresh press
/// starts its duration at zero; a release clears it.
pub open spec fn record(s: Seq<(bool, u64)>, i: int, pressed: bool) -> Seq<(bool, u64)> {
    if pressed {
        if s[i].0 {
            s
        } else {
            s.update(i, (true, 0u64))
        }
    } else {
        s.update(i, (false, 0u64))
    }
}

/// Record of which events are held and for how long, in milliseconds of
/// simulated time.
pub struct InputEffectTracker {
    pub effects: Vec<(bool, u64)>,
}

impl View for InputEffectTracker {
    type V = Seq<(bool, u64)>;

    open spec fn view(&self) -> Seq<(bool, u64)> {
        self.effects@
    }
}

impl InputEffectTracker {
    pub open spec fn wf(&self) -> bool {
        self@.len() == NUM_EVENTS
    }

    /// Whether `e` is held, and for how long.
    pub open spec fn effect(&self, e: InputEvent) -> (bool, u64) {
        self@[event_index(e)]
    }

    /// A tracker with no event held.
    pub fn new() -> (r: InputEffectTracker)
        ensures
            r.wf(),
            forall|i: int| 0 <= i < NUM_EVENTS ==> r@[i] == (false, 0u64),
    {
        let mut effects: Vec<(bool, u64)> = Vec::new();
        let mut i: usize = 0;
        while i < NUM_EVENTS
            invariant
                i <= NUM_EVENTS,
                effects@.len() == i,
                forall|j: int| 0 <= j < i ==> effects@[j] == (false, 0u64),
            decreases NUM_EVENTS - i,
        {
            effects.push((false, 0));
            i = i + 1;
        }
        InputEffectTracker { effects }
    }

    /// Records a press or a release of `e`.
    pub fn update_effect(&mut self, e: InputEvent, pressed: bool)
        requires
            old(self).wf(),
        ensures
            final(self).wf(),
            final(self)@ == record(old(self)@, event_index(e), pressed),
    {
        let i = index_of(e);
        if pressed {
            if !self.effects[i].0 {
                self.effects.set(i, (true, 0));
            }
        } else {
            self.effects.set(i, (false, 0));
        }
    }

    /// Advances every held event by one tick of `delta_ms` milliseconds.
    pub fn update(&mut self, delta_ms: u64)
        requires
            old(self).wf(),
        ensures
            final(self).wf(),
            final(self)@ == advance(old(self)@, delta_ms),
    {
        let ghost s0 = self@;
        let mut i: usize = 0;
        while i < self.effects.len()
            invariant
                s0.len() == NUM_EVENTS,
                self@.len() == s0.len(),
                i <= s0.len(),
                forall|j: int| 0 <= j < i ==> self@[j] == advance(s0, delta_ms)[j],
                forall|j: int| i <= j < s0.len() ==> self@[j] == s0[j],
            decreases s0.len() - i,
        {
            let (held, ms) = self.effects[i];
            if held {
                self.effects.set(i, (true, ms.saturating_add(delta_ms)));
            }
            i = i + 1;
        }
        assert(self@ =~= advance(s0, delta_ms));
    }

    /// Whether `e` is held.
    pub fn is_held(&self, e: InputEvent) -> (r: bool)
        requires
            self.wf(),
        ensures
            r == self.effect(e).0,
    {
        self.effects[index_of(e)].0
    }

    /// How long `e` has been held, in milliseconds of simulated time.
    pub fn held_ms(&self, e: InputEvent) -> (r: u64)
        requires
            self.wf(),
        ensures
            r == self.effect(e).1,
    {
        self.effects[index_of(e)].1
    }
}

/// Held durations count ticks: once an event is freshly pressed, `n` ticks of
/// `d` milliseconds each leave it held for exactly `n * d` milliseconds,
/// whatever real time passed between them.
pub proof fn lemma_held_duration_counts_ticks(s: Seq<(bool, u64)>, i: int, d: u64, n: nat)
    requires
        0 <= i < s.len(),
        s[i] == (true, 0u64),
        n * d <= u64::MAX,
    ensures
        advance_n(s, d, n).len() == s.len(),
        advance_n(s, d, n)[i] == (true, (n * d) as u64),
    decreases n,
{
    if n == 0 {
        assert(n * d == 0) by (nonlinear_arith)
            requires n == 0;
    } else {
        let m = (n - 1) as nat;
        assert(m * d <= n * d) by (nonlinear_arith)
            requires m == n - 1, n * d <= u64::MAX;
        lemma_held_duration_counts_ticks(s, i, d, m);
        assert(m * d + d == n * d) by (nonlinear_arith)
            requires m == n - 1;
        let prev = advance_n(s, d, m);
        assert(advance_n(s, d, n) == advance(prev, d));
        assert(advance(prev, d)[i] == (true, add_ms(prev[i].1, d)));
    }
}

} // verus!
