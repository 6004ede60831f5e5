//! Key-repeat emulation: which keys repeat, and what each incoming event
//! starts, cancels, pauses or resumes.
//!
//! Holding every required modifier (ctrl and alt) while pressing another
//! key starts a repeat timer for that key. Pressing the key again with no
//! modifier held cancels its timer, the stop-all key cancels every timer,
//! and the caps-lock indicator pauses and resumes all of them. The state
//! machine only decides: it returns the timers to spawn and to cancel, and
//! the caller performs them.
use crate::codes::{EV_LED, KEY_GRAVE, LED_CAPSL};
use crate::event::InputEvent;
use crate::modifiers::ModifierState;
use std::collections::HashMap;
use vstd::prelude::*;
use vstd::std_specs::hash::spec_hash_map_iter;
use vstd::std_specs::iter::IteratorSpec;

verus! {

broadcast use vstd::std_specs::hash::group_hash_axioms;

/// The key that cancels every repeat when pressed with no modifier held.
pub const STOP_ALL_KEY: u16 = KEY_GRAVE;

/// What the caller has to do for one repeat entry.
#[derive(Clone, Copy, Debug, PartialEq, Eq, Structural)]
pub enum RepeatAction {
    /// Spawn a repeat timer for this triggering event.
    Start(InputEvent),
    /// Abort the timer that this event triggered and emit the compensating
    /// release for its key, once.
    Stop(InputEvent),
}

/// The rule that an event falls under, judged after the modifiers have
/// taken the event into account.
pub enum Rule {
    Start,
    Stop,
    StopAll,
    Pause,
    Resume,
    Ignore,
}

/// The caps-lock indicator changed: the signal that pauses and resumes.
pub open spec fn is_toggle(ev: InputEvent) -> bool {
    ev.kind == EV_LED && ev.code == LED_CAPSL
}

/// Every entry is filed under the code of its own event.
pub open spec fn keyed_by_code(entries: Map<u16, InputEvent>) -> bool {
    forall|code: u16| #[trigger] entries.contains_key(code) ==> entries[code].code == code
}

/// The mathematical state of the repeat machine.
pub struct StateView {
    pub modifiers: ModifierState,
    /// Entries whose timer runs, by key code, each with the event that
    /// triggered it.
    pub active: Map<u16, InputEvent>,
    /// Entries whose timer a pause cancelled, kept for the resume.
    pub paused: Map<u16, InputEvent>,
}

impl StateView {
    pub open spec fn initial() -> StateView {
        StateView {
            modifiers: ModifierState::released(),
            active: Map::empty(),
            paused: Map::empty(),
        }
    }

    /// Both sets are finite, and each entry is filed under the code of its
    /// own event.
    pub open spec fn wf(self) -> bool {
        &&& self.active.dom().finite()
        &&& self.paused.dom().finite()
        &&& keyed_by_code(self.active)
        &&& keyed_by_code(self.paused)
    }

    /// Ctrl and alt are both held.
    pub open spec fn all_modifiers_pressed(self) -> bool {
        self.modifiers.ctrl && self.modifiers.alt
    }

    /// Ctrl or alt is held.
    pub open spec fn any_modifier_pressed(self) -> bool {
        self.modifiers.ctrl || self.modifiers.alt
    }

    pub open spec fn is_active(self, code: u16) -> bool {
        self.active.contains_key(code)
    }

    /// The state once the modifiers have taken `ev` into account.
    pub open spec fn observe(self, ev: InputEvent) -> StateView {
        StateView { modifiers: self.modifiers.after(ev), ..self }
    }

    /// The rule for `ev` in a state whose modifiers already reflect it.
    pub open spec fn rule(self, ev: InputEvent) -> Rule {
        if self.all_modifiers_pressed() && ev.is_qualifying_press() && !self.is_active(ev.code) {
            Rule::Start
        } else if !self.any_modifier_pressed() && ev.is_qualifying_press() && self.is_active(
            ev.code,
        ) {
            Rule::Stop
        } else if !self.any_modifier_pressed() && ev.is_qualifying_press() && ev.code
            == STOP_ALL_KEY {
            Rule::StopAll
        } else if is_toggle(ev) {
            if self.modifiers.capslock {
                Rule::Pause
            } else {
                Rule::Resume
            }
        } else {
            Rule::Ignore
        }
    }

    /// Starts a repeat for the key of `ev`, unless one is active already.
    pub open spec fn start(self, ev: InputEvent) -> StateView {
        if self.is_active(ev.code) {
            self
        } else {
            StateView { active: self.active.insert(ev.code, ev), ..self }
        }
    }

    pub open spec fn stop(self, code: u16) -> StateView {
        StateView { active: self.active.remove(code), ..self }
    }

    pub open spec fn stop_all(self) -> StateView {
        StateView { active: Map::empty(), ..self }
    }

    /// Every active entry moves to the paused set, with its event.
    pub open spec fn pause_all(self) -> StateView {
        StateView {
            active: Map::empty(),
            paused: self.paused.union_prefer_right(self.active),
            ..self
        }
    }

    /// Every paused entry becomes active again, with its event; a key that
    /// was started in the meantime keeps its newer entry.
    pub open spec fn resume_all(self) -> StateView {
        StateView {
            active: self.paused.union_prefer_right(self.active),
            paused: Map::empty(),
            ..self
        }
    }

    /// The state after `ev`.
    pub open spec fn step(self, ev: InputEvent) -> StateView {
        let seen = self.observe(ev);
        match seen.rule(ev) {
            Rule::Start => seen.start(ev),
            Rule::Stop => seen.stop(ev.code),
            Rule::StopAll => seen.stop_all(),
            Rule::Pause => seen.pause_all(),
            Rule::Resume => seen.resume_all(),
            Rule::Ignore => seen,
        }
    }

    /// The entries for which `ev` spawns a timer.
    pub open spec fn started(self, ev: InputEvent) -> Map<u16, InputEvent> {
        match self.observe(ev).rule(ev) {
            Rule::Start => Map::<u16, InputEvent>::empty().insert(ev.code, ev),
            Rule::Resume => self.paused.remove_keys(self.active.dom()),
            _ => Map::empty(),
        }
    }

    /// The entries whose timer `ev` cancels.
    pub open spec fn cancelled(self, ev: InputEvent) -> Map<u16, InputEvent> {
        match self.observe(ev).rule(ev) {
            Rule::Stop => Map::<u16, InputEvent>::empty().insert(ev.code, self.active[ev.code]),
            Rule::StopAll => self.active,
            Rule::Pause => self.active,
            _ => Map::empty(),
        }
    }

    /// The state after a sequence of events, first to last.
    pub open spec fn run(self, events: Seq<InputEvent>) -> StateView
        decreases events.len(),
    {
        if events.len() == 0 {
            self
        } else {
            self.run(events.drop_last()).step(events.last())
        }
    }
}

/// `list` names each entry of `entries` once and nothing else.
pub open spec fn lists(list: Seq<InputEvent>, entries: Map<u16, InputEvent>) -> bool {
    &&& list.no_duplicates()
    &&& list.len() == entries.dom().len()
    &&& forall|ev: InputEvent| #[trigger]
        list.contains(ev) <==> entries.contains_key(ev.code) && entries[ev.code] == ev
}

/// `actions` holds one `Start` for each entry of `started`, one `Stop` for
/// each entry of `cancelled`, and nothing else.
pub open spec fn performs(
    actions: Seq<RepeatAction>,
    started: Map<u16, InputEvent>,
    cancelled: Map<u16, InputEvent>,
) -> bool {
    &&& actions.no_duplicates()
    &&& actions.len() == started.dom().len() + cancelled.dom().len()
    &&& forall|ev: InputEvent| #[trigger]
        actions.contains(RepeatAction::Start(ev)) <==> started.contains_key(ev.code)
            && started[ev.code] == ev
    &&& forall|ev: InputEvent| #[trigger]
        actions.contains(RepeatAction::Stop(ev)) <==> cancelled.contains_key(ev.code)
            && cancelled[ev.code] == ev
}

/// The entries of a map, each once, in the order the map yields them.
fn entries_of(entries: &HashMap<u16, InputEvent>) -> (list: Vec<InputEvent>)
    requires
        keyed_by_code(entries@),
    ensures
        lists(list@, entries@),
{
    let mut list: Vec<InputEvent> = Vec::new();
    for (code, ev) in it: entries.iter()
        invariant
            it.seq() == spec_hash_map_iter(entries).remaining(),
            it.seq().no_duplicates(),
            list@.len() == it.index(),
            forall|i: int| 0 <= i < it.index() ==> #[trigger] list@[i] == *it.seq()[i].1,
    {
        list.push(*ev);
    }
    proof {
        let pairs = spec_hash_map_iter(entries).remaining();
        assert forall|i: int| 0 <= i < list@.len() implies entries@.contains_key(
            #[trigger] list@[i].code,
        ) && entries@[list@[i].code] == list@[i] by {
            assert(entries@.contains_key(*pairs[i].0));
        }
        assert forall|i: int, j: int|
            0 <= i < list@.len() && 0 <= j < list@.len() && i != j implies list@[i]
            != list@[j] by {
            assert(entries@.contains_key(*pairs[i].0));
            assert(entries@.contains_key(*pairs[j].0));
            assert(pairs[i] != pairs[j]);
        }
        assert forall|ev: InputEvent|
            entries@.contains_key(ev.code) && entries@[ev.code] == ev implies list@.contains(
            ev,
        ) by {
            let pair = (&ev.code, &entries@[ev.code]);
            assert(pairs.contains(pair));
            let i = choose|i: int| 0 <= i < pairs.len() && pairs[i] == pair;
            assert(list@[i] == ev);
        }
    }
    list
}

/// A list without repetition that names exactly the entries of a map is
/// as long as the map is large.
proof fn lemma_listing_len(list: Seq<InputEvent>, entries: Map<u16, InputEvent>)
    requires
        keyed_by_code(entries),
        list.no_duplicates(),
        forall|ev: InputEvent| #[trigger]
            list.contains(ev) <==> entries.contains_key(ev.code) && entries[ev.code] == ev,
    ensures
        entries.dom().finite(),
        list.len() == entries.dom().len(),
{
    let codes = list.map_values(|ev: InputEvent| ev.code);
    assert forall|i: int, j: int|
        0 <= i < codes.len() && 0 <= j < codes.len() && i != j implies codes[i] != codes[j] by {
        assert(list.contains(list[i]));
        assert(list.contains(list[j]));
    }
    assert forall|code: u16|
        codes.to_set().contains(code) <==> entries.dom().contains(code) by {
        if codes.to_set().contains(code) {
            let i = choose|i: int| 0 <= i < codes.len() && codes[i] == code;
            assert(list.contains(list[i]));
        }
        if entries.dom().contains(code) {
            let ev = entries[code];
            assert(list.contains(ev));
            let i = choose|i: int| 0 <= i < list.len() && list[i] == ev;
            assert(codes[i] == code);
        }
    }
    assert(codes.to_set() =~= entries.dom());
    codes.unique_seq_to_set();
}

/// Moves every entry of `active` to `paused` and returns the entries
/// moved.
fn pause_entries(
    active: &mut HashMap<u16, InputEvent>,
    paused: &mut HashMap<u16, InputEvent>,
) -> (moved: Vec<InputEvent>)
    requires
        keyed_by_code(old(active)@),
    ensures
        final(active)@ == Map::<u16, InputEvent>::empty(),
        final(paused)@ == old(paused)@.union_prefer_right(old(active)@),
        lists(moved@, old(active)@),
{
    let moved = entries_of(active);
    let ghost before = paused@;
    for i in 0..moved.len()
        invariant
            lists(moved@, active@),
            keyed_by_code(active@),
            forall|j: int|
                0 <= j < i ==> paused@.contains_key(#[trigger] moved@[j].code)
                    && paused@[moved@[j].code] == moved@[j],
            forall|code: u16|
                paused@.contains_key(code) ==> before.contains_key(code) || active@.contains_key(
                    code,
                ),
            forall|code: u16| before.contains_key(code) ==> paused@.contains_key(code),
            forall|code: u16|
                paused@.contains_key(code) && !active@.contains_key(code) ==> paused@[code]
                    == before[code],
    {
        let ev = moved[i];
        assert(moved@.contains(ev));
        paused.insert(ev.code, ev);
        assert forall|j: int| 0 <= j < i + 1 implies paused@.contains_key(
            #[trigger] moved@[j].code,
        ) && paused@[moved@[j].code] == moved@[j] by {
            assert(moved@.contains(moved@[j]));
        }
    }
    proof {
        assert forall|code: u16| active@.contains_key(code) implies paused@.contains_key(code)
            && paused@[code] == active@[code] by {
            let ev = active@[code];
            assert(moved@.contains(ev));
            let j = choose|j: int| 0 <= j < moved@.len() && moved@[j] == ev;
            assert(paused@.contains_key(moved@[j].code));
        }
        assert(paused@ =~= before.union_prefer_right(active@));
    }
    active.clear();
    moved
}

/// Makes every entry of `paused` active again, unless its key is active
/// already, and empties `paused`. Returns the entries that became active.
fn resume_entries(
    active: &mut HashMap<u16, InputEvent>,
    paused: &mut HashMap<u16, InputEvent>,
) -> (resumed: Vec<InputEvent>)
    requires
        keyed_by_code(old(paused)@),
    ensures
        final(paused)@ == Map::<u16, InputEvent>::empty(),
        final(active)@ == old(paused)@.union_prefer_right(old(active)@),
        lists(resumed@, old(paused)@.remove_keys(old(active)@.dom())),
{
    let waiting = entries_of(paused);
    let ghost before = active@;
    let mut resumed: Vec<InputEvent> = Vec::new();
    for i in 0..waiting.len()
        invariant
            lists(waiting@, paused@),
            keyed_by_code(paused@),
            resumed@.no_duplicates(),
            forall|ev: InputEvent|
                resumed@.contains(ev) <==> !before.contains_key(ev.code) && exists|j: int|
                    0 <= j < i && waiting@[j] == ev,
            forall|j: int| 0 <= j < i ==> active@.contains_key(#[trigger] waiting@[j].code),
            forall|code: u16| #[trigger]
                active@.contains_key(code) ==> before.contains_key(code) || exists|j: int|
                    0 <= j < i && #[trigger] waiting@[j].code == code,
            forall|code: u16| #[trigger]
                before.contains_key(code) ==> active@.contains_key(code) && active@[code]
                    == before[code],
            forall|code: u16| #[trigger]
                active@.contains_key(code) && !before.contains_key(code) ==> active@[code]
                    == paused@[code],
    {
        let ev = waiting[i];
        assert(waiting@.contains(ev));
        let ghost so_far = resumed@;
        proof {
            if active@.contains_key(ev.code) && !before.contains_key(ev.code) {
                let j = choose|j: int| 0 <= j < i && #[trigger] waiting@[j].code == ev.code;
                assert(waiting@.contains(waiting@[j]));
                assert(waiting@[j] == waiting@[i as int]);
            }
        }
        if !active.contains_key(&ev.code) {
            active.insert(ev.code, ev);
            resumed.push(ev);
            proof {
                assert(!so_far.contains(ev)) by {
                    if so_far.contains(ev) {
                        let j = choose|j: int| 0 <= j < i && waiting@[j] == ev;
                        assert(waiting@[j] == waiting@[i as int]);
                    }
                }
                assert forall|a: int, b: int|
                    0 <= a < resumed@.len() && 0 <= b < resumed@.len() && a != b implies resumed@[a]
                    != resumed@[b] by {
                    if a < so_far.len() {
                        assert(so_far.contains(so_far[a]));
                    }
                    if b < so_far.len() {
                        assert(so_far.contains(so_far[b]));
                    }
                }
            }
        }
        proof {
            assert forall|e: InputEvent|
                resumed@.contains(e) <==> !before.contains_key(e.code) && exists|j: int|
                    0 <= j < i + 1 && waiting@[j] == e by {
                if resumed@.contains(e) {
                    let a = choose|a: int| 0 <= a < resumed@.len() && resumed@[a] == e;
                    if a < so_far.len() {
                        assert(so_far.contains(e));
                        let j = choose|j: int| 0 <= j < i && waiting@[j] == e;
                        assert(0 <= j < i + 1 && waiting@[j] == e);
                    } else {
                        assert(waiting@[i as int] == e);
                    }
                }
                if !before.contains_key(e.code) && exists|j: int|
                    0 <= j < i + 1 && waiting@[j] == e {
                    let j = choose|j: int| 0 <= j < i + 1 && waiting@[j] == e;
                    if j < i {
                        assert(so_far.contains(e));
                        let a = choose|a: int| 0 <= a < so_far.len() && so_far[a] == e;
                        assert(resumed@[a] == e);
                    } else {
                        assert(resumed@[resumed@.len() - 1] == e);
                    }
                }
            }
            assert forall|code: u16| active@.contains_key(code) implies before.contains_key(code)
                || exists|j: int| 0 <= j < i + 1 && #[trigger] waiting@[j].code == code by {
                if !before.contains_key(code) && code == ev.code {
                    assert(waiting@[i as int].code == code);
                }
            }
        }
    }
    proof {
        let fresh = paused@.remove_keys(before.dom());
        assert forall|code: u16| paused@.contains_key(code) implies active@.contains_key(
            code,
        ) by {
            let ev = paused@[code];
            assert(waiting@.contains(ev));
            let j = choose|j: int| 0 <= j < waiting@.len() && waiting@[j] == ev;
            assert(active@.contains_key(waiting@[j].code));
        }
        assert forall|code: u16| active@.contains_key(code) implies before.contains_key(code)
            || paused@.contains_key(code) by {
            if !before.contains_key(code) {
                let j = choose|j: int|
                    0 <= j < waiting@.len() && #[trigger] waiting@[j].code == code;
                assert(waiting@.contains(waiting@[j]));
            }
        }
        assert(active@ =~= paused@.union_prefer_right(before));
        assert forall|ev: InputEvent|
            resumed@.contains(ev) <==> fresh.contains_key(ev.code) && fresh[ev.code] == ev by {
            if resumed@.contains(ev) {
                let j = choose|j: int| 0 <= j < waiting@.len() && waiting@[j] == ev;
                assert(waiting@.contains(waiting@[j]));
            }
            if fresh.contains_key(ev.code) && fresh[ev.code] == ev {
                assert(waiting@.contains(ev));
            }
        }
        assert(keyed_by_code(fresh));
        lemma_listing_len(resumed@, fresh);
    }
    paused.clear();
    resumed
}

/// One action of the given sort for each entry listed.
fn actions_for(list: Vec<InputEvent>, start: bool) -> (actions: Vec<RepeatAction>)
    ensures
        actions@.len() == list@.len(),
        forall|i: int|
            0 <= i < list@.len() ==> #[trigger] actions@[i] == if start {
                RepeatAction::Start(list@[i])
            } else {
                RepeatAction::Stop(list@[i])
            },
{
    let mut actions: Vec<RepeatAction> = Vec::new();
    for i in 0..list.len()
        invariant
            actions@.len() == i,
            forall|j: int|
                0 <= j < i ==> #[trigger] actions@[j] == if start {
                    RepeatAction::Start(list@[j])
                } else {
                    RepeatAction::Stop(list@[j])
                },
    {
        let action = if start {
            RepeatAction::Start(list[i])
        } else {
            RepeatAction::Stop(list[i])
        };
        actions.push(action);
    }
    actions
}

/// The repeat machine: the modifiers, the entries whose timers run, and
/// the entries that a pause holds back.
#[derive(Debug)]
pub struct State {
    modifiers: ModifierState,
    repeat_events: HashMap<u16, InputEvent>,
    paused_events: HashMap<u16, InputEvent>,
}

impl View for State {
    type V = StateView;

    closed spec fn view(&self) -> StateView {
        StateView {
            modifiers: self.modifiers,
            active: self.repeat_events@,
            paused: self.paused_events@,
        }
    }
}

impl State {
    #[verifier::type_invariant]
    spec fn filed_by_code(&self) -> bool {
        keyed_by_code(self.repeat_events@) && keyed_by_code(self.paused_events@)
    }

    pub fn new() -> (state: State)
        ensures
            state@ == StateView::initial(),
            state@.wf(),
    {
        State {
            modifiers: ModifierState::new(),
            repeat_events: HashMap::new(),
            paused_events: HashMap::new(),
        }
    }

    /// Takes one event: brings the modifiers up to date, applies the rule
    /// that the event falls under, and returns what the caller has to
    /// perform, each action once, in no particular order.
    pub fn process_input(&mut self, ev: InputEvent) -> (actions: Vec<RepeatAction>)
        ensures
            final(self)@ == old(self)@.step(ev),
            final(self)@.wf(),
            performs(actions@, old(self)@.started(ev), old(self)@.cancelled(ev)),
    {
        proof {
            use_type_invariant(&*self);
        }
        self.update_state(&ev);
        if self.all_modifiers_pressed() && self.is_not_modifier(ev) && !self.is_active_repeat_event(
            ev,
        ) {
            self.start_repeat_event(ev);
            let mut actions: Vec<RepeatAction> = Vec::new();
            actions.push(RepeatAction::Start(ev));
            proof {
                lemma_performs_one(actions@, ev, true);
            }
            actions
        } else if !self.any_modifier_pressed() && self.is_not_modifier(ev)
            && self.is_active_repeat_event(ev) {
            let stopped = self.stop_repeat_event(ev.code);
            let mut actions: Vec<RepeatAction> = Vec::new();
            actions.push(RepeatAction::Stop(stopped.unwrap()));
            proof {
                lemma_performs_one(actions@, stopped.unwrap(), false);
            }
            actions
        } else if !self.any_modifier_pressed() && self.is_not_modifier(ev) && self.is_stop_all_key(
            ev,
        ) {
            let cancelled = self.stop_all_repeat_events();
            let actions = actions_for(cancelled, false);
            proof {
                lemma_performs_all(actions@, cancelled@, old(self)@.active, false);
            }
            actions
        } else if self.is_toggle_pause(ev) {
            if self.is_toggle_pressed() {
                let cancelled = self.pause_all_repeat_events();
                let actions = actions_for(cancelled, false);
                proof {
                    lemma_performs_all(actions@, cancelled@, old(self)@.active, false);
                }
                actions
            } else {
                let resumed = self.resume_all_repeat_events();
                let actions = actions_for(resumed, true);
                proof {
                    lemma_performs_all(
                        actions@,
                        resumed@,
                        old(self)@.paused.remove_keys(old(self)@.active.dom()),
                        true,
                    );
                }
                actions
            }
        } else {
            Vec::new()
        }
    }

    /// Brings the modifiers up to date with `ev`.
    pub fn update_state(&mut self, ev: &InputEvent)
        ensures
            final(self)@ == old(self)@.observe(*ev),
    {
        proof {
            use_type_invariant(&*self);
        }
        let mut modifiers = self.modifiers;
        modifiers.update_state(ev);
        self.modifiers = modifiers;
    }

    /// Whether every required modifier, ctrl and alt, is held.
    pub fn all_modifiers_pressed(&self) -> (all: bool)
        ensures
            all == self@.all_modifiers_pressed(),
    {
        self.modifiers.ctrl && self.modifiers.alt
    }

    /// Whether a required modifier, ctrl or alt, is held.
    pub fn any_modifier_pressed(&self) -> (any: bool)
        ensures
            any == self@.any_modifier_pressed(),
    {
        self.modifiers.ctrl || self.modifiers.alt
    }

    /// Whether `ev` is a press of a key that is not a tracked modifier: the
    /// only events that start or cancel a repeat.
    pub fn is_not_modifier(&self, ev: InputEvent) -> (repeatable: bool)
        ensures
            repeatable == ev.is_qualifying_press(),
    {
        ev.is_not_modifier()
    }

    /// Whether a repeat timer runs for the key of `ev`.
    pub fn is_active_repeat_event(&self, ev: InputEvent) -> (active: bool)
        ensures
            active == self@.is_active(ev.code),
    {
        self.repeat_events.contains_key(&ev.code)
    }

    /// Whether `ev` carries the code of the stop-all key.
    pub fn is_stop_all_key(&self, ev: InputEvent) -> (stop_all: bool)
        ensures
            stop_all == (ev.code == STOP_ALL_KEY),
    {
        ev.code == STOP_ALL_KEY
    }

    /// Whether `ev` is the signal that pauses and resumes: a change of the
    /// caps-lock indicator, not of the key.
    pub fn is_toggle_pause(&self, ev: InputEvent) -> (toggle: bool)
        ensures
            toggle == is_toggle(ev),
    {
        ev.kind == EV_LED && ev.code == LED_CAPSL
    }

    /// Whether caps lock is lit.
    pub fn is_toggle_pressed(&self) -> (lit: bool)
        ensures
            lit == self@.modifiers.capslock,
    {
        self.modifiers.capslock
    }

    /// The modifiers as the events so far left them.
    pub fn modifiers(&self) -> (modifiers: ModifierState)
        ensures
            modifiers == self@.modifiers,
    {
        self.modifiers
    }

    /// The event that triggered the running repeat of `key`, if one runs.
    pub fn active_event(&self, key: u16) -> (entry: Option<InputEvent>)
        ensures
            entry == if self@.active.contains_key(key) {
                Some(self@.active[key])
            } else {
                None
            },
    {
        match self.repeat_events.get(&key) {
            Some(ev) => Some(*ev),
            None => None,
        }
    }

    /// The event that triggered the paused repeat of `key`, if one waits.
    pub fn paused_event(&self, key: u16) -> (entry: Option<InputEvent>)
        ensures
            entry == if self@.paused.contains_key(key) {
                Some(self@.paused[key])
            } else {
                None
            },
    {
        match self.paused_events.get(&key) {
            Some(ev) => Some(*ev),
            None => None,
        }
    }

    /// How many repeats run.
    pub fn active_count(&self) -> (count: usize)
        ensures
            count == self@.active.dom().len(),
    {
        self.repeat_events.len()
    }

    /// How many repeats wait paused.
    pub fn paused_count(&self) -> (count: usize)
        ensures
            count == self@.paused.dom().len(),
    {
        self.paused_events.len()
    }

    /// Cancels the repeat of one key. Returns the entry whose timer is to be
    /// cancelled, if the key was repeating.
    pub fn stop_repeat_event(&mut self, key: u16) -> (cancelled: Option<InputEvent>)
        ensures
            final(self)@ == old(self)@.stop(key),
            final(self)@.wf(),
            cancelled == if old(self)@.is_active(key) {
                Some(old(self)@.active[key])
            } else {
                None
            },
    {
        proof {
            use_type_invariant(&*self);
        }
        let mut active = HashMap::new();
        std::mem::swap(&mut active, &mut self.repeat_events);
        let cancelled = active.remove(&key);
        self.repeat_events = active;
        cancelled
    }

    /// Starts a repeat for the key of `ie` unless one is active. Returns
    /// whether a timer is to be spawned for `ie`.
    pub fn start_repeat_event(&mut self, ie: InputEvent) -> (spawn: bool)
        ensures
            final(self)@ == old(self)@.start(ie),
            final(self)@.wf(),
            spawn == !old(self)@.is_active(ie.code),
    {
        proof {
            use_type_invariant(&*self);
        }
        let mut active = HashMap::new();
        std::mem::swap(&mut active, &mut self.repeat_events);
        let spawn = !active.contains_key(&ie.code);
        if spawn {
            active.insert(ie.code, ie);
        }
        self.repeat_events = active;
        spawn
    }

    /// Cancels every repeat. Returns the entries whose timers are to be
    /// cancelled, each once.
    pub fn stop_all_repeat_events(&mut self) -> (cancelled: Vec<InputEvent>)
        ensures
            final(self)@ == old(self)@.stop_all(),
            final(self)@.wf(),
            lists(cancelled@, old(self)@.active),
    {
        proof {
            use_type_invariant(&*self);
        }
        let cancelled = entries_of(&self.repeat_events);
        self.repeat_events = HashMap::new();
        cancelled
    }

    /// Pauses every repeat: the entries leave the active set and wait in
    /// the paused set. Returns the entries whose timers are to be
    /// cancelled, each once.
    pub fn pause_all_repeat_events(&mut self) -> (cancelled: Vec<InputEvent>)
        ensures
            final(self)@ == old(self)@.pause_all(),
            final(self)@.wf(),
            lists(cancelled@, old(self)@.active),
    {
        proof {
            use_type_invariant(&*self);
        }
        let mut active = HashMap::new();
        let mut paused = HashMap::new();
        std::mem::swap(&mut active, &mut self.repeat_events);
        std::mem::swap(&mut paused, &mut self.paused_events);
        let cancelled = pause_entries(&mut active, &mut paused);
        self.repeat_events = active;
        self.paused_events = paused;
        cancelled
    }

    /// Resumes every paused repeat. Returns the entries for which a timer
    /// is to be spawned, each once: the paused entries whose key is not
    /// repeating already.
    pub fn resume_all_repeat_events(&mut self) -> (resumed: Vec<InputEvent>)
        ensures
            final(self)@ == old(self)@.resume_all(),
            final(self)@.wf(),
            lists(resumed@, old(self)@.paused.remove_keys(old(self)@.active.dom())),
    {
        proof {
            use_type_invariant(&*self);
        }
        let mut active = HashMap::new();
        let mut paused = HashMap::new();
        std::mem::swap(&mut active, &mut self.repeat_events);
        std::mem::swap(&mut paused, &mut self.paused_events);
        let resumed = resume_entries(&mut active, &mut paused);
        self.repeat_events = active;
        self.paused_events = paused;
        resumed
    }
}

/// A single action performs a single entry.
proof fn lemma_performs_one(actions: Seq<RepeatAction>, ev: InputEvent, start: bool)
    requires
        actions == if start {
            seq![RepeatAction::Start(ev)]
        } else {
            seq![RepeatAction::Stop(ev)]
        },
    ensures
        start ==> performs(
            actions,
            Map::<u16, InputEvent>::empty().insert(ev.code, ev),
            Map::empty(),
        ),
        !start ==> performs(
            actions,
            Map::empty(),
            Map::<u16, InputEvent>::empty().insert(ev.code, ev),
        ),
{
    let one = Map::<u16, InputEvent>::empty().insert(ev.code, ev);
    assert(one.dom() =~= set![ev.code]);
    assert(Map::<u16, InputEvent>::empty().dom() =~= Set::<u16>::empty());
    if start {
        assert(actions[0] == RepeatAction::Start(ev));
    } else {
        assert(actions[0] == RepeatAction::Stop(ev));
    }
}

/// Actions made one for one from a listing of entries perform those
/// entries.
proof fn lemma_performs_all(
    actions: Seq<RepeatAction>,
    list: Seq<InputEvent>,
    entries: Map<u16, InputEvent>,
    start: bool,
)
    requires
        lists(list, entries),
        actions.len() == list.len(),
        forall|i: int|
            0 <= i < list.len() ==> #[trigger] actions[i] == if start {
                RepeatAction::Start(list[i])
            } else {
                RepeatAction::Stop(list[i])
            },
    ensures
        start ==> performs(actions, entries, Map::empty()),
        !start ==> performs(actions, Map::empty(), entries),
{
    assert(Map::<u16, InputEvent>::empty().dom() =~= Set::<u16>::empty());
    assert forall|i: int, j: int|
        0 <= i < actions.len() && 0 <= j < actions.len() && i != j implies actions[i]
        != actions[j] by {
        assert(list[i] != list[j]);
    }
    let nothing = Map::<u16, InputEvent>::empty();
    assert forall|ev: InputEvent| #[trigger]
        actions.contains(RepeatAction::Start(ev)) <==> start && entries.contains_key(ev.code)
            && entries[ev.code] == ev by {
        if actions.contains(RepeatAction::Start(ev)) {
            let i = choose|i: int| 0 <= i < actions.len() && actions[i] == RepeatAction::Start(ev);
            assert(list.contains(list[i]));
        }
        if start && entries.contains_key(ev.code) && entries[ev.code] == ev {
            assert(list.contains(ev));
            let i = choose|i: int| 0 <= i < list.len() && list[i] == ev;
            assert(actions[i] == RepeatAction::Start(ev));
        }
    }
    assert forall|ev: InputEvent| #[trigger]
        actions.contains(RepeatAction::Stop(ev)) <==> !start && entries.contains_key(ev.code)
            && entries[ev.code] == ev by {
        if actions.contains(RepeatAction::Stop(ev)) {
            let i = choose|i: int| 0 <= i < actions.len() && actions[i] == RepeatAction::Stop(ev);
            assert(list.contains(list[i]));
        }
        if !start && entries.contains_key(ev.code) && entries[ev.code] == ev {
            assert(list.contains(ev));
            let i = choose|i: int| 0 <= i < list.len() && list[i] == ev;
            assert(actions[i] == RepeatAction::Stop(ev));
        }
    }
    if start {
        assert(performs(actions, entries, nothing));
    } else {
        assert(performs(actions, nothing, entries));
    }
}

} // verus!
