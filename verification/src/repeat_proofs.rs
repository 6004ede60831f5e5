//! What holds of the repeat machine, proved over its mathematical state.
use crate::auto_repeat::{
    is_toggle, keyed_by_code, performs, RepeatAction, Rule, StateView, STOP_ALL_KEY,
};
use crate::codes::{EV_KEY, EV_LED};
use crate::event::InputEvent;
use vstd::prelude::*;

verus! {

impl StateView {
    /// The codes of all entries, running or paused.
    pub open spec fn entry_codes(self) -> Set<u16> {
        self.active.dom().union(self.paused.dom())
    }

    /// All entries, running or paused; where a key is in both sets, the
    /// running entry.
    pub open spec fn entries(self) -> Map<u16, InputEvent> {
        self.paused.union_prefer_right(self.active)
    }

    /// Entries wait in the paused set only while caps lock is lit.
    pub open spec fn settled(self) -> bool {
        !self.modifiers.capslock ==> self.paused == Map::<u16, InputEvent>::empty()
    }

    /// After none of the events of the run is every required modifier
    /// held.
    pub open spec fn lacks_combination(self, events: Seq<InputEvent>) -> bool {
        forall|n: int|
            0 < n <= events.len() ==> !(#[trigger] self.run(events.take(n))).all_modifiers_pressed()
    }
}

/// How many of the actions cancel the timer of the key `code`.
pub open spec fn stop_count(actions: Seq<RepeatAction>, code: u16) -> nat
    decreases actions.len(),
{
    if actions.len() == 0 {
        0
    } else {
        let earlier = stop_count(actions.drop_last(), code);
        match actions.last() {
            RepeatAction::Stop(ev) => if ev.code == code {
                earlier + 1
            } else {
                earlier
            },
            RepeatAction::Start(_) => earlier,
        }
    }
}

/// A step keeps the state well formed.
pub proof fn lemma_step_wf(s: StateView, ev: InputEvent)
    requires
        s.wf(),
    ensures
        s.step(ev).wf(),
        s.step(ev).modifiers == s.modifiers.after(ev),
{
    let seen = s.observe(ev);
    match seen.rule(ev) {
        Rule::Pause => {
            assert(seen.pause_all().paused.dom() =~= s.paused.dom().union(s.active.dom()));
            vstd::set_lib::lemma_set_union_finite_iff(s.paused.dom(), s.active.dom());
        },
        Rule::Resume => {
            assert(seen.resume_all().active.dom() =~= s.paused.dom().union(s.active.dom()));
            vstd::set_lib::lemma_set_union_finite_iff(s.paused.dom(), s.active.dom());
        },
        _ => {},
    }
}

/// A run keeps the state well formed.
pub proof fn lemma_run_wf(s: StateView, events: Seq<InputEvent>)
    requires
        s.wf(),
    ensures
        s.run(events).wf(),
    decreases events.len(),
{
    if events.len() > 0 {
        lemma_run_wf(s, events.drop_last());
        lemma_step_wf(s.run(events.drop_last()), events.last());
    }
}

/// The modifiers of a run are those that the events alone give: no rule
/// touches them, and they reflect every event up to the last.
pub proof fn lemma_run_modifiers(s: StateView, events: Seq<InputEvent>)
    ensures
        s.run(events).modifiers == s.modifiers.after_all(events),
    decreases events.len(),
{
    if events.len() > 0 {
        lemma_run_modifiers(s, events.drop_last());
    }
}

/// Entries wait in the paused set only while caps lock is lit: a step
/// keeps it so, and so does a run.
pub proof fn lemma_run_settled(s: StateView, events: Seq<InputEvent>)
    requires
        s.settled(),
    ensures
        s.run(events).settled(),
    decreases events.len(),
{
    if events.len() > 0 {
        lemma_run_settled(s, events.drop_last());
        let before = s.run(events.drop_last());
        let ev = events.last();
        assert(before.step(ev).settled());
    }
}

/// Unless every required modifier is held once the event is taken into
/// account, a step creates no entry: the only timers it spawns are those
/// of paused entries, with the events they were paused with, and no key
/// code appears that had no entry before.
pub proof fn lemma_step_creates_nothing(s: StateView, ev: InputEvent)
    requires
        !s.observe(ev).all_modifiers_pressed(),
    ensures
        s.started(ev).submap_of(s.paused),
        s.step(ev).entry_codes().subset_of(s.entry_codes()),
{
}

/// Over a run that never holds every required modifier, no entry is
/// created: no key code appears that had no entry at the start, every
/// timer spawned on the way is the resumption of a paused entry, and from
/// a state without entries nothing is ever spawned and none ever exists.
pub proof fn lemma_run_creates_nothing(s: StateView, events: Seq<InputEvent>)
    requires
        s.lacks_combination(events),
    ensures
        s.run(events).entry_codes().subset_of(s.entry_codes()),
        forall|n: int|
            0 <= n < events.len() ==> (#[trigger] s.run(events.take(n))).started(
                events[n],
            ).submap_of(s.run(events.take(n)).paused),
        s.entry_codes() == Set::<u16>::empty() ==> {
            &&& s.run(events).active == Map::<u16, InputEvent>::empty()
            &&& s.run(events).paused == Map::<u16, InputEvent>::empty()
            &&& forall|n: int|
                0 <= n < events.len() ==> (#[trigger] s.run(events.take(n))).started(events[n])
                    == Map::<u16, InputEvent>::empty()
        },
    decreases events.len(),
{
    if events.len() > 0 {
        let head = events.drop_last();
        let ev = events.last();
        assert forall|n: int| 0 < n <= head.len() implies !(#[trigger] s.run(
            head.take(n),
        )).all_modifiers_pressed() by {
            assert(head.take(n) == events.take(n));
        }
        lemma_run_creates_nothing(s, head);
        let before = s.run(head);
        assert(events.take(events.len() as int) == events);
        assert(!s.run(events.take(events.len() as int)).all_modifiers_pressed());
        assert(before.step(ev).modifiers == before.observe(ev).modifiers);
        lemma_step_creates_nothing(before, ev);
        assert forall|n: int| 0 <= n < events.len() implies (#[trigger] s.run(
            events.take(n),
        )).started(events[n]).submap_of(s.run(events.take(n)).paused) by {
            if n < head.len() {
                assert(head.take(n) == events.take(n));
            } else {
                assert(events.take(n) == head);
            }
        }
        if s.entry_codes() == Set::<u16>::empty() {
            assert(before.active == Map::<u16, InputEvent>::empty());
            assert(s.run(events).active.dom() =~= Set::<u16>::empty());
            assert(s.run(events).paused.dom() =~= Set::<u16>::empty());
            assert(s.run(events).active =~= Map::<u16, InputEvent>::empty());
            assert(s.run(events).paused =~= Map::<u16, InputEvent>::empty());
            assert forall|n: int| 0 <= n < events.len() implies (#[trigger] s.run(
                events.take(n),
            )).started(events[n]) == Map::<u16, InputEvent>::empty() by {
                if n < head.len() {
                    assert(head.take(n) == events.take(n));
                } else {
                    assert(events.take(n) == head);
                    assert(before.started(ev) =~= Map::<u16, InputEvent>::empty());
                }
            }
        }
    } else {
        if s.entry_codes() == Set::<u16>::empty() {
            assert(s.active.dom() =~= Set::<u16>::empty());
            assert(s.paused.dom() =~= Set::<u16>::empty());
            assert(s.active =~= Map::<u16, InputEvent>::empty());
            assert(s.paused =~= Map::<u16, InputEvent>::empty());
        }
    }
}

/// Events that are neither key nor indicator events change nothing and
/// ask for nothing, so they may be filtered out before they reach the
/// machine.
pub proof fn lemma_other_kinds_ignored(s: StateView, ev: InputEvent)
    requires
        ev.kind != EV_KEY,
        ev.kind != EV_LED,
    ensures
        s.step(ev) == s,
        s.started(ev) == Map::<u16, InputEvent>::empty(),
        s.cancelled(ev) == Map::<u16, InputEvent>::empty(),
{
}

/// Starting a repeat for a key that is repeating changes nothing, and
/// after a start the key has its one entry.
pub proof fn lemma_start_idempotent(s: StateView, first: InputEvent, again: InputEvent)
    requires
        first.code == again.code,
    ensures
        s.start(first).is_active(first.code),
        s.start(first).start(again) == s.start(first),
        s.is_active(first.code) ==> s.start(first) == s,
{
}

/// A press of a repeating key with every required modifier held starts
/// nothing and leaves every entry as it is.
pub proof fn lemma_press_while_repeating(s: StateView, ev: InputEvent)
    requires
        s.observe(ev).all_modifiers_pressed(),
        ev.is_qualifying_press(),
        s.is_active(ev.code),
    ensures
        s.step(ev).active == s.active,
        s.step(ev).paused == s.paused,
        s.started(ev) == Map::<u16, InputEvent>::empty(),
        s.cancelled(ev) == Map::<u16, InputEvent>::empty(),
{
}

/// The entries that a step takes out of the active set are exactly the
/// entries it cancels, and the entries it puts in are exactly those it
/// starts.
pub proof fn lemma_step_accounts(s: StateView, ev: InputEvent)
    requires
        s.wf(),
    ensures
        s.cancelled(ev).submap_of(s.active),
        s.step(ev).active == s.active.remove_keys(s.cancelled(ev).dom()).union_prefer_right(
            s.started(ev),
        ),
        s.started(ev).dom().disjoint(s.active.dom()),
        keyed_by_code(s.started(ev)),
        keyed_by_code(s.cancelled(ev)),
{
    let next = s.active.remove_keys(s.cancelled(ev).dom()).union_prefer_right(s.started(ev));
    assert(s.step(ev).active =~= next);
}

/// Among actions that perform a step's entries, each cancelled entry has
/// exactly one `Stop`, and no other key has any.
pub proof fn lemma_cancelled_exactly_once(
    actions: Seq<RepeatAction>,
    started: Map<u16, InputEvent>,
    cancelled: Map<u16, InputEvent>,
    code: u16,
)
    requires
        keyed_by_code(cancelled),
        performs(actions, started, cancelled),
    ensures
        stop_count(actions, code) == if cancelled.contains_key(code) {
            1nat
        } else {
            0nat
        },
{
    if cancelled.contains_key(code) {
        let entry = cancelled[code];
        assert(actions.contains(RepeatAction::Stop(entry)));
        assert forall|ev: InputEvent| #[trigger]
            actions.contains(RepeatAction::Stop(ev)) && ev.code == code implies ev == entry by {}
        lemma_one_stop(actions, entry);
    } else {
        assert forall|ev: InputEvent| #[trigger]
            actions.contains(RepeatAction::Stop(ev)) implies ev.code != code by {}
        lemma_no_stop(actions, code);
    }
}

/// Whatever performs a step emits one `Stop` for each entry that the step
/// takes out of the active set, and none for any other key: each
/// cancellation is answered once, never twice and never not at all.
pub proof fn lemma_one_stop_per_cancellation(
    s: StateView,
    ev: InputEvent,
    actions: Seq<RepeatAction>,
    code: u16,
)
    requires
        s.wf(),
        performs(actions, s.started(ev), s.cancelled(ev)),
    ensures
        stop_count(actions, code) == if s.is_active(code) && !s.step(ev).is_active(code) {
            1nat
        } else {
            0nat
        },
{
    lemma_step_accounts(s, ev);
    lemma_cancelled_exactly_once(actions, s.started(ev), s.cancelled(ev), code);
}

proof fn lemma_no_stop(actions: Seq<RepeatAction>, code: u16)
    requires
        forall|ev: InputEvent| #[trigger]
            actions.contains(RepeatAction::Stop(ev)) ==> ev.code != code,
    ensures
        stop_count(actions, code) == 0,
    decreases actions.len(),
{
    if actions.len() > 0 {
        let earlier = actions.drop_last();
        assert forall|ev: InputEvent| #[trigger]
            earlier.contains(RepeatAction::Stop(ev)) implies ev.code != code by {
            let i = choose|i: int| 0 <= i < earlier.len() && earlier[i] == RepeatAction::Stop(ev);
            assert(actions[i] == RepeatAction::Stop(ev));
            assert(actions.contains(RepeatAction::Stop(ev)));
        }
        lemma_no_stop(earlier, code);
        match actions.last() {
            RepeatAction::Stop(ev) => {
                assert(actions[actions.len() - 1] == RepeatAction::Stop(ev));
                assert(actions.contains(RepeatAction::Stop(ev)));
            },
            RepeatAction::Start(_) => {},
        }
    }
}

proof fn lemma_one_stop(actions: Seq<RepeatAction>, entry: InputEvent)
    requires
        actions.no_duplicates(),
        actions.contains(RepeatAction::Stop(entry)),
        forall|ev: InputEvent| #[trigger]
            actions.contains(RepeatAction::Stop(ev)) && ev.code == entry.code ==> ev == entry,
    ensures
        stop_count(actions, entry.code) == 1,
    decreases actions.len(),
{
    let earlier = actions.drop_last();
    let last = actions.len() - 1;
    assert forall|a: RepeatAction| earlier.contains(a) implies actions.contains(a) by {
        let i = choose|i: int| 0 <= i < earlier.len() && earlier[i] == a;
        assert(actions[i] == a);
    }
    if actions.last() == RepeatAction::Stop(entry) {
        assert forall|ev: InputEvent| #[trigger]
            earlier.contains(RepeatAction::Stop(ev)) implies ev.code != entry.code by {
            let i = choose|i: int| 0 <= i < earlier.len() && earlier[i] == RepeatAction::Stop(ev);
            assert(actions[i] == RepeatAction::Stop(ev));
            assert(actions.contains(RepeatAction::Stop(ev)));
            assert(actions[last] == RepeatAction::Stop(entry));
        }
        lemma_no_stop(earlier, entry.code);
    } else {
        let i = choose|i: int| 0 <= i < actions.len() && actions[i] == RepeatAction::Stop(entry);
        assert(earlier[i] == RepeatAction::Stop(entry));
        assert(earlier.contains(RepeatAction::Stop(entry)));
        lemma_one_stop(earlier, entry);
        match actions.last() {
            RepeatAction::Stop(ev) => {
                assert(actions[last] == RepeatAction::Stop(ev));
                assert(actions.contains(RepeatAction::Stop(ev)));
            },
            RepeatAction::Start(_) => {},
        }
    }
}

/// A pause followed by a resume leaves nothing paused and every entry
/// running, each with the event it had: where nothing was paused before,
/// the active set is exactly what it was.
pub proof fn lemma_pause_then_resume(s: StateView)
    ensures
        s.pause_all().resume_all().paused == Map::<u16, InputEvent>::empty(),
        s.pause_all().resume_all().active == s.entries(),
        s.pause_all().paused == s.entries(),
        s.paused == Map::<u16, InputEvent>::empty() ==> s.pause_all().resume_all().active
            == s.active,
{
    assert(s.pause_all().resume_all().active =~= s.entries());
    if s.paused == Map::<u16, InputEvent>::empty() {
        assert(s.entries() =~= s.active);
    }
}

/// The caps-lock indicator going on and then off, with caps lock off and
/// so nothing paused before: the first event cancels every running entry
/// and holds it paused, the second spawns a timer for each of them again,
/// and the active set ends as it began, event for event.
pub proof fn lemma_toggle_round_trip(s: StateView, on: InputEvent, off: InputEvent)
    requires
        s.settled(),
        !s.modifiers.capslock,
        is_toggle(on) && on.value == 1,
        is_toggle(off) && off.value != 1,
    ensures
        s.cancelled(on) == s.active,
        s.step(on).active == Map::<u16, InputEvent>::empty(),
        s.step(on).paused == s.active,
        s.step(on).started(off) == s.active,
        s.step(on).step(off).active == s.active,
        s.step(on).step(off).paused == Map::<u16, InputEvent>::empty(),
{
    let paused = s.step(on);
    assert(paused.paused =~= s.active);
    assert(paused.started(off) =~= s.active);
    assert(paused.step(off).active =~= s.active);
}

/// A press of the stop-all key with no required modifier held, while the
/// stop-all key is not itself repeating, cancels every running entry and
/// starts none.
pub proof fn lemma_stop_all_clears(s: StateView, ev: InputEvent)
    requires
        ev.is_qualifying_press(),
        ev.code == STOP_ALL_KEY,
        !s.observe(ev).any_modifier_pressed(),
        !s.is_active(STOP_ALL_KEY),
    ensures
        s.step(ev).active == Map::<u16, InputEvent>::empty(),
        s.step(ev).paused == s.paused,
        s.cancelled(ev) == s.active,
        s.started(ev) == Map::<u16, InputEvent>::empty(),
{
}

} // verus!
