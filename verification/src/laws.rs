use vstd::prelude::*;
use crate::chord::KeyEvent;
use crate::model::Action;
use crate::edge::classified;
use crate::model::MapperState;
use crate::model::Session;
use crate::model::binds;
use crate::model::is_first_named;

verus! {

/// An action that stands somewhere in the registry is found under its name.
pub proof fn lemma_registered_is_found<F>(state: MapperState<F>, i: int, name: Seq<char>)
    requires
        0 <= i < state.actions.len(),
        state.actions[i].name == name,
    ensures
        state.find(name) is Some,
    decreases i,
{
    if forall|j: int| 0 <= j < i ==> (#[trigger] state.actions[j]).name != name {
        assert(is_first_named(state.actions, i, name));
    } else {
        let j = choose|j: int| 0 <= j < i && (#[trigger] state.actions[j]).name == name;
        lemma_registered_is_found(state, j, name);
    }
}

/// Registering an action changes no binding: every chord invokes what it
/// invoked before, and every name keeps the chord it had.
pub proof fn law_registration_keeps_bindings<F>(state: MapperState<F>, action: Action<F>)
    ensures
        forall|chord: KeyEvent| #[trigger]
            state.register(action).lookup(chord) == state.lookup(chord),
        forall|name: Seq<char>| #[trigger]
            state.register(action).chord_of(name) == state.chord_of(name),
{
}

/// A newly registered action has no chord until a binding targets it: when
/// its name was bound to no chord before, it is bound to none right after.
pub proof fn law_registered_action_is_unbound<F>(state: MapperState<F>, action: Action<F>)
    requires
        state.chord_of(action.name) is None,
    ensures
        state.register(action).chord_of(action.name) is None,
{
    law_registration_keeps_bindings(state, action);
}

/// A name that was never registered is bound to no chord, before and after
/// its registration.
pub proof fn law_fresh_name_is_unbound<F>(state: MapperState<F>, action: Action<F>)
    requires
        state.wf(),
        state.find(action.name) is None,
    ensures
        state.chord_of(action.name) is None,
        state.register(action).chord_of(action.name) is None,
{
    if exists|c: KeyEvent| binds(state.table, c, action.name) {
        let c = choose|c: KeyEvent| binds(state.table, c, action.name);
        assert(state.actions.contains(state.table[c]));
        let i = choose|i: int| 0 <= i < state.actions.len() && state.actions[i] == state.table[c];
        lemma_registered_is_found(state, i, action.name);
    }
    law_registration_keeps_bindings(state, action);
}

/// After an action was rebound to a chord, the chord invokes it, and no
/// other chord invokes an action of its name any more.
pub proof fn law_rebind_moves_action<F>(state: MapperState<F>, action: Action<F>, chord: KeyEvent)
    ensures
        state.rebind(action, chord).lookup(chord) == Some(action),
        state.rebind(action, chord).chord_of(action.name) == Some(chord),
        forall|other: KeyEvent|
            other != chord ==> !(#[trigger] state.rebind(action, chord).binds(other, action.name)),
{
    let after = state.rebind(action, chord);
    assert(after.binds(chord, action.name));
    let chosen = choose|c: KeyEvent| binds(after.table, c, action.name);
    assert(chosen == chord);
}

/// Rebinding touches the chord it binds and the chords of the rebound
/// name, and nothing else: every other chord invokes what it invoked before.
pub proof fn law_rebind_keeps_others<F>(
    state: MapperState<F>,
    action: Action<F>,
    chord: KeyEvent,
    other: KeyEvent,
)
    requires
        other != chord,
        !state.binds(other, action.name),
    ensures
        state.rebind(action, chord).lookup(other) == state.lookup(other),
{
}

/// Binding an action to a chord that a differently named action holds makes
/// the chord invoke the new action; the earlier holder is left with no
/// chord, and stays registered.
pub proof fn law_rebind_displaces_holder<F>(
    state: MapperState<F>,
    holder: Action<F>,
    action: Action<F>,
    chord: KeyEvent,
)
    requires
        state.wf(),
        state.lookup(chord) == Some(holder),
        holder.name != action.name,
    ensures
        state.rebind(action, chord).lookup(chord) == Some(action),
        state.rebind(action, chord).chord_of(holder.name) is None,
        state.rebind(action, chord).actions == state.actions,
        state.rebind(action, chord).find(holder.name) == state.find(holder.name),
{
    let after = state.rebind(action, chord);
    assert forall|c: KeyEvent| !after.binds(c, holder.name) by {
        if after.binds(c, holder.name) {
            assert(c != chord);
            assert(state.table.contains_key(c) && state.table.contains_key(chord));
            assert(state.table[c].name == state.table[chord].name);
        }
    }
}

/// What finds nothing changes nothing: unbinding a name that is bound to no
/// chord, starting a capture for a name that is not registered, ending a
/// capture while idle, and a key transition or an update tick while idle
/// all leave the state as it was.
pub proof fn law_misses_change_nothing<F>(state: MapperState<F>, name: Seq<char>, chord: KeyEvent)
    ensures
        state.chord_of(name) is None ==> state.unbind(name) == state,
        state.find(name) is None ==> state.begin(name) == state,
        !state.awaiting() ==> state.capture(chord) == state,
        !state.awaiting() ==> state.on_event(chord) == state,
        !state.awaiting() ==> state.tick() == state,
{
    if state.chord_of(name) is None {
        assert forall|c: KeyEvent| state.table.contains_key(c) implies state.table[c].name
            != name by {
            if state.table[c].name == name {
                assert(binds(state.table, c, name));
            }
        }
        assert(state.unbind(name).table =~= state.table);
        assert(state.unbind(name) =~= state);
    }
}

/// Update ticks during a capture whose count has started add to the count
/// and change nothing else.
pub proof fn lemma_ticks_add_up<F>(state: MapperState<F>, count: nat)
    requires
        state.awaiting(),
        state.held_ticks() > 0,
    ensures
        state.ticks(count) == (MapperState {
            session: Some(
                Session { held_ticks: state.held_ticks() + count, ..state.session->0 },
            ),
            ..state
        }),
    decreases count,
{
    if count > 0 {
        lemma_ticks_add_up(state, (count - 1) as nat);
    }
}

/// A capture binds by how long the key was held. Start a capture for a
/// registered name while idle, let a key go down, let `count` update ticks
/// pass, and let the key come up: the first action of that name is then
/// bound to the key's chord, with the edge that a hold of `count + 1` ticks
/// stands for, and the mapper is idle again.
pub proof fn law_capture_binds_by_hold<F>(
    state: MapperState<F>,
    name: Seq<char>,
    chord: KeyEvent,
    count: nat,
)
    requires
        !state.awaiting(),
        state.find(name) is Some,
    ensures
        ({
            let held = state.begin(name).press().ticks(count);
            let end = held.release(chord);
            let bound = KeyEvent { edge: classified(count + 1, chord.edge), ..chord };
            &&& held.awaiting()
            &&& held.held_ticks() == count + 1
            &&& !end.awaiting()
            &&& end.held_ticks() == 0
            &&& end.chord_of(name) == Some(bound)
            &&& end.lookup(bound) == state.find(name)
            &&& end.actions == state.actions
        }),
{
    let action = state.find(name)->0;
    state.lemma_found_is_registered(name);
    let pressed = state.begin(name).press();
    lemma_ticks_add_up(pressed, count);
    let held = pressed.ticks(count);
    let bound = KeyEvent { edge: classified(count + 1, chord.edge), ..chord };
    law_rebind_moves_action(held, action, bound);
}

/// The lines that a run over the listing hands out from the cursor on are
/// the listing's lines from there on, and the run leaves the cursor at the
/// start.
pub proof fn lemma_drain_from_cursor<F>(state: MapperState<F>)
    requires
        state.cursor <= state.actions.len(),
    ensures
        state.drain().0 == state.listing().skip(state.cursor as int),
        state.drain().1 == (MapperState { cursor: 0, ..state }),
    decreases state.actions.len() - state.cursor,
{
    if state.cursor < state.actions.len() {
        let next = state.advance();
        lemma_drain_from_cursor(next);
        assert(next.listing() =~= state.listing());
        assert(state.drain().0 =~= state.listing().skip(state.cursor as int));
    } else {
        assert(state.drain().0 =~= state.listing().skip(state.cursor as int));
    }
}

/// A run over the listing from its start hands out one line per registered
/// action, in registration order, and leaves the mapper as it was: the next
/// run hands out the same lines again.
pub proof fn law_listing_restarts<F>(state: MapperState<F>)
    requires
        state.cursor == 0,
    ensures
        state.drain().0 == state.listing(),
        state.drain().0.len() == state.actions.len(),
        forall|i: int|
            0 <= i < state.actions.len() ==> (#[trigger] state.drain().0[i]).name
                == state.actions[i].name,
        state.drain().1 == state,
        state.drain().1.drain().0 == state.drain().0,
{
    lemma_drain_from_cursor(state);
    assert(state.listing().skip(0) =~= state.listing());
    assert(state.drain().1 =~= state);
}

} // verus!
