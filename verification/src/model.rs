use vstd::prelude::*;
use crate::chord::KeyEvent;
use crate::chord::chord_text;
use crate::edge::KeyEdge;
use crate::edge::classified;

verus! {

/// A bindable action: its name and the callback the host runs for it.
pub struct Action<F> {
    pub name: Seq<char>,
    pub func: F,
}

/// A capture in progress: the action that waits for a chord, and for how many
/// update ticks the candidate key has been held.
pub struct Session<F> {
    pub action: Action<F>,
    pub held_ticks: nat,
}

/// One line of the listing of bindings: the chord bound to an action, if
/// any, and the action's name.
pub struct Entry {
    pub chord: Option<KeyEvent>,
    pub name: Seq<char>,
}

/// The text the chord of a line is shown as: that of the chord, or `None`
/// for an action bound to no chord.
pub open spec fn entry_text(entry: Entry, modifier_text: Seq<char>, key_text: Seq<char>) -> Seq<
    char,
> {
    match entry.chord {
        Some(chord) => chord_text(chord, modifier_text, key_text),
        None => seq!['N', 'o', 'n', 'e'],
    }
}

/// `i` is the place of the first action named `name` in `actions`.
pub open spec fn is_first_named<F>(actions: Seq<Action<F>>, i: int, name: Seq<char>) -> bool {
    &&& 0 <= i < actions.len()
    &&& actions[i].name == name
    &&& forall|j: int| 0 <= j < i ==> (#[trigger] actions[j]).name != name
}

/// The first action named `name` in `actions`.
pub open spec fn first_named<F>(actions: Seq<Action<F>>, name: Seq<char>) -> Option<Action<F>> {
    if exists|i: int| is_first_named(actions, i, name) {
        Some(actions[choose|i: int| is_first_named(actions, i, name)])
    } else {
        None
    }
}

/// `table` binds `chord` to an action named `name`.
pub open spec fn binds<F>(
    table: Map<KeyEvent, Action<F>>,
    chord: KeyEvent,
    name: Seq<char>,
) -> bool {
    table.contains_key(chord) && table[chord].name == name
}

/// A chord that `table` binds to an action named `name`.
pub open spec fn bound_chord<F>(table: Map<KeyEvent, Action<F>>, name: Seq<char>) -> Option<
    KeyEvent,
> {
    if exists|c: KeyEvent| binds(table, c, name) {
        Some(choose|c: KeyEvent| binds(table, c, name))
    } else {
        None
    }
}

/// The state of a key mapper as a mathematical value.
#[verifier::ext_equal]
pub struct MapperState<F> {
    /// Every registered action, in registration order.
    pub actions: Seq<Action<F>>,
    /// The binding table: which action each bound chord invokes.
    pub table: Map<KeyEvent, Action<F>>,
    /// The capture in progress; `None` while idle.
    pub session: Option<Session<F>>,
    /// How many entries the listing in progress has handed out.
    pub cursor: nat,
}

impl<F> MapperState<F> {
    /// No action, no binding, idle.
    pub open spec fn empty() -> Self {
        MapperState { actions: Seq::empty(), table: Map::empty(), session: None, cursor: 0 }
    }

    /// `chord` is bound to an action named `name`.
    pub open spec fn binds(self, chord: KeyEvent, name: Seq<char>) -> bool {
        binds(self.table, chord, name)
    }

    /// No name is bound to two chords, only registered actions are bound,
    /// and only a registered action waits for a chord.
    pub open spec fn wf(self) -> bool {
        &&& forall|c: KeyEvent, d: KeyEvent|
            #![trigger self.table[c], self.table[d]]
            self.table.contains_key(c) && self.table.contains_key(d) && self.table[c].name
                == self.table[d].name ==> c == d
        &&& forall|c: KeyEvent| #[trigger]
            self.table.contains_key(c) ==> self.actions.contains(self.table[c])
        &&& self.session matches Some(s) ==> self.actions.contains(s.action)
    }

    // ----- action registry -----

    /// Appends `action` to the registry.
    pub open spec fn register(self, action: Action<F>) -> Self {
        MapperState { actions: self.actions.push(action), ..self }
    }

    /// The first registered action named `name`.
    pub open spec fn find(self, name: Seq<char>) -> Option<Action<F>> {
        first_named(self.actions, name)
    }

    // ----- binding table -----

    /// Binds `chord` to `action`; whatever held the chord before loses it.
    pub open spec fn bind(self, chord: KeyEvent, action: Action<F>) -> Self {
        MapperState { table: self.table.insert(chord, action), ..self }
    }

    /// Removes the binding of every action named `name`.
    pub open spec fn unbind(self, name: Seq<char>) -> Self {
        MapperState {
            table: Map::new(
                |c: KeyEvent| self.table.contains_key(c) && self.table[c].name != name,
                |c: KeyEvent| self.table[c],
            ),
            ..self
        }
    }

    /// Moves `action` to `chord`: its earlier chord is given up first.
    pub open spec fn rebind(self, action: Action<F>, chord: KeyEvent) -> Self {
        self.unbind(action.name).bind(chord, action)
    }

    /// Registers `action` and binds it to `chord`.
    pub open spec fn insert(self, chord: KeyEvent, action: Action<F>) -> Self {
        self.register(action).rebind(action, chord)
    }

    /// The action that `chord` invokes.
    pub open spec fn lookup(self, chord: KeyEvent) -> Option<Action<F>> {
        if self.table.contains_key(chord) {
            Some(self.table[chord])
        } else {
            None
        }
    }

    /// The chord bound to an action named `name`.
    pub open spec fn chord_of(self, name: Seq<char>) -> Option<KeyEvent> {
        bound_chord(self.table, name)
    }

    // ----- rebind session -----

    /// A capture is in progress.
    pub open spec fn awaiting(self) -> bool {
        self.session is Some
    }

    /// The ticks counted by the capture in progress; zero while idle.
    pub open spec fn held_ticks(self) -> nat {
        match self.session {
            Some(s) => s.held_ticks,
            None => 0,
        }
    }

    /// Starts a capture for the first action named `name`. An unknown name
    /// changes nothing. If a capture is already in progress, its count goes
    /// on for the new action.
    pub open spec fn begin(self, name: Seq<char>) -> Self {
        match self.find(name) {
            Some(action) => MapperState {
                session: Some(Session { action, held_ticks: self.held_ticks() }),
                ..self
            },
            None => self,
        }
    }

    /// A key went down during a capture: the count starts at one.
    pub open spec fn press(self) -> Self {
        match self.session {
            Some(s) => MapperState { session: Some(Session { held_ticks: 1, ..s }), ..self },
            None => self,
        }
    }

    /// One update tick: during a capture a count that has started goes up;
    /// while idle nothing changes.
    pub open spec fn tick(self) -> Self {
        match self.session {
            Some(s) => if s.held_ticks > 0 {
                MapperState {
                    session: Some(Session { held_ticks: s.held_ticks + 1, ..s }),
                    ..self
                }
            } else {
                self
            },
            None => self,
        }
    }

    /// The state after `count` update ticks in a row.
    pub open spec fn ticks(self, count: nat) -> Self
        decreases count,
    {
        if count == 0 {
            self
        } else {
            self.ticks((count - 1) as nat).tick()
        }
    }

    /// Ends the capture by binding the waiting action to `chord` as given.
    pub open spec fn capture(self, chord: KeyEvent) -> Self {
        match self.session {
            Some(s) => MapperState { session: None, ..self.rebind(s.action, chord) },
            None => self,
        }
    }

    /// A key came up during a capture: the chord's edge is set by how long
    /// the key was held, and the waiting action is bound to it.
    pub open spec fn release(self, chord: KeyEvent) -> Self {
        self.capture(KeyEvent { edge: classified(self.held_ticks(), chord.edge), ..chord })
    }

    // ----- dispatcher -----

    /// The state after one key transition. During a capture the transition
    /// feeds the capture; while idle it changes nothing.
    pub open spec fn on_event(self, chord: KeyEvent) -> Self {
        if self.awaiting() {
            match chord.edge {
                KeyEdge::UP => self.release(chord),
                KeyEdge::DOWN => self.press(),
                KeyEdge::HELD => self,
            }
        } else {
            self
        }
    }

    /// The callback of the action bound to `chord`.
    pub open spec fn dispatched(self, chord: KeyEvent) -> Option<F> {
        match self.lookup(chord) {
            Some(action) => Some(action.func),
            None => None,
        }
    }

    /// The callback that one key transition fires: none during a capture,
    /// else that of the action bound to the chord.
    pub open spec fn fired(self, chord: KeyEvent) -> Option<F> {
        if self.awaiting() {
            None
        } else {
            self.dispatched(chord)
        }
    }

    /// The callbacks of the sustained bindings of `keys` under `modifier`,
    /// in the order of `keys`.
    pub open spec fn sustained(self, keys: Seq<u32>, modifier: u8) -> Seq<F>
        decreases keys.len(),
    {
        if keys.len() == 0 {
            Seq::empty()
        } else {
            let earlier = self.sustained(keys.drop_last(), modifier);
            match self.dispatched(KeyEvent { key: keys.last(), modifier, edge: KeyEdge::HELD }) {
                Some(func) => earlier.push(func),
                None => earlier,
            }
        }
    }

    /// The callbacks that one update tick fires while `keys` are held under
    /// `modifier`: none during a capture.
    pub open spec fn fired_by_update(self, keys: Seq<u32>, modifier: u8) -> Seq<F> {
        if self.awaiting() {
            Seq::empty()
        } else {
            self.sustained(keys, modifier)
        }
    }

    // ----- listing of bindings -----

    /// The listing's line for the `i`-th registered action.
    pub open spec fn entry(self, i: int) -> Entry {
        Entry { chord: self.chord_of(self.actions[i].name), name: self.actions[i].name }
    }

    /// One line per registered action, in registration order.
    pub open spec fn listing(self) -> Seq<Entry> {
        Seq::new(self.actions.len(), |i: int| self.entry(i))
    }

    /// What the next step of the listing hands out: the line under the
    /// cursor, or nothing once every line was handed out.
    pub open spec fn yielded(self) -> Option<Entry> {
        if self.cursor < self.actions.len() {
            Some(self.entry(self.cursor as int))
        } else {
            None
        }
    }

    /// The state after one step of the listing: the cursor moves on, or goes
    /// back to the start once every line was handed out.
    pub open spec fn advance(self) -> Self {
        if self.cursor < self.actions.len() {
            MapperState { cursor: self.cursor + 1, ..self }
        } else {
            MapperState { cursor: 0, ..self }
        }
    }

    /// The lines handed out by stepping until the listing reports its end,
    /// and the state that this leaves.
    pub open spec fn drain(self) -> (Seq<Entry>, Self)
        decreases self.actions.len() - self.cursor,
    {
        match self.yielded() {
            Some(line) => {
                let (rest, end) = self.advance().drain();
                (seq![line] + rest, end)
            },
            None => (Seq::empty(), self.advance()),
        }
    }
}

impl<F> MapperState<F> {
    /// Registration keeps a well-formed state well formed.
    pub proof fn lemma_register_wf(self, action: Action<F>)
        requires
            self.wf(),
        ensures
            self.register(action).wf(),
    {
        let after = self.register(action);
        assert forall|a: Action<F>| self.actions.contains(a) implies after.actions.contains(a) by {
            let i = choose|i: int| 0 <= i < self.actions.len() && self.actions[i] == a;
            assert(after.actions[i] == a);
        }
    }

    /// Unbinding keeps a well-formed state well formed.
    pub proof fn lemma_unbind_wf(self, name: Seq<char>)
        requires
            self.wf(),
        ensures
            self.unbind(name).wf(),
    {
    }

    /// Rebinding a registered action keeps a well-formed state well formed.
    pub proof fn lemma_rebind_wf(self, action: Action<F>, chord: KeyEvent)
        requires
            self.wf(),
            self.actions.contains(action),
        ensures
            self.rebind(action, chord).wf(),
    {
    }

    /// An action that is found is a registered one.
    pub proof fn lemma_found_is_registered(self, name: Seq<char>)
        ensures
            self.find(name) matches Some(action) ==> self.actions.contains(action)
                && action.name == name,
    {
    }

    /// Starting a capture keeps a well-formed state well formed.
    pub proof fn lemma_begin_wf(self, name: Seq<char>)
        requires
            self.wf(),
        ensures
            self.begin(name).wf(),
    {
        self.lemma_found_is_registered(name);
    }

    /// Ending a capture keeps a well-formed state well formed.
    pub proof fn lemma_capture_wf(self, chord: KeyEvent)
        requires
            self.wf(),
        ensures
            self.capture(chord).wf(),
    {
        if let Some(s) = self.session {
            self.lemma_rebind_wf(s.action, chord);
        }
    }

    /// A key transition keeps a well-formed state well formed.
    pub proof fn lemma_on_event_wf(self, chord: KeyEvent)
        requires
            self.wf(),
        ensures
            self.on_event(chord).wf(),
    {
        self.lemma_capture_wf(
            KeyEvent { edge: classified(self.held_ticks(), chord.edge), ..chord },
        );
    }

    /// In a well-formed state a name is bound to one chord at most.
    pub proof fn lemma_chord_of(self, chord: KeyEvent, name: Seq<char>)
        requires
            self.wf(),
            self.binds(chord, name),
        ensures
            self.chord_of(name) == Some(chord),
    {
        let other = choose|c: KeyEvent| binds(self.table, c, name);
        assert(self.table[other].name == self.table[chord].name);
    }

    /// The first action of a name is found at the first place of that name.
    pub proof fn lemma_first_named(self, i: int, name: Seq<char>)
        requires
            is_first_named(self.actions, i, name),
        ensures
            self.find(name) == Some(self.actions[i]),
    {
        let k = choose|k: int| is_first_named(self.actions, k, name);
        if k < i {
            assert(self.actions[k].name != name);
        }
        if i < k {
            assert(self.actions[i].name != name);
        }
    }
}

} // verus!
