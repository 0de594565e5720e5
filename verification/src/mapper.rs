use vstd::prelude::*;
use std::collections::HashMap;
use crate::chord::KeyEvent;
use crate::chord::chord_at;
use crate::chord::chord_code;
use crate::chord::lemma_chord_of_code;
use crate::chord::lemma_code_of_chord;
use crate::chord::is_chord_code;
use crate::edge::KeyEdge;
use crate::edge::classify;
use crate::model::Action;
use crate::model::Entry;
use crate::model::entry_text;
use crate::model::is_first_named;
use crate::model::MapperState;
use crate::model::Session;

verus! {

broadcast use vstd::std_specs::hash::group_hash_axioms;

/// A registered action: its name and the callback the host runs for it.
#[derive(Clone, Debug)]
pub struct NamedFunction<F> {
    pub name: String,
    pub func: F,
}

impl<F> View for NamedFunction<F> {
    type V = Action<F>;

    open spec fn view(&self) -> Action<F> {
        Action { name: self.name@, func: self.func }
    }
}

impl<F: Copy> NamedFunction<F> {
    /// A second value for the same action.
    pub fn duplicate(&self) -> (copy: Self)
        ensures
            copy == *self,
    {
        NamedFunction { name: self.name.clone(), func: self.func }
    }
}

/// One line of the listing of bindings: the chord bound to an action, if
/// any, and the action's name.
#[derive(Clone, Debug)]
pub struct Binding {
    pub chord: Option<KeyEvent>,
    pub name: String,
}

impl View for Binding {
    type V = Entry;

    open spec fn view(&self) -> Entry {
        Entry { chord: self.chord, name: self.name@ }
    }
}

impl Binding {
    /// The text the line's chord is shown as, or `None` for an action bound
    /// to no chord. The host names the chord's modifier set and key.
    pub fn label(&self, modifier_text: &str, key_text: &str) -> (text: String)
        ensures
            text@ == entry_text(self@, modifier_text@, key_text@),
    {
        match &self.chord {
            Some(chord) => chord.label(modifier_text, key_text),
            None => {
                proof {
                    reveal_strlit("None");
                }
                let text = "None";
                assert(text@ =~= entry_text(self@, modifier_text@, key_text@));
                text.to_owned()
            },
        }
    }
}

/// Turns key transitions into the callbacks of named actions, and lets
/// the host rebind an action by capturing the next key.
///
/// The mapper never runs a callback: it hands back the callbacks to run.
pub struct KeyMapper<F> {
    key_map: HashMap<u64, NamedFunction<F>>,
    fun_vec: Vec<NamedFunction<F>>,
    function_waiting: Option<NamedFunction<F>>,
    ticks_held: usize,
    index: usize,
}

impl<F> View for KeyMapper<F> {
    type V = MapperState<F>;

    closed spec fn view(&self) -> MapperState<F> {
        MapperState {
            actions: Seq::new(self.fun_vec@.len(), |i: int| self.fun_vec@[i]@),
            table: Map::new(
                |c: KeyEvent| self.key_map@.contains_key(chord_code(c)),
                |c: KeyEvent| self.key_map@[chord_code(c)]@,
            ),
            session: match self.function_waiting {
                Some(action) => Some(
                    Session { action: action@, held_ticks: self.ticks_held as nat },
                ),
                None => None,
            },
            cursor: self.index as nat,
        }
    }
}

impl<F> KeyMapper<F> {
    /// What holds of every mapper: each binding is filed under the code of
    /// a chord, no ticks are counted while idle, and the state is well
    /// formed.
    #[verifier::type_invariant]
    spec fn sound(self) -> bool {
        &&& forall|code: u64| #[trigger] self.key_map@.contains_key(code) ==> is_chord_code(code)
        &&& self.function_waiting is None ==> self.ticks_held == 0
        &&& self@.wf()
    }
}

impl<F: Copy> KeyMapper<F> {
    /// A mapper with no action and no binding, idle.
    pub fn new() -> (mapper: Self)
        ensures
            mapper@ == MapperState::<F>::empty(),
            mapper@.wf(),
    {
        let key_map = HashMap::new();
        let fun_vec = Vec::new();
        let ghost made = KeyMapper::<F> {
            key_map,
            fun_vec,
            function_waiting: None,
            ticks_held: 0,
            index: 0,
        };
        assert(made@ =~= MapperState::<F>::empty());
        KeyMapper { key_map, fun_vec, function_waiting: None, ticks_held: 0, index: 0 }
    }

    /// Takes the mapper's parts out, leaving an empty mapper behind.
    fn take(&mut self) -> (parts: Self)
        ensures
            parts == *old(self),
    {
        let mut parts = KeyMapper::new();
        std::mem::swap(self, &mut parts);
        parts
    }

    // ----- action registry -----

    /// Registers an action under `name`, bound to no chord.
    pub fn register_action(&mut self, name: &str, func: F)
        ensures
            final(self)@ == old(self)@.register(Action { name: name@, func }),
            final(self)@.wf(),
    {
        proof {
            use_type_invariant(&*self);
        }
        let named = NamedFunction { name: name.to_owned(), func };
        let KeyMapper { key_map, mut fun_vec, function_waiting, ticks_held, index } = self.take();
        fun_vec.push(named);
        proof {
            let made = KeyMapper { key_map, fun_vec, function_waiting, ticks_held, index };
            assert(made@ =~= old(self)@.register(Action { name: name@, func }));
            old(self)@.lemma_register_wf(Action { name: name@, func });
        }
        *self = KeyMapper { key_map, fun_vec, function_waiting, ticks_held, index };
    }

    /// The first registered action named `name`.
    pub fn find_by_name(&self, name: &str) -> (found: Option<&NamedFunction<F>>)
        ensures
            found matches Some(action) ==> self@.find(name@) == Some(action@),
            found is None ==> self@.find(name@) is None,
            self@.wf(),
    {
        proof {
            use_type_invariant(self);
        }
        let wanted = name.to_owned();
        let mut i: usize = 0;
        while i < self.fun_vec.len()
            invariant
                i <= self.fun_vec.len(),
                wanted@ == name@,
                self@.wf(),
                forall|j: int| 0 <= j < i ==> (#[trigger] self@.actions[j]).name != name@,
            decreases self.fun_vec.len() - i,
        {
            if self.fun_vec[i].name == wanted {
                proof {
                    assert(is_first_named(self@.actions, i as int, name@));
                    self@.lemma_first_named(i as int, name@);
                }
                return Some(&self.fun_vec[i]);
            }
            i += 1;
        }
        None
    }

    /// The number of registered actions.
    pub fn len(&self) -> (count: usize)
        ensures
            count == self@.actions.len(),
            self@.wf(),
    {
        proof {
            use_type_invariant(self);
        }
        self.fun_vec.len()
    }

    // ----- binding table -----

    /// The code under which an action named `wanted` is bound.
    fn bound_code(&self, wanted: &String) -> (found: Option<u64>)
        ensures
            found matches Some(code) ==> self.key_map@.contains_key(code)
                && self.key_map@[code].name@ == wanted@,
            found is None ==> forall|code: u64| #[trigger]
                self.key_map@.contains_key(code) ==> self.key_map@[code].name@ != wanted@,
    {
        let mut found: Option<u64> = None;
        for entry in it: self.key_map.iter()
            invariant
                found matches Some(code) ==> self.key_map@.contains_key(code)
                    && self.key_map@[code].name@ == wanted@,
                found is None ==> forall|j: int|
                    0 <= j < it.index() ==> (#[trigger] it.seq()[j]).1.name@ != wanted@,
        {
            if entry.1.name == *wanted {
                found = Some(*entry.0);
            }
        }
        found
    }

    /// Takes the chord away from every action named `name`.
    pub fn remove_key_from_func(&mut self, name: &str)
        ensures
            final(self)@ == old(self)@.unbind(name@),
            final(self)@.wf(),
    {
        proof {
            use_type_invariant(&*self);
            old(self)@.lemma_unbind_wf(name@);
        }
        let wanted = name.to_owned();
        let found = self.bound_code(&wanted);
        let ghost unbound = old(self)@.unbind(name@);
        if let Some(code) = found {
            let KeyMapper { mut key_map, fun_vec, function_waiting, ticks_held, index } =
                self.take();
            key_map.remove(&code);
            proof {
                let made = KeyMapper { key_map, fun_vec, function_waiting, ticks_held, index };
                lemma_chord_of_code(code);
                let d = chord_at(code);
                assert(old(self)@.binds(d, name@));
                assert forall|c: KeyEvent|
                    made@.table.contains_key(c) == unbound.table.contains_key(c) by {
                    if old(self)@.binds(c, name@) {
                        assert(old(self)@.table[c].name == old(self)@.table[d].name);
                        assert(c == d);
                    }
                }
                assert(made@.table =~= unbound.table);
                assert(made@ =~= unbound);
            }
            *self = KeyMapper { key_map, fun_vec, function_waiting, ticks_held, index };
        } else {
            assert forall|c: KeyEvent|
                self@.table.contains_key(c) == unbound.table.contains_key(c) by {
                if self@.table.contains_key(c) {
                    assert(self.key_map@.contains_key(chord_code(c)));
                }
            }
            assert(self@.table =~= unbound.table);
            assert(self@ =~= unbound);
        }
    }

    /// Moves `action` to `chord`: its earlier chord is given up first, and
    /// whatever held `chord` before loses it.
    fn rebind_action(&mut self, action: NamedFunction<F>, chord: KeyEvent)
        requires
            old(self)@.actions.contains(action@),
        ensures
            final(self)@ == old(self)@.rebind(action@, chord),
            final(self)@.wf(),
    {
        proof {
            use_type_invariant(&*self);
            old(self)@.lemma_rebind_wf(action@, chord);
        }
        self.remove_key_from_func(action.name.as_str());
        proof {
            use_type_invariant(&*self);
        }
        let ghost unbound = self@;
        let ghost named = action@;
        let code = chord.code();
        let KeyMapper { mut key_map, fun_vec, function_waiting, ticks_held, index } = self.take();
        key_map.insert(code, action);
        proof {
            let made = KeyMapper { key_map, fun_vec, function_waiting, ticks_held, index };
            lemma_code_of_chord(chord);
            assert forall|c: KeyEvent| chord_code(c) == chord_code(chord) implies c == chord by {
                lemma_code_of_chord(c);
            }
            assert(made@.table =~= unbound.bind(chord, named).table);
            assert(made@ =~= old(self)@.rebind(named, chord));
        }
        *self = KeyMapper { key_map, fun_vec, function_waiting, ticks_held, index };
    }

    /// Moves the first action named `name` to `chord`, and says whether there
    /// is such an action. An unknown name changes nothing.
    pub fn rebind(&mut self, name: &str, chord: KeyEvent) -> (known: bool)
        ensures
            known == old(self)@.find(name@) is Some,
            final(self)@ == (match old(self)@.find(name@) {
                Some(action) => old(self)@.rebind(action, chord),
                None => old(self)@,
            }),
            final(self)@.wf(),
    {
        let found = match self.find_by_name(name) {
            Some(action) => Some(action.duplicate()),
            None => None,
        };
        match found {
            Some(action) => {
                proof {
                    self@.lemma_found_is_registered(name@);
                }
                self.rebind_action(action, chord);
                true
            },
            None => false,
        }
    }

    /// Registers an action under `name` and binds it to the chord made of
    /// `key`, `modifier` and `edge`.
    pub fn insert(&mut self, key: u32, modifier: u8, edge: KeyEdge, name: &str, func: F)
        ensures
            final(self)@ == old(self)@.insert(
                KeyEvent { key, modifier, edge },
                Action { name: name@, func },
            ),
            final(self)@.wf(),
    {
        let ev = KeyEvent { key, modifier, edge };
        let named_func = NamedFunction { name: name.to_owned(), func };
        self.register_action(name, func);
        proof {
            let last = self@.actions.len() - 1;
            assert(self@.actions[last] == named_func@);
        }
        self.rebind_action(named_func, ev);
    }

    /// The action that `chord` invokes.
    pub fn lookup(&self, chord: &KeyEvent) -> (found: Option<&NamedFunction<F>>)
        ensures
            found matches Some(action) ==> self@.lookup(*chord) == Some(action@),
            found is None ==> self@.lookup(*chord) is None,
            self@.wf(),
    {
        proof {
            use_type_invariant(self);
        }
        let code = chord.code();
        self.key_map.get(&code)
    }

    /// The chord bound to an action named `name`.
    pub fn lookup_chord_for_action(&self, name: &str) -> (chord: Option<KeyEvent>)
        ensures
            chord == self@.chord_of(name@),
            self@.wf(),
    {
        proof {
            use_type_invariant(self);
        }
        let wanted = name.to_owned();
        match self.bound_code(&wanted) {
            Some(code) => {
                proof {
                    lemma_chord_of_code(code);
                    self@.lemma_chord_of(chord_at(code), name@);
                }
                KeyEvent::from_code(code)
            },
            None => {
                assert forall|c: KeyEvent| !self@.binds(c, name@) by {
                    if self@.table.contains_key(c) {
                        assert(self.key_map@.contains_key(chord_code(c)));
                    }
                }
                None
            },
        }
    }

    // ----- rebind session -----

    /// Starts a capture for the first action named `name`: the next key that
    /// comes up is bound to it. An unknown name changes nothing.
    pub fn set_waiting(&mut self, name: &str)
        ensures
            final(self)@ == old(self)@.begin(name@),
            final(self)@.wf(),
    {
        proof {
            use_type_invariant(&*self);
            old(self)@.lemma_begin_wf(name@);
        }
        let found = match self.find_by_name(name) {
            Some(action) => Some(action.duplicate()),
            None => None,
        };
        if let Some(action) = found {
            proof {
                let made = KeyMapper { function_waiting: Some(action), ..*self };
                assert(made@ =~= old(self)@.begin(name@));
            }
            self.function_waiting = Some(action);
        }
        assert(self@ =~= old(self)@.begin(name@));
    }

    /// Ends the capture in progress by binding the waiting action to `key`
    /// as given. Without a capture in progress nothing changes.
    pub fn add_key_to_func(&mut self, key: KeyEvent)
        ensures
            final(self)@ == old(self)@.capture(key),
            final(self)@.wf(),
    {
        proof {
            use_type_invariant(&*self);
        }
        let waiting = match &self.function_waiting {
            Some(func) => Some(func.duplicate()),
            None => None,
        };
        if let Some(func) = waiting {
            self.ticks_held = 0;
            self.function_waiting = None;
            self.rebind_action(func, key);
        }
        assert(self@ =~= old(self)@.capture(key));
    }

    /// Whether a capture is in progress.
    pub fn is_waiting(&self) -> (waiting: bool)
        ensures
            waiting == self@.awaiting(),
            self@.wf(),
    {
        proof {
            use_type_invariant(self);
        }
        self.function_waiting.is_some()
    }

    /// The ticks counted by the capture in progress; zero while idle.
    pub fn ticks_held(&self) -> (ticks: usize)
        ensures
            ticks == self@.held_ticks(),
            self@.wf(),
    {
        proof {
            use_type_invariant(self);
        }
        self.ticks_held
    }

    // ----- dispatcher -----

    /// The callback that `chord` fires: that of the action bound to it.
    /// A chord bound to nothing fires nothing.
    pub fn dispatch_chord(&self, chord: &KeyEvent) -> (fired: Option<F>)
        ensures
            fired == self@.dispatched(*chord),
            self@.wf(),
    {
        match self.lookup(chord) {
            Some(mapping) => Some(mapping.func),
            None => None,
        }
    }

    /// Takes one key transition. During a capture it feeds the capture and
    /// fires nothing; while idle it hands back the callback of the action
    /// bound to the chord, if there is one.
    pub fn event(&mut self, key: u32, modifier: u8, edge: KeyEdge) -> (fired: Option<F>)
        ensures
            final(self)@ == old(self)@.on_event(KeyEvent { key, modifier, edge }),
            fired == old(self)@.fired(KeyEvent { key, modifier, edge }),
            final(self)@.wf(),
    {
        proof {
            use_type_invariant(&*self);
            old(self)@.lemma_on_event_wf(KeyEvent { key, modifier, edge });
        }
        let mut ev = KeyEvent { key, modifier, edge };
        if self.function_waiting.is_some() {
            match edge {
                KeyEdge::UP => {
                    ev.edge = classify(self.ticks_held, edge);
                    self.add_key_to_func(ev);
                },
                KeyEdge::DOWN => {
                    proof {
                        let made = KeyMapper { ticks_held: 1, ..*self };
                        assert(made@ =~= old(self)@.on_event(KeyEvent { key, modifier, edge }));
                    }
                    self.ticks_held = 1;
                },
                KeyEdge::HELD => {},
            }
            assert(self@ =~= old(self)@.on_event(KeyEvent { key, modifier, edge }));
            None
        } else {
            self.dispatch_chord(&ev)
        }
    }

    /// Takes the host's report that a key went down. A repeat of a key that
    /// is held is no transition: it changes nothing and fires nothing.
    pub fn key_down_event(&mut self, keycode: u32, keymods: u8, repeat: bool) -> (fired: Option<F>)
        ensures
            repeat ==> final(self)@ == old(self)@ && fired is None,
            !repeat ==> final(self)@ == old(self)@.on_event(
                KeyEvent { key: keycode, modifier: keymods, edge: KeyEdge::DOWN },
            ) && fired == old(self)@.fired(
                KeyEvent { key: keycode, modifier: keymods, edge: KeyEdge::DOWN },
            ),
            final(self)@.wf(),
    {
        proof {
            use_type_invariant(&*self);
        }
        if !repeat {
            self.event(keycode, keymods, KeyEdge::DOWN)
        } else {
            None
        }
    }

    /// Takes the host's report that a key came up.
    pub fn key_up_event(&mut self, keycode: u32, keymods: u8) -> (fired: Option<F>)
        ensures
            final(self)@ == old(self)@.on_event(
                KeyEvent { key: keycode, modifier: keymods, edge: KeyEdge::UP },
            ),
            fired == old(self)@.fired(
                KeyEvent { key: keycode, modifier: keymods, edge: KeyEdge::UP },
            ),
            final(self)@.wf(),
    {
        self.event(keycode, keymods, KeyEdge::UP)
    }

    /// Takes one update tick. During a capture it counts the tick and fires
    /// nothing; while idle it hands back, in the order of `pressed_keys`, the
    /// callbacks of the sustained bindings of the keys that are held.
    pub fn update(&mut self, pressed_keys: &Vec<u32>, active_mods: u8) -> (fired: Vec<F>)
        requires
            old(self)@.held_ticks() < usize::MAX,
        ensures
            final(self)@ == old(self)@.tick(),
            fired@ == old(self)@.fired_by_update(pressed_keys@, active_mods),
            final(self)@.wf(),
    {
        proof {
            use_type_invariant(&*self);
        }
        let mut fired: Vec<F> = Vec::new();
        if self.function_waiting.is_none() {
            let mut i: usize = 0;
            while i < pressed_keys.len()
                invariant
                    i <= pressed_keys.len(),
                    self@ == old(self)@,
                    !self@.awaiting(),
                    fired@ == self@.sustained(pressed_keys@.take(i as int), active_mods),
                decreases pressed_keys.len() - i,
            {
                let hit = self.event(pressed_keys[i], active_mods, KeyEdge::HELD);
                proof {
                    let upto = pressed_keys@.take(i + 1);
                    assert(upto.drop_last() =~= pressed_keys@.take(i as int));
                    assert(upto.last() == pressed_keys@[i as int]);
                }
                if let Some(func) = hit {
                    fired.push(func);
                }
                i += 1;
            }
            assert(pressed_keys@.take(i as int) =~= pressed_keys@);
        } else {
            if self.ticks_held > 0 {
                proof {
                    let made = KeyMapper { ticks_held: (self.ticks_held + 1) as usize, ..*self };
                    assert(made@ =~= old(self)@.tick());
                }
                self.ticks_held += 1;
            }
            assert(self@ =~= old(self)@.tick());
        }
        fired
    }

    // ----- listing of bindings -----

    /// Hands out the next line of the listing of bindings: the chord and
    /// name of the next registered action, in registration order. After the
    /// last line it reports the end once and starts over.
    pub fn next(&mut self) -> (line: Option<Binding>)
        ensures
            final(self)@ == old(self)@.advance(),
            line matches Some(binding) ==> old(self)@.yielded() == Some(binding@),
            line is None ==> old(self)@.yielded() is None,
            final(self)@.wf(),
    {
        proof {
            use_type_invariant(&*self);
        }
        if self.index >= self.fun_vec.len() {
            proof {
                let made = KeyMapper { index: 0, ..*self };
                assert(made@ =~= old(self)@.advance());
            }
            self.index = 0;
            None
        } else {
            let name = self.fun_vec[self.index].name.clone();
            let chord = self.lookup_chord_for_action(name.as_str());
            proof {
                let made = KeyMapper { index: (self.index + 1) as usize, ..*self };
                assert(made@ =~= old(self)@.advance());
            }
            self.index += 1;
            Some(Binding { chord, name })
        }
    }

    /// Runs the listing to its end: hands out every line that is left, in
    /// registration order, and leaves the listing at its start.
    pub fn listing(&mut self) -> (lines: Vec<Binding>)
        ensures
            final(self)@ == old(self)@.drain().1,
            lines@.len() == old(self)@.drain().0.len(),
            forall|i: int|
                0 <= i < lines@.len() ==> (#[trigger] lines@[i])@ == old(self)@.drain().0[i],
            final(self)@.wf(),
    {
        let mut lines: Vec<Binding> = Vec::new();
        loop
            invariant
                self@.drain().1 == old(self)@.drain().1,
                old(self)@.drain().0.len() == lines@.len() + self@.drain().0.len(),
                forall|i: int|
                    0 <= i < lines@.len() ==> (#[trigger] lines@[i])@ == old(self)@.drain().0[i],
                forall|i: int|
                    0 <= i < self@.drain().0.len() ==> #[trigger] self@.drain().0[i] == old(
                        self,
                    )@.drain().0[lines@.len() + i],
            decreases self@.actions.len() - self@.cursor,
        {
            let ghost before = self@;
            match self.next() {
                Some(line) => {
                    proof {
                        let rest = self@.drain().0;
                        assert(before.drain().0 =~= seq![line@] + rest);
                        assert forall|i: int| 0 <= i < rest.len() implies #[trigger] rest[i] == old(
                            self,
                        )@.drain().0[lines@.len() + 1 + i] by {
                            assert(rest[i] == before.drain().0[i + 1]);
                        }
                        assert(line@ == before.drain().0[0]);
                    }
                    lines.push(line);
                },
                None => {
                    assert(before.drain().0.len() == 0);
                    return lines;
                },
            }
        }
    }
}

} // verus!
