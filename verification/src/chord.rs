use vstd::prelude::*;
use crate::edge::KeyEdge;
use crate::edge::edge_text;
use vstd::string::StringExecFns;

verus! {

/// An input chord: one key, the modifier set held with it, and the edge it
/// listens for. Two chords are the same only if all three parts agree.
#[derive(Clone, Copy, Debug, PartialEq, Eq, Hash, Structural)]
pub struct KeyEvent {
    /// The host's code of the key.
    pub key: u32,
    /// The host's modifier set, one bit per modifier; zero when none is held.
    pub modifier: u8,
    pub edge: KeyEdge,
}

/// The number a chord is filed under: the key's code above ten low digits
/// (base two), of which the modifier set takes eight and the edge two.
pub open spec fn chord_code(chord: KeyEvent) -> u64 {
    (chord.key as nat * 1024 + chord.modifier as nat * 4 + chord.edge.ordinal()) as u64
}

/// Whether `code` is the number of some chord.
pub open spec fn is_chord_code(code: u64) -> bool {
    code / 1024 <= u32::MAX && (code % 1024) % 4 <= 2
}

/// The chord filed under `code`.
pub open spec fn chord_at(code: u64) -> KeyEvent {
    let low = code % 1024;
    KeyEvent {
        key: (code / 1024) as u32,
        modifier: (low / 4) as u8,
        edge: if low % 4 == 0 {
            KeyEdge::DOWN
        } else if low % 4 == 1 {
            KeyEdge::UP
        } else {
            KeyEdge::HELD
        },
    }
}

/// Every chord has a code of its own, and the code gives the chord back.
pub proof fn lemma_code_of_chord(chord: KeyEvent)
    ensures
        is_chord_code(chord_code(chord)),
        chord_at(chord_code(chord)) == chord,
{
    let low = chord.modifier as nat * 4 + chord.edge.ordinal();
    let code = chord_code(chord);
    assert(low < 1024);
    assert(code == chord.key as nat * 1024 + low);
    assert(code / 1024 == chord.key && code % 1024 == low);
    assert(low / 4 == chord.modifier && low % 4 == chord.edge.ordinal());
}

/// Every code of a chord is the code of the chord filed under it.
pub proof fn lemma_chord_of_code(code: u64)
    requires
        is_chord_code(code),
    ensures
        chord_code(chord_at(code)) == code,
{
    let low = code % 1024;
    assert(code == (code / 1024) * 1024 + low);
    assert(low == (low / 4) * 4 + low % 4);
    assert(chord_at(code).edge.ordinal() == low % 4);
}

/// What stands between the parts of a chord's text.
pub open spec fn separator() -> Seq<char> {
    seq![' ', '+', ' ']
}

/// The text a chord is shown as, given the host's texts for its modifier set
/// and its key: modifiers, key and edge in this order. A chord without a
/// modifier is shown as key and edge alone.
pub open spec fn chord_text(chord: KeyEvent, modifier_text: Seq<char>, key_text: Seq<char>) -> Seq<
    char,
> {
    let shown = key_text + separator() + edge_text(chord.edge);
    if chord.modifier == 0 {
        shown
    } else {
        modifier_text + separator() + shown
    }
}

impl KeyEvent {
    /// The chord of `key` under `modifier` at `edge`.
    pub fn new(key: u32, modifier: u8, edge: KeyEdge) -> (chord: KeyEvent)
        ensures
            chord == (KeyEvent { key, modifier, edge }),
    {
        KeyEvent { key, modifier, edge }
    }

    /// The text this chord is shown as. The host names the modifier set and
    /// the key; `modifier_text` is not read for a chord without a modifier.
    pub fn label(&self, modifier_text: &str, key_text: &str) -> (text: String)
        ensures
            text@ == chord_text(*self, modifier_text@, key_text@),
    {
        proof {
            reveal_strlit(" + ");
        }
        let edge = self.edge.label();
        let mut text = String::new();
        if self.modifier != 0 {
            text.append(modifier_text);
            text.append(" + ");
        }
        text.append(key_text);
        text.append(" + ");
        text.append(edge.as_str());
        assert(text@ =~= chord_text(*self, modifier_text@, key_text@));
        text
    }

    /// The number this chord is filed under.
    pub fn code(&self) -> (code: u64)
        ensures
            code == chord_code(*self),
    {
        let edge: u64 = match self.edge {
            KeyEdge::DOWN => 0,
            KeyEdge::UP => 1,
            KeyEdge::HELD => 2,
        };
        self.key as u64 * 1024 + self.modifier as u64 * 4 + edge
    }

    /// The chord filed under `code`, if `code` is the number of a chord.
    pub fn from_code(code: u64) -> (chord: Option<KeyEvent>)
        ensures
            chord == (if is_chord_code(code) {
                Some(chord_at(code))
            } else {
                None::<KeyEvent>
            }),
    {
        let low: u64 = code % 1024;
        let rest: u64 = low % 4;
        if code / 1024 > 0xffff_ffff || rest > 2 {
            return None;
        }
        Some(
            KeyEvent {
                key: (code / 1024) as u32,
                modifier: (low / 4) as u8,
                edge: if rest == 0 {
                    KeyEdge::DOWN
                } else if rest == 1 {
                    KeyEdge::UP
                } else {
                    KeyEdge::HELD
                },
            },
        )
    }
}

} // verus!
