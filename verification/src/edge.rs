use vstd::prelude::*;

verus! {

/// The kind of transition a binding listens for: the key going down, the key
/// coming up, or the key being held across update ticks.
#[derive(Clone, Copy, Debug, PartialEq, Eq, Hash, Structural)]
pub enum KeyEdge {
    DOWN,
    UP,
    HELD,
}

/// Longest hold, in update ticks, that still counts as a plain press.
pub const PRESS_TICKS: usize = 29;

/// Longest hold, in update ticks, that still counts as a sustained hold.
pub const SUSTAIN_TICKS: usize = 59;

/// The edge a captured key is bound to after it was held for `held_ticks`
/// update ticks: a press for a short hold, a sustained hold for a longer
/// one, a release beyond that. A key that was never seen held keeps the
/// edge `current`.
pub open spec fn classified(held_ticks: nat, current: KeyEdge) -> KeyEdge {
    if held_ticks == 0 {
        current
    } else if held_ticks <= PRESS_TICKS {
        KeyEdge::DOWN
    } else if held_ticks <= SUSTAIN_TICKS {
        KeyEdge::HELD
    } else {
        KeyEdge::UP
    }
}

/// The text an edge is shown as.
pub open spec fn edge_text(edge: KeyEdge) -> Seq<char> {
    match edge {
        KeyEdge::DOWN => seq!['D', 'O', 'W', 'N'],
        KeyEdge::UP => seq!['U', 'P'],
        KeyEdge::HELD => seq!['H', 'E', 'L', 'D'],
    }
}

/// Classifies a capture by how long the key was held.
pub fn classify(held_ticks: usize, current: KeyEdge) -> (edge: KeyEdge)
    ensures
        edge == classified(held_ticks as nat, current),
{
    if held_ticks > SUSTAIN_TICKS {
        KeyEdge::UP
    } else if held_ticks > PRESS_TICKS {
        KeyEdge::HELD
    } else if held_ticks > 0 {
        KeyEdge::DOWN
    } else {
        current
    }
}

impl KeyEdge {
    /// The position of the edge among the three kinds.
    pub open spec fn ordinal(self) -> nat {
        match self {
            KeyEdge::DOWN => 0,
            KeyEdge::UP => 1,
            KeyEdge::HELD => 2,
        }
    }

    /// The text the edge is shown as.
    pub fn label(&self) -> (text: String)
        ensures
            text@ == edge_text(*self),
    {
        proof {
            reveal_strlit("DOWN");
            reveal_strlit("UP");
            reveal_strlit("HELD");
        }
        let text = match self {
            KeyEdge::DOWN => "DOWN",
            KeyEdge::UP => "UP",
            KeyEdge::HELD => "HELD",
        };
        assert(text@ =~= edge_text(*self));
        text.to_owned()
    }
}

} // verus!
