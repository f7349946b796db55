//! What a frame tells the outside: the end of a game and the sounds to play.

use vstd::prelude::*;

verus! {

/// The player was destroyed; `score` is the score at that moment.
#[derive(Clone, Copy, Debug, PartialEq, Eq, Structural)]
pub struct GameOver {
    pub score: u32,
}

/// A sound to play.
#[derive(Clone, Copy, Debug, PartialEq, Eq, Structural)]
pub enum Sound {
    /// The player ran into an enemy.
    Explosion,
    /// The player picked up a star.
    Pickup,
    /// An enemy turned round at an edge, first variant.
    BounceOne,
    /// An enemy turned round at an edge, second variant.
    BounceTwo,
}

impl Sound {
    /// Whether this is one of the two bounce sounds.
    pub open spec fn is_bounce(self) -> bool {
        self == Sound::BounceOne || self == Sound::BounceTwo
    }
}

/// The scores carried by a queue of game-over events, in order.
pub open spec fn final_scores(events: Seq<GameOver>) -> Seq<u32> {
    Seq::new(events.len(), |i: int| events[i].score)
}

/// Drains the queue of game-over events and returns the final score of
/// each, oldest first, for the caller to announce.
pub fn handle_game_over(events: &mut Vec<GameOver>) -> (scores: Vec<u32>)
    ensures
        scores@ == final_scores(old(events)@),
        final(events)@.len() == 0,
{
    let mut scores: Vec<u32> = Vec::new();
    let mut i: usize = 0;
    while i < events.len()
        invariant
            i <= events.len(),
            *events == *old(events),
            scores@ == final_scores(events@.take(i as int)),
        decreases events.len() - i,
    {
        scores.push(events[i].score);
        assert(scores@ =~= final_scores(events@.take(i + 1)));
        i = i + 1;
    }
    assert(events@.take(i as int) =~= events@);
    events.clear();
    scores
}

} // verus!
