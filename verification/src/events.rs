//! Decisions of the voice-membership layer: what a voice-state change means,
//! and whether the bot was left alone in its channel. The gateway events and
//! the join/leave calls themselves happen at the edge; these functions take
//! the states as plain values.
use vstd::prelude::*;

verus! {

/// Subscribes to the transport driver's voice events; the driver invokes it
/// for each event class it was registered under.
pub struct VoiceReceiver {}

impl VoiceReceiver {
    pub fn new() -> (r: VoiceReceiver) {
        VoiceReceiver {  }
    }
}

/// What one voice-state update means for a user or for the bot. Room and
/// channel are identified by their numeric ids.
#[derive(Clone, Copy, Debug, PartialEq, Eq, Structural)]
pub enum VoiceTransition {
    /// Joined a voice channel from nowhere.
    Joined { guild: u64, channel: u64 },
    /// Moved between two channels of the same room.
    Moved { guild: u64, from: u64, to: u64 },
    /// Left voice entirely.
    Left { guild: u64 },
    /// Anything else: muting, deafening, or a cross-room artifact.
    Ignored,
}

/// How a pair of old and new `(room, channel)` placements classifies: a join
/// from nowhere, a move within one room to a different channel, a departure,
/// and nothing else.
pub open spec fn transition_spec(
    old_place: Option<(u64, u64)>,
    new_place: Option<(u64, u64)>,
) -> VoiceTransition {
    match (old_place, new_place) {
        (None, Some((guild, channel))) => VoiceTransition::Joined { guild, channel },
        (Some((og, oc)), Some((ng, nc))) => if og == ng && oc != nc {
            VoiceTransition::Moved { guild: ng, from: oc, to: nc }
        } else {
            VoiceTransition::Ignored
        },
        (Some((guild, _)), None) => VoiceTransition::Left { guild },
        (None, None) => VoiceTransition::Ignored,
    }
}

/// Classifies one voice-state update from the old and new placements.
pub fn classify_transition(old_place: Option<(u64, u64)>, new_place: Option<(u64, u64)>) -> (r:
    VoiceTransition)
    ensures
        r == transition_spec(old_place, new_place),
{
    match (old_place, new_place) {
        (None, Some((guild, channel))) => VoiceTransition::Joined { guild, channel },
        (Some((og, oc)), Some((ng, nc))) => {
            if og == ng && oc != nc {
                VoiceTransition::Moved { guild: ng, from: oc, to: nc }
            } else {
                VoiceTransition::Ignored
            }
        },
        (Some((guild, _)), None) => VoiceTransition::Left { guild },
        (None, None) => VoiceTransition::Ignored,
    }
}

/// One member's voice state, as far as the alone-check cares: where they
/// are, and whether they are a bot (bots do not keep the player alive).
#[derive(Clone, Copy, Debug, PartialEq, Eq, Structural)]
pub struct VoiceOccupant {
    /// The channel the member is in, if any.
    pub channel: Option<u64>,
    /// Whether the member is a bot.
    pub is_bot: bool,
}

/// How many human occupants share the given channel.
pub open spec fn humans_in(states: Seq<VoiceOccupant>, channel: Option<u64>) -> nat
    decreases states.len(),
{
    if states.len() == 0 {
        0
    } else {
        humans_in(states.drop_last(), channel) + (if states.last().channel == channel
            && !states.last().is_bot {
            1nat
        } else {
            0nat
        })
    }
}

/// The bot is alone exactly when no human shares its channel; the bot then
/// leaves, or follows the user who moved.
pub fn bot_left_alone(states: &Vec<VoiceOccupant>, bot_channel: Option<u64>) -> (r: bool)
    ensures
        r == (humans_in(states@, bot_channel) == 0),
{
    let mut i: usize = 0;
    while i < states.len()
        invariant
            i <= states@.len(),
            humans_in(states@.take(i as int), bot_channel) == 0,
        decreases states@.len() - i,
    {
        let occupant = states[i];
        proof {
            assert(states@.take(i + 1).drop_last() =~= states@.take(i as int));
            assert(states@.take(i + 1).last() == states@[i as int]);
        }
        let same_channel: bool = match (occupant.channel, bot_channel) {
            (Some(a), Some(b)) => a == b,
            (None, None) => true,
            _ => false,
        };
        if same_channel && !occupant.is_bot {
            proof {
                lemma_humans_prefix(states@, bot_channel, i + 1);
            }
            return false;
        }
        i += 1;
    }
    proof {
        assert(states@.take(i as int) =~= states@);
    }
    true
}

/// Counting over a prefix never counts more than the whole.
proof fn lemma_humans_prefix(states: Seq<VoiceOccupant>, channel: Option<u64>, i: int)
    requires
        0 <= i <= states.len(),
    ensures
        humans_in(states.take(i), channel) <= humans_in(states, channel),
    decreases states.len() - i,
{
    if i < states.len() {
        lemma_humans_prefix(states, channel, i + 1);
        assert(states.take(i + 1).drop_last() =~= states.take(i));
        assert(humans_in(states.take(i + 1), channel) >= humans_in(states.take(i), channel));
    } else {
        assert(states.take(i) =~= states);
    }
}

} // verus!
