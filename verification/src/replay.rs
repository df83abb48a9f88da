use vstd::prelude::*;

verus! {

/// Netplay identity recorded for a participant: connect code and display
/// name, as decoded from the replay.
pub struct NetIdentity {
    pub code: String,
    pub name: String,
}

impl Clone for NetIdentity {
    fn clone(&self) -> (res: Self)
        ensures
            res == *self,
    {
        NetIdentity { code: self.code.clone(), name: self.name.clone() }
    }
}

/// One competitor in a match: the raw character id it played and, for
/// netplay games, its recorded identity.
pub struct Participant {
    pub character: u8,
    pub netplay: Option<NetIdentity>,
}

impl Clone for Participant {
    fn clone(&self) -> (res: Self)
        ensures
            res == *self,
    {
        Participant {
            character: self.character,
            netplay: match &self.netplay {
                Some(n) => Some(n.clone()),
                None => None,
            },
        }
    }
}

/// Placement of one participant at game end; placement 0 marks the winner.
#[derive(Clone, Copy, PartialEq, Eq, Structural)]
pub struct EndPlayer {
    pub port: u8,
    pub placement: u8,
}

/// The outcome section of a match, present when the replay recorded how the
/// game ended; its per-participant records may still be absent on old
/// replay versions.
pub struct Outcome {
    pub players: Option<Vec<EndPlayer>>,
}

/// One decoded match: up to four participants ordered by port, and the
/// optional outcome section.
pub struct Match {
    pub players: Vec<Participant>,
    pub end: Option<Outcome>,
}

/// Participant standing at the given port, if the port is valid (0 through
/// 3) and taken; any other port value resolves to no participant.
pub open spec fn spec_player_from_port(m: Match, port: int) -> Option<Participant> {
    if 0 <= port <= 3 && port < m.players@.len() {
        Some(m.players@[port])
    } else {
        None
    }
}

pub fn get_player_from_port(game: &Match, port: usize) -> (p: Option<Participant>)
    ensures
        p == spec_player_from_port(*game, port as int),
        3 < port ==> p is None,
{
    if port <= 3 && port < game.players.len() {
        Some(game.players[port].clone())
    } else {
        None
    }
}

/// First end-of-game record with placement 0, scanning in recorded order.
pub open spec fn spec_first_winner_end(s: Seq<EndPlayer>) -> Option<EndPlayer>
    decreases s.len(),
{
    if s.len() == 0 {
        None
    } else if s[0].placement == 0 {
        Some(s[0])
    } else {
        spec_first_winner_end(s.drop_first())
    }
}

/// Winning participant of a match, if a decision was recorded: the outcome
/// section must be present, some record in it must carry placement 0, and
/// the winning record's port must resolve to a participant; in every other
/// case the match has no winner.
pub open spec fn spec_winner(m: Match) -> Option<Participant> {
    match m.end {
        None => None,
        Some(end) => match end.players {
            None => None,
            Some(ps) => match spec_first_winner_end(ps@) {
                None => None,
                Some(e) => spec_player_from_port(m, e.port as int),
            },
        },
    }
}

#[verifier::loop_isolation(false)]
pub fn get_winner(game: &Match) -> (w: Option<Participant>)
    ensures
        w == spec_winner(*game),
        game.end is None ==> w is None,
{
    let end = match &game.end {
        None => {
            return None;
        },
        Some(e) => e,
    };
    let players = match &end.players {
        None => {
            return None;
        },
        Some(ps) => ps,
    };
    let mut i: usize = 0;
    proof {
        assert(players@.skip(0) =~= players@);
    }
    while i < players.len()
        invariant
            i <= players@.len(),
            spec_first_winner_end(players@) == spec_first_winner_end(players@.skip(i as int)),
        decreases players@.len() - i,
    {
        proof {
            assert(players@.skip(i as int)[0] == players@[i as int]);
        }
        if players[i].placement == 0 {
            return get_player_from_port(game, players[i].port as usize);
        }
        proof {
            assert(players@.skip(i as int).drop_first() =~= players@.skip(i as int + 1));
        }
        i += 1;
    }
    None
}

} // verus!
