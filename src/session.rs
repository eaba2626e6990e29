//! Joining a game: the mode a player picks and the names a player may propose.
use vstd::prelude::*;
use vstd::string::*;

use crate::game_state::{has_name, GameState, GameStateView, PlayerView, STARTING_POINTS};
use crate::protocol::StatusType;

verus! {

/// Whether this process hosts a game or joins one.
#[derive(Clone, Copy, Debug, PartialEq, Eq, Structural)]
pub enum Mode {
    HostGame,
    ConnectGame,
}

impl Mode {
    /// The mode picked from the menu: 1 hosts, 2 joins.
    pub fn from_choice(choice: i32) -> (r: Option<Mode>)
        ensures
            r == (if choice == 1 {
                Some(Mode::HostGame)
            } else if choice == 2 {
                Some(Mode::ConnectGame)
            } else {
                None
            }),
    {
        if choice == 1 {
            Some(Mode::HostGame)
        } else if choice == 2 {
            Some(Mode::ConnectGame)
        } else {
            None
        }
    }
}

/// Why a proposed name cannot be sent.
#[derive(Clone, Copy, Debug, PartialEq, Eq, Structural)]
pub enum ClientError {
    /// The name holds a character that is not printable ASCII, or a colon
    /// (which separates a name from its points in a game snapshot).
    InvalidCharacterFound,
    /// The name holds a comma, which separates fields on the wire.
    CommaFound,
    /// The name is empty.
    EmptyName,
}

/// A character that a name may hold.
pub open spec fn name_char_ok(c: char) -> bool {
    ' ' <= c <= '~' && c != ':' && c != ','
}

/// Whether a proposed name can be sent, and if not, why.
pub open spec fn name_check(s: Seq<char>) -> Result<(), ClientError> {
    if s.len() == 0 {
        Err(ClientError::EmptyName)
    } else if s.contains(',') {
        Err(ClientError::CommaFound)
    } else if exists|i: int| 0 <= i < s.len() && !name_char_ok(#[trigger] s[i]) {
        Err(ClientError::InvalidCharacterFound)
    } else {
        Ok(())
    }
}

/// Checks a proposed name: non-empty, printable ASCII, no comma or colon.
pub fn validate_name(name: &str) -> (r: Result<(), ClientError>)
    ensures
        r == name_check(name@),
{
    let n = name.unicode_len();
    if n == 0 {
        return Err(ClientError::EmptyName);
    }
    let mut i: usize = 0;
    let mut bad = false;
    while i < n
        invariant
            n == name@.len(),
            0 <= i <= n,
            forall|k: int| 0 <= k < i ==> name@[k] != ',',
            bad <==> exists|k: int| 0 <= k < i && !name_char_ok(#[trigger] name@[k]),
        decreases n - i,
    {
        let c = name.get_char(i);
        if c == ',' {
            assert(name@.contains(','));
            return Err(ClientError::CommaFound);
        }
        if c < ' ' || c > '~' || c == ':' {
            bad = true;
        }
        i = i + 1;
    }
    if bad {
        Err(ClientError::InvalidCharacterFound)
    } else {
        Ok(())
    }
}

/// The answer to a capacity check: `Yes` while a seat is free.
pub fn capacity_status(joined: usize, max_players: usize) -> (r: StatusType)
    ensures
        r == (if joined < max_players {
            StatusType::Yes
        } else {
            StatusType::No
        }),
{
    if joined < max_players {
        StatusType::Yes
    } else {
        StatusType::No
    }
}

/// Where one connection stands in the host's join handshake.
#[derive(Clone, Copy, Debug, PartialEq, Eq, Structural)]
pub enum JoinPhase {
    /// Connected; its first request asks whether a seat is free.
    AwaitingCapacityCheck,
    /// Seated; the host asks it for a name.
    AwaitingName,
    /// A name has arrived; its next request asks whether it was accepted.
    AwaitingNameStatus,
    /// Registered under its name.
    Joined,
    /// Turned away: every further capacity check is answered `No`.
    Rejected,
}

/// What arrives from the connection during the handshake.
#[derive(Clone, Debug, PartialEq)]
pub enum JoinEvent {
    /// A `REQ,STATUS` request.
    StatusRequested,
    /// The name in a `RES,NAME` response.
    NameReceived(String),
}

/// What a `JoinEvent` holds.
pub enum JoinEventView {
    StatusRequested,
    NameReceived(Seq<char>),
}

impl View for JoinEvent {
    type V = JoinEventView;

    open spec fn view(&self) -> JoinEventView {
        match self {
            JoinEvent::StatusRequested => JoinEventView::StatusRequested,
            JoinEvent::NameReceived(n) => JoinEventView::NameReceived(n@),
        }
    }
}

/// An event that the handshake does not expect in its phase.
#[derive(Clone, Copy, Debug, PartialEq, Eq, Structural)]
pub enum JoinError {
    UnexpectedEvent,
}

/// The host's side of one connection's join handshake.
pub struct Negotiator {
    phase: JoinPhase,
    candidate: String,
}

/// What a `Negotiator` holds: the phase, and the last name proposed.
pub struct NegotiatorView {
    pub phase: JoinPhase,
    pub candidate: Seq<char>,
}

impl View for Negotiator {
    type V = NegotiatorView;

    closed spec fn view(&self) -> NegotiatorView {
        NegotiatorView { phase: self.phase, candidate: self.candidate@ }
    }
}

/// One step of the handshake: the next phase, the registry after it, and the
/// status to send back, if any. `seats_taken` connections of at most
/// `max_players` are already seated.
pub open spec fn join_step(
    n: NegotiatorView,
    g: GameStateView,
    seats_taken: nat,
    max_players: nat,
    e: JoinEventView,
) -> Result<(NegotiatorView, GameStateView, Option<StatusType>), JoinError> {
    match (n.phase, e) {
        (JoinPhase::AwaitingCapacityCheck, JoinEventView::StatusRequested) => if seats_taken
            < max_players {
            Ok((NegotiatorView { phase: JoinPhase::AwaitingName, ..n }, g, Some(StatusType::Yes)))
        } else {
            Ok((NegotiatorView { phase: JoinPhase::Rejected, ..n }, g, Some(StatusType::No)))
        },
        (JoinPhase::Rejected, JoinEventView::StatusRequested) => Ok((n, g, Some(StatusType::No))),
        (JoinPhase::AwaitingName, JoinEventView::NameReceived(name)) => Ok(
            (NegotiatorView { phase: JoinPhase::AwaitingNameStatus, candidate: name }, g, None),
        ),
        (JoinPhase::AwaitingNameStatus, JoinEventView::StatusRequested) => if has_name(
            g.players,
            n.candidate,
        ) {
            Ok((NegotiatorView { phase: JoinPhase::AwaitingName, ..n }, g, Some(StatusType::No)))
        } else {
            Ok(
                (
                    NegotiatorView { phase: JoinPhase::Joined, ..n },
                    GameStateView {
                        players: g.players.push(
                            PlayerView { name: n.candidate, points: STARTING_POINTS },
                        ),
                        current: g.current,
                    },
                    Some(StatusType::Yes),
                ),
            )
        },
        _ => Err(JoinError::UnexpectedEvent),
    }
}

impl Negotiator {
    /// A connection that has just arrived.
    pub fn new() -> (r: Negotiator)
        ensures
            r@ == (NegotiatorView {
                phase: JoinPhase::AwaitingCapacityCheck,
                candidate: Seq::<char>::empty(),
            }),
    {
        Negotiator { phase: JoinPhase::AwaitingCapacityCheck, candidate: String::new() }
    }

    pub fn phase(&self) -> (r: JoinPhase)
        ensures
            r == self@.phase,
    {
        self.phase
    }

    /// The last name proposed on this connection.
    pub fn candidate(&self) -> (r: &str)
        ensures
            r@ == self@.candidate,
    {
        self.candidate.as_str()
    }

    /// Takes one event of the handshake and returns the status to send back,
    /// if any. A name is registered only when its status is asked for and no
    /// player has it yet.
    pub fn handle(
        &mut self,
        registry: &mut GameState,
        seats_taken: usize,
        max_players: usize,
        event: JoinEvent,
    ) -> (r: Result<Option<StatusType>, JoinError>)
        requires
            old(registry).wf(),
        ensures
            final(registry).wf(),
            match (
                r,
                join_step(
                    old(self)@,
                    old(registry)@,
                    seats_taken as nat,
                    max_players as nat,
                    event@,
                ),
            ) {
                (Ok(s), Ok((n, g, t))) => final(self)@ == n && final(registry)@ == g && s == t,
                (Err(e), Err(f)) => e == f && final(self)@ == old(self)@ && final(registry)@ == old(
                    registry,
                )@,
                _ => false,
            },
    {
        match (self.phase, event) {
            (JoinPhase::AwaitingCapacityCheck, JoinEvent::StatusRequested) => {
                let status = capacity_status(seats_taken, max_players);
                self.phase =
                    if status == StatusType::Yes {
                        JoinPhase::AwaitingName
                    } else {
                        JoinPhase::Rejected
                    };
                Ok(Some(status))
            },
            (JoinPhase::Rejected, JoinEvent::StatusRequested) => Ok(Some(StatusType::No)),
            (JoinPhase::AwaitingName, JoinEvent::NameReceived(name)) => {
                self.candidate = name;
                self.phase = JoinPhase::AwaitingNameStatus;
                Ok(None)
            },
            (JoinPhase::AwaitingNameStatus, JoinEvent::StatusRequested) => {
                let status = registry.try_join(self.candidate.as_str());
                self.phase =
                    if status == StatusType::Yes {
                        JoinPhase::Joined
                    } else {
                        JoinPhase::AwaitingName
                    };
                Ok(Some(status))
            },
            _ => Err(JoinError::UnexpectedEvent),
        }
    }
}

} // verus!
