//! The wire codec: requests and responses as single comma-separated lines.
//!
//! A request is `REQ,<TYPE>`; a response is `RES,<TYPE>,<payload...>`, with
//! `TYPE` one of `NAME`, `STATUS`, `ACT` and `GAME`. Field values cannot hold a
//! comma, and player names inside a game snapshot cannot hold a colon.
use vstd::prelude::*;
use vstd::string::*;

use crate::card::{is_number_value, suit_color, Card, Color, Value};
use crate::game_state::{GameState, GameStateView, PlayerDetails, PlayerView};
use crate::text::{
    all_free_of, decimal, decimal_text, join_fields, join_with, parse_decimal, parse_number,
    same_text, split_fields, split_on, views,
};

verus! {

/// What kind of response a request asks for.
#[derive(Clone, Copy, Debug, PartialEq, Eq, Structural)]
pub enum RequestType {
    /// `REQ,NAME`
    Name,
    /// `REQ,STATUS`
    Status,
    /// `REQ,ACT`
    PlayerAction,
    /// `REQ,GAME`
    GameState,
}

/// A request: it carries no payload, only the kind of response expected next.
#[derive(Clone, Copy, Debug, PartialEq, Eq, Structural)]
pub struct Request {
    request_type: RequestType,
}

#[derive(Clone, Copy, Debug, PartialEq, Eq, Structural)]
pub enum RequestParseError {
    /// The line does not start with `REQ`.
    NotARequest,
    /// The line does not have exactly two fields.
    InvalidNumArguments,
    /// The type field is not one of the known types.
    InvalidType,
}

/// The answer to a yes/no question, written `Y` or `N`.
#[derive(Clone, Copy, Debug, PartialEq, Eq, Structural)]
pub enum StatusType {
    Yes,
    No,
}

/// What a player does, written as a one-letter symbol.
#[derive(Clone, Copy, Debug, PartialEq, Eq, Structural)]
pub enum ActionType {
    PlayKing,
    PlayQueen,
    PlayJack,
    PlayNumber,
    PlayBlackAce,
    PlayRedAce,
    TurnStart,
    TurnEnd,
}

/// One move: its kind, an attachment (0 for none), the acting player and the
/// target player. Written `<SYMBOL>,<ATTACHMENT>,<FROM>,<TO>`.
#[derive(Clone, Debug, PartialEq)]
pub struct Action {
    action_type: ActionType,
    attachment: u16,
    from_player: String,
    to_player: String,
}

/// What an `Action` holds.
pub struct ActionView {
    pub kind: ActionType,
    pub attachment: u16,
    pub from: Seq<char>,
    pub to: Seq<char>,
}

#[derive(Clone, Copy, Debug, PartialEq, Eq, Structural)]
pub enum ActionParseError {
    /// The symbol is not one of `K Q J N B R S E`.
    InvalidType,
    /// The attachment is not a decimal number that fits 16 bits.
    InvalidAttachment,
    /// The action does not have exactly four fields.
    InvalidNumArguments,
}

/// A response of each kind, with its payload when it has one. A response
/// without a payload names the kind that a caller waits for.
#[derive(Clone, Debug, PartialEq)]
pub enum ResponseType {
    /// `RES,NAME,<NAME>`
    Name(Option<String>),
    /// `RES,STATUS,<Y or N>`
    Status(Option<StatusType>),
    /// `RES,ACT,<SYMBOL>,<ATTACHMENT>,<FROM>,<TO>`
    PlayerAction(Option<Action>),
    /// `RES,GAME,<NUM_PLAYERS>,<NAME>:<POINTS>,...`
    GameState(Option<GameState>),
}

/// What a `ResponseType` holds.
pub enum ResponseView {
    Name(Option<Seq<char>>),
    Status(Option<StatusType>),
    PlayerAction(Option<ActionView>),
    GameState(Option<GameStateView>),
}

/// A response, sent in answer to a request of the same kind.
#[derive(Clone, Debug, PartialEq)]
pub struct Response {
    response_type: ResponseType,
}

#[derive(Clone, Copy, Debug, PartialEq, Eq, Structural)]
pub enum ResponseParseError {
    /// Too many or too few fields for the declared type.
    InvalidNumArguments,
    /// The line does not start with `RES`.
    NotAResponse,
    /// The type field is not one of the known types.
    InvalidType,
    /// A name response without its name.
    ExpectedName,
    /// A game response without its player count.
    ExpectedNumPlayers,
    /// A status response without `Y` or `N`.
    ExpectedStatus,
    /// The action payload is malformed, for the reason given.
    UnableToParseAction(ActionParseError),
    /// A count or a number of points is not a decimal number of the right size.
    ParseIntError,
}

impl View for Request {
    type V = RequestType;

    closed spec fn view(&self) -> RequestType {
        self.request_type
    }
}

impl View for Action {
    type V = ActionView;

    closed spec fn view(&self) -> ActionView {
        ActionView {
            kind: self.action_type,
            attachment: self.attachment,
            from: self.from_player@,
            to: self.to_player@,
        }
    }
}

impl View for ResponseType {
    type V = ResponseView;

    open spec fn view(&self) -> ResponseView {
        match self {
            ResponseType::Name(n) => ResponseView::Name(
                match n {
                    Some(s) => Some(s@),
                    None => None,
                },
            ),
            ResponseType::Status(s) => ResponseView::Status(*s),
            ResponseType::PlayerAction(a) => ResponseView::PlayerAction(
                match a {
                    Some(x) => Some(x@),
                    None => None,
                },
            ),
            ResponseType::GameState(g) => ResponseView::GameState(
                match g {
                    Some(x) => Some(x@),
                    None => None,
                },
            ),
        }
    }
}

impl View for Response {
    type V = ResponseView;

    closed spec fn view(&self) -> ResponseView {
        self.response_type@
    }
}

// ---- the grammar, as spec functions ----

pub open spec fn type_tag(t: RequestType) -> Seq<char> {
    match t {
        RequestType::Name => "NAME"@,
        RequestType::Status => "STATUS"@,
        RequestType::PlayerAction => "ACT"@,
        RequestType::GameState => "GAME"@,
    }
}

pub open spec fn type_of_tag(s: Seq<char>) -> Option<RequestType> {
    if s == "NAME"@ {
        Some(RequestType::Name)
    } else if s == "STATUS"@ {
        Some(RequestType::Status)
    } else if s == "ACT"@ {
        Some(RequestType::PlayerAction)
    } else if s == "GAME"@ {
        Some(RequestType::GameState)
    } else {
        None
    }
}

pub open spec fn symbol(k: ActionType) -> Seq<char> {
    match k {
        ActionType::PlayKing => "K"@,
        ActionType::PlayQueen => "Q"@,
        ActionType::PlayJack => "J"@,
        ActionType::PlayNumber => "N"@,
        ActionType::PlayBlackAce => "B"@,
        ActionType::PlayRedAce => "R"@,
        ActionType::TurnStart => "S"@,
        ActionType::TurnEnd => "E"@,
    }
}

pub open spec fn kind_of_symbol(s: Seq<char>) -> Option<ActionType> {
    if s == "K"@ {
        Some(ActionType::PlayKing)
    } else if s == "Q"@ {
        Some(ActionType::PlayQueen)
    } else if s == "J"@ {
        Some(ActionType::PlayJack)
    } else if s == "N"@ {
        Some(ActionType::PlayNumber)
    } else if s == "B"@ {
        Some(ActionType::PlayBlackAce)
    } else if s == "R"@ {
        Some(ActionType::PlayRedAce)
    } else if s == "S"@ {
        Some(ActionType::TurnStart)
    } else if s == "E"@ {
        Some(ActionType::TurnEnd)
    } else {
        None
    }
}

pub open spec fn status_text(s: StatusType) -> Seq<char> {
    match s {
        StatusType::Yes => "Y"@,
        StatusType::No => "N"@,
    }
}

pub open spec fn status_of_text(s: Seq<char>) -> Option<StatusType> {
    if s == "Y"@ {
        Some(StatusType::Yes)
    } else if s == "N"@ {
        Some(StatusType::No)
    } else {
        None
    }
}

/// The kind of a response, as the request that asks for it names it.
pub open spec fn response_kind(r: ResponseView) -> RequestType {
    match r {
        ResponseView::Name(_) => RequestType::Name,
        ResponseView::Status(_) => RequestType::Status,
        ResponseView::PlayerAction(_) => RequestType::PlayerAction,
        ResponseView::GameState(_) => RequestType::GameState,
    }
}

pub open spec fn request_fields(t: RequestType) -> Seq<Seq<char>> {
    seq!["REQ"@, type_tag(t)]
}

pub open spec fn encode_request(t: RequestType) -> Seq<char> {
    join_with(request_fields(t), ',')
}

pub open spec fn decode_request(s: Seq<char>) -> Result<RequestType, RequestParseError> {
    let fs = split_on(s, ',');
    if fs[0] != "REQ"@ {
        Err(RequestParseError::NotARequest)
    } else if fs.len() != 2 {
        Err(RequestParseError::InvalidNumArguments)
    } else {
        match type_of_tag(fs[1]) {
            Some(t) => Ok(t),
            None => Err(RequestParseError::InvalidType),
        }
    }
}

pub open spec fn action_fields(a: ActionView) -> Seq<Seq<char>> {
    seq![symbol(a.kind), decimal(a.attachment as nat), a.from, a.to]
}

pub open spec fn encode_action(a: ActionView) -> Seq<char> {
    join_with(action_fields(a), ',')
}

pub open spec fn decode_action_fields(fs: Seq<Seq<char>>) -> Result<ActionView, ActionParseError> {
    if fs.len() != 4 {
        Err(ActionParseError::InvalidNumArguments)
    } else {
        match kind_of_symbol(fs[0]) {
            None => Err(ActionParseError::InvalidType),
            Some(k) => match parse_decimal(fs[1], 0xFFFF) {
                None => Err(ActionParseError::InvalidAttachment),
                Some(n) => Ok(ActionView { kind: k, attachment: n as u16, from: fs[2], to: fs[3] }),
            },
        }
    }
}

pub open spec fn decode_action(s: Seq<char>) -> Result<ActionView, ActionParseError> {
    decode_action_fields(split_on(s, ','))
}

/// One player of a snapshot: `<NAME>:<POINTS>`.
pub open spec fn entry_text(p: PlayerView) -> Seq<char> {
    p.name.push(':') + decimal(p.points as nat)
}

pub open spec fn game_fields(g: GameStateView) -> Seq<Seq<char>> {
    seq![decimal(g.players.len())] + g.players.map_values(|p: PlayerView| entry_text(p))
}

pub open spec fn encode_game(g: GameStateView) -> Seq<char> {
    join_with(game_fields(g), ',')
}

pub open spec fn decode_entry(e: Seq<char>) -> Result<PlayerView, ResponseParseError> {
    let parts = split_on(e, ':');
    if parts.len() != 2 {
        Err(ResponseParseError::InvalidNumArguments)
    } else {
        match parse_decimal(parts[1], 0xFFFF) {
            None => Err(ResponseParseError::ParseIntError),
            Some(n) => Ok(PlayerView { name: parts[0], points: n as u16 }),
        }
    }
}

/// The players of a snapshot, or the error of the first entry that is malformed.
pub open spec fn decode_entries(es: Seq<Seq<char>>) -> Result<Seq<PlayerView>, ResponseParseError>
    decreases es.len(),
{
    if es.len() == 0 {
        Ok(Seq::<PlayerView>::empty())
    } else {
        match decode_entries(es.drop_last()) {
            Err(e) => Err(e),
            Ok(ps) => match decode_entry(es.last()) {
                Err(e) => Err(e),
                Ok(p) => Ok(ps.push(p)),
            },
        }
    }
}

/// A snapshot from its fields: the player count, then one entry per player.
/// A decoded snapshot gives the turn to the first player.
pub open spec fn decode_game_fields(fs: Seq<Seq<char>>) -> Result<GameStateView, ResponseParseError> {
    if fs.len() == 0 {
        Err(ResponseParseError::ExpectedNumPlayers)
    } else {
        match parse_decimal(fs[0], 0xFF) {
            None => Err(ResponseParseError::ParseIntError),
            Some(n) => if fs.len() != n + 1 {
                Err(ResponseParseError::InvalidNumArguments)
            } else {
                match decode_entries(fs.subrange(1, fs.len() as int)) {
                    Err(e) => Err(e),
                    Ok(ps) => Ok(GameStateView { players: ps, current: 0 }),
                }
            },
        }
    }
}

pub open spec fn decode_game(s: Seq<char>) -> Result<GameStateView, ResponseParseError> {
    decode_game_fields(split_on(s, ','))
}

pub open spec fn response_fields(r: ResponseView) -> Seq<Seq<char>> {
    let head = seq!["RES"@, type_tag(response_kind(r))];
    match r {
        ResponseView::Name(Some(n)) => head.push(n),
        ResponseView::Status(Some(s)) => head.push(status_text(s)),
        ResponseView::PlayerAction(Some(a)) => head + action_fields(a),
        ResponseView::GameState(Some(g)) => head + game_fields(g),
        _ => head,
    }
}

pub open spec fn encode_response(r: ResponseView) -> Seq<char> {
    join_with(response_fields(r), ',')
}

pub open spec fn decode_response_fields(fs: Seq<Seq<char>>) -> Result<ResponseView, ResponseParseError> {
    if fs.len() == 0 || fs[0] != "RES"@ {
        Err(ResponseParseError::NotAResponse)
    } else if fs.len() < 2 {
        Err(ResponseParseError::InvalidNumArguments)
    } else if fs[1] == "NAME"@ {
        if fs.len() == 2 {
            Err(ResponseParseError::ExpectedName)
        } else if fs.len() > 3 {
            Err(ResponseParseError::InvalidNumArguments)
        } else {
            Ok(ResponseView::Name(Some(fs[2])))
        }
    } else if fs[1] == "STATUS"@ {
        if fs.len() == 2 {
            Err(ResponseParseError::ExpectedStatus)
        } else if fs.len() > 3 {
            Err(ResponseParseError::InvalidNumArguments)
        } else {
            match status_of_text(fs[2]) {
                Some(s) => Ok(ResponseView::Status(Some(s))),
                None => Err(ResponseParseError::ExpectedStatus),
            }
        }
    } else if fs[1] == "ACT"@ {
        match decode_action_fields(fs.subrange(2, fs.len() as int)) {
            Ok(a) => Ok(ResponseView::PlayerAction(Some(a))),
            Err(e) => Err(ResponseParseError::UnableToParseAction(e)),
        }
    } else if fs[1] == "GAME"@ {
        match decode_game_fields(fs.subrange(2, fs.len() as int)) {
            Ok(g) => Ok(ResponseView::GameState(Some(g))),
            Err(e) => Err(e),
        }
    } else {
        Err(ResponseParseError::InvalidType)
    }
}

pub open spec fn decode_response(s: Seq<char>) -> Result<ResponseView, ResponseParseError> {
    decode_response_fields(split_on(s, ','))
}

/// The action kind that playing `c` makes.
pub open spec fn card_action(c: Card) -> ActionType {
    match c.value {
        Value::Ace => match suit_color(c.suit) {
            Color::Black => ActionType::PlayBlackAce,
            Color::Red => ActionType::PlayRedAce,
        },
        Value::Jack => ActionType::PlayJack,
        Value::Queen => ActionType::PlayQueen,
        Value::King => ActionType::PlayKing,
        _ => ActionType::PlayNumber,
    }
}

// ---- executable codec ----

fn push_field(fields: &mut Vec<String>, s: String)
    ensures
        views(final(fields)@) == views(old(fields)@).push(s@),
{
    let ghost before = fields@;
    fields.push(s);
    assert(views(fields@) =~= views(before).push(s@));
}

impl RequestType {
    /// The type's field on the wire.
    pub fn tag(&self) -> (r: &'static str)
        ensures
            r@ == type_tag(*self),
    {
        match self {
            RequestType::Name => "NAME",
            RequestType::Status => "STATUS",
            RequestType::PlayerAction => "ACT",
            RequestType::GameState => "GAME",
        }
    }

    /// The type that a wire field names, if any.
    pub fn from_tag(s: &str) -> (r: Option<RequestType>)
        ensures
            r == type_of_tag(s@),
    {
        if same_text(s, "NAME") {
            Some(RequestType::Name)
        } else if same_text(s, "STATUS") {
            Some(RequestType::Status)
        } else if same_text(s, "ACT") {
            Some(RequestType::PlayerAction)
        } else if same_text(s, "GAME") {
            Some(RequestType::GameState)
        } else {
            None
        }
    }
}

impl Request {
    pub fn new(request_type: RequestType) -> (r: Request)
        ensures
            r@ == request_type,
    {
        Request { request_type }
    }

    /// The request that asks for a response of the kind of `response`.
    pub fn from_response(response: &Response) -> (r: Request)
        ensures
            r@ == response_kind(response@),
    {
        Request { request_type: response.kind() }
    }

    pub fn request_type(&self) -> (r: &RequestType)
        ensures
            *r == self@,
    {
        &self.request_type
    }

    /// The request as a line of the wire format, without the newline.
    pub fn to_string(&self) -> (r: String)
        ensures
            r@ == encode_request(self@),
    {
        let mut fields: Vec<String> = Vec::new();
        push_field(&mut fields, String::from_str("REQ"));
        push_field(&mut fields, String::from_str(self.request_type.tag()));
        assert(views(fields@) =~= request_fields(self@));
        join_fields(&fields)
    }

    /// Reads a request from a line of the wire format.
    pub fn parse(s: &str) -> (r: Result<Request, RequestParseError>)
        ensures
            match (r, decode_request(s@)) {
                (Ok(q), Ok(t)) => q@ == t,
                (Err(e), Err(f)) => e == f,
                _ => false,
            },
    {
        let fields = split_fields(s, ',');
        proof {
            crate::text::lemma_split_len(s@, ',');
        }
        if !same_text(fields[0].as_str(), "REQ") {
            return Err(RequestParseError::NotARequest);
        }
        if fields.len() != 2 {
            return Err(RequestParseError::InvalidNumArguments);
        }
        match RequestType::from_tag(fields[1].as_str()) {
            Some(t) => Ok(Request { request_type: t }),
            None => Err(RequestParseError::InvalidType),
        }
    }
}

impl std::str::FromStr for Request {
    type Err = RequestParseError;

    /// Reads a request from a line of the wire format; see `Request::parse`.
    fn from_str(s: &str) -> (r: Result<Request, RequestParseError>)
        ensures
            match (r, decode_request(s@)) {
                (Ok(q), Ok(t)) => q@ == t,
                (Err(e), Err(f)) => e == f,
                _ => false,
            },
    {
        Request::parse(s)
    }
}

impl StatusType {
    /// The status's field on the wire.
    pub fn text(&self) -> (r: &'static str)
        ensures
            r@ == status_text(*self),
    {
        match self {
            StatusType::Yes => "Y",
            StatusType::No => "N",
        }
    }

    /// The status that a wire field names, if any.
    pub fn from_text(s: &str) -> (r: Option<StatusType>)
        ensures
            r == status_of_text(s@),
    {
        if same_text(s, "Y") {
            Some(StatusType::Yes)
        } else if same_text(s, "N") {
            Some(StatusType::No)
        } else {
            None
        }
    }
}

impl ActionType {
    /// The one-letter symbol of the kind on the wire.
    pub fn to_symbol(&self) -> (r: &'static str)
        ensures
            r@ == symbol(*self),
    {
        match self {
            ActionType::PlayKing => "K",
            ActionType::PlayQueen => "Q",
            ActionType::PlayJack => "J",
            ActionType::PlayNumber => "N",
            ActionType::PlayBlackAce => "B",
            ActionType::PlayRedAce => "R",
            ActionType::TurnStart => "S",
            ActionType::TurnEnd => "E",
        }
    }

    /// The kind that a symbol names, if any.
    pub fn from_symbol(s: &str) -> (r: Option<ActionType>)
        ensures
            r == kind_of_symbol(s@),
    {
        if same_text(s, "K") {
            Some(ActionType::PlayKing)
        } else if same_text(s, "Q") {
            Some(ActionType::PlayQueen)
        } else if same_text(s, "J") {
            Some(ActionType::PlayJack)
        } else if same_text(s, "N") {
            Some(ActionType::PlayNumber)
        } else if same_text(s, "B") {
            Some(ActionType::PlayBlackAce)
        } else if same_text(s, "R") {
            Some(ActionType::PlayRedAce)
        } else if same_text(s, "S") {
            Some(ActionType::TurnStart)
        } else if same_text(s, "E") {
            Some(ActionType::TurnEnd)
        } else {
            None
        }
    }
}

impl Action {
    pub fn new(action_type: ActionType, attachment: u16, from_player: String, to_player: String) -> (r:
        Action)
        ensures
            r@ == (ActionView {
                kind: action_type,
                attachment,
                from: from_player@,
                to: to_player@,
            }),
    {
        Action { action_type, attachment, from_player, to_player }
    }

    pub fn action_type(&self) -> (r: &ActionType)
        ensures
            *r == self@.kind,
    {
        &self.action_type
    }

    pub fn attachment(&self) -> (r: &u16)
        ensures
            *r == self@.attachment,
    {
        &self.attachment
    }

    pub fn from_player(&self) -> (r: &str)
        ensures
            r@ == self@.from,
    {
        self.from_player.as_str()
    }

    pub fn to_player(&self) -> (r: &str)
        ensures
            r@ == self@.to,
    {
        self.to_player.as_str()
    }

    /// The kind of action that playing `card` makes.
    pub fn card_to_action_type(card: &Card) -> (r: ActionType)
        ensures
            r == card_action(*card),
    {
        match card.value {
            Value::Ace => match card.color() {
                Color::Black => ActionType::PlayBlackAce,
                Color::Red => ActionType::PlayRedAce,
            },
            Value::Jack => ActionType::PlayJack,
            Value::Queen => ActionType::PlayQueen,
            Value::King => ActionType::PlayKing,
            _ => ActionType::PlayNumber,
        }
    }

    /// The action as `<SYMBOL>,<ATTACHMENT>,<FROM>,<TO>`.
    pub fn to_string(&self) -> (r: String)
        ensures
            r@ == encode_action(self@),
    {
        let mut fields: Vec<String> = Vec::new();
        push_action_fields(self, &mut fields);
        assert(views(fields@) =~= action_fields(self@));
        join_fields(&fields)
    }

    /// Reads an action from `<SYMBOL>,<ATTACHMENT>,<FROM>,<TO>`.
    pub fn parse(s: &str) -> (r: Result<Action, ActionParseError>)
        ensures
            match (r, decode_action(s@)) {
                (Ok(a), Ok(v)) => a@ == v,
                (Err(e), Err(f)) => e == f,
                _ => false,
            },
    {
        let fields = split_fields(s, ',');
        assert(views(fields@).subrange(0, fields@.len() as int) =~= views(fields@));
        action_from_fields(&fields, 0)
    }
}

fn push_action_fields(a: &Action, fields: &mut Vec<String>)
    ensures
        views(final(fields)@) == views(old(fields)@) + action_fields(a@),
{
    push_field(fields, String::from_str(a.action_type.to_symbol()));
    push_field(fields, decimal_text(a.attachment as u64));
    push_field(fields, a.from_player.clone());
    push_field(fields, a.to_player.clone());
    assert(views(fields@) =~= views(old(fields)@) + action_fields(a@));
}

fn action_from_fields(fields: &Vec<String>, start: usize) -> (r: Result<Action, ActionParseError>)
    requires
        start <= fields@.len(),
    ensures
        match (r, decode_action_fields(views(fields@).subrange(start as int, fields@.len() as int))) {
            (Ok(a), Ok(v)) => a@ == v,
            (Err(e), Err(f)) => e == f,
            _ => false,
        },
{
    let ghost fs = views(fields@).subrange(start as int, fields@.len() as int);
    if fields.len() - start != 4 {
        return Err(ActionParseError::InvalidNumArguments);
    }
    assert(fs[0] == fields@[start as int]@);
    assert(fs[1] == fields@[start + 1]@);
    assert(fs[2] == fields@[start + 2]@);
    assert(fs[3] == fields@[start + 3]@);
    let kind = match ActionType::from_symbol(fields[start].as_str()) {
        Some(k) => k,
        None => return Err(ActionParseError::InvalidType),
    };
    let attachment = match parse_number(fields[start + 1].as_str(), 0xFFFF) {
        Some(n) => n as u16,
        None => return Err(ActionParseError::InvalidAttachment),
    };
    Ok(Action::new(kind, attachment, fields[start + 2].clone(), fields[start + 3].clone()))
}

fn entry_string(p: &PlayerDetails) -> (r: String)
    ensures
        r@ == entry_text(p@),
{
    let mut s = String::from_str(p.name());
    s.append(":");
    crate::text::append_decimal(&mut s, p.points() as u64);
    proof {
        reveal_strlit(":");
        assert(p@.name + ":"@ =~= p@.name.push(':'));
    }
    s
}

fn push_game_fields(g: &GameState, fields: &mut Vec<String>)
    ensures
        views(final(fields)@) == views(old(fields)@) + game_fields(g@),
{
    let players = g.all_players();
    let n = players.len();
    push_field(fields, decimal_text(n as u64));
    let ghost entries = g@.players.map_values(|p: PlayerView| entry_text(p));
    let mut i: usize = 0;
    assert(views(fields@) =~= views(old(fields)@) + seq![decimal(n as nat)] + entries.subrange(0, 0));
    while i < n
        invariant
            n == players@.len(),
            n == g@.players.len(),
            crate::game_state::player_views(players@) == g@.players,
            entries == g@.players.map_values(|p: PlayerView| entry_text(p)),
            0 <= i <= n,
            views(fields@) == views(old(fields)@) + seq![decimal(n as nat)] + entries.subrange(0, i as int),
        decreases n - i,
    {
        let e = entry_string(&players[i]);
        let ghost before = views(fields@);
        push_field(fields, e);
        assert(players@[i as int]@ == g@.players[i as int]);
        assert(entries.subrange(0, i + 1) =~= entries.subrange(0, i as int).push(entries[i as int]));
        assert(views(fields@) =~= views(old(fields)@) + seq![decimal(n as nat)] + entries.subrange(0, i + 1));
        i = i + 1;
    }
    assert(entries.subrange(0, n as int) =~= entries);
    assert(views(fields@) =~= views(old(fields)@) + game_fields(g@));
}

/// A malformed entry decides the result of every longer list of entries.
proof fn lemma_entries_error(es: Seq<Seq<char>>, i: int)
    requires
        0 <= i <= es.len(),
        decode_entries(es.subrange(0, i)) is Err,
    ensures
        decode_entries(es) == decode_entries(es.subrange(0, i)),
    decreases es.len(),
{
    if i == es.len() {
        assert(es.subrange(0, i) =~= es);
    } else {
        assert(es.drop_last().subrange(0, i) =~= es.subrange(0, i));
        lemma_entries_error(es.drop_last(), i);
    }
}

fn game_from_fields(fields: &Vec<String>, start: usize) -> (r: Result<GameState, ResponseParseError>)
    requires
        start <= fields@.len(),
    ensures
        match (r, decode_game_fields(views(fields@).subrange(start as int, fields@.len() as int))) {
            (Ok(g), Ok(v)) => g@ == v && g.wf(),
            (Err(e), Err(f)) => e == f,
            _ => false,
        },
{
    let ghost fs = views(fields@).subrange(start as int, fields@.len() as int);
    if start == fields.len() {
        return Err(ResponseParseError::ExpectedNumPlayers);
    }
    assert(fs[0] == fields@[start as int]@);
    let count = match parse_number(fields[start].as_str(), 0xFF) {
        Some(n) => n,
        None => return Err(ResponseParseError::ParseIntError),
    };
    if fields.len() - start - 1 != count as usize {
        return Err(ResponseParseError::InvalidNumArguments);
    }
    let ghost es = fs.subrange(1, fs.len() as int);
    let mut game = GameState::new();
    let mut k: usize = start + 1;
    assert(es.subrange(0, 0) =~= Seq::<Seq<char>>::empty());
    while k < fields.len()
        invariant
            start + 1 <= k <= fields@.len(),
            fs == views(fields@).subrange(start as int, fields@.len() as int),
            es == fs.subrange(1, fs.len() as int),
            fs.len() > 0,
            parse_decimal(fs[0], 0xFF) == Some(count as nat),
            fs.len() == count + 1,
            game.wf(),
            game@.current == 0,
            decode_entries(es.subrange(0, k - start - 1)) == Ok::<Seq<PlayerView>, ResponseParseError>(game@.players),
        decreases fields@.len() - k,
    {
        let ghost j = k - start - 1;
        assert(es[j] == fields@[k as int]@);
        assert(es.subrange(0, j + 1).drop_last() =~= es.subrange(0, j));
        assert(es.subrange(0, j + 1).last() == es[j]);
        let parts = split_fields(fields[k].as_str(), ':');
        assert(views(parts@) == split_on(es[j], ':'));
        if parts.len() != 2 {
            proof {
                assert(decode_entry(es[j]) == Err::<PlayerView, ResponseParseError>(
                    ResponseParseError::InvalidNumArguments,
                ));
                assert(decode_entries(es.subrange(0, j + 1)) == Err::<Seq<PlayerView>, ResponseParseError>(
                    ResponseParseError::InvalidNumArguments,
                ));
                assert(fs.subrange(1, fs.len() as int) == es);
                lemma_entries_error(es, j + 1);
            }
            return Err(ResponseParseError::InvalidNumArguments);
        }
        let points = match parse_number(parts[1].as_str(), 0xFFFF) {
            Some(p) => p as u16,
            None => {
                proof {
                    assert(views(parts@)[1] == parts@[1]@);
                    assert(decode_entry(es[j]) == Err::<PlayerView, ResponseParseError>(
                        ResponseParseError::ParseIntError,
                    ));
                    assert(decode_entries(es.subrange(0, j + 1)) == Err::<Seq<PlayerView>, ResponseParseError>(
                        ResponseParseError::ParseIntError,
                    ));
                    assert(fs.subrange(1, fs.len() as int) == es);
                    lemma_entries_error(es, j + 1);
                }
                return Err(ResponseParseError::ParseIntError);
            },
        };
        assert(views(parts@)[0] == parts@[0]@);
        assert(views(parts@)[1] == parts@[1]@);
        game.add_player(PlayerDetails::new(parts[0].clone(), points));
        k = k + 1;
    }
    assert(es.subrange(0, es.len() as int) =~= es);
    Ok(game)
}

impl GameState {
    /// The snapshot as `<NUM_PLAYERS>,<NAME>:<POINTS>,...`.
    pub fn to_string(&self) -> (r: String)
        ensures
            r@ == encode_game(self@),
    {
        let mut fields: Vec<String> = Vec::new();
        push_game_fields(self, &mut fields);
        assert(views(fields@) =~= game_fields(self@));
        join_fields(&fields)
    }

    /// Reads a snapshot from `<NUM_PLAYERS>,<NAME>:<POINTS>,...`; the turn
    /// goes to the first player.
    pub fn parse(s: &str) -> (r: Result<GameState, ResponseParseError>)
        ensures
            match (r, decode_game(s@)) {
                (Ok(g), Ok(v)) => g@ == v && g.wf(),
                (Err(e), Err(f)) => e == f,
                _ => false,
            },
    {
        let fields = split_fields(s, ',');
        assert(views(fields@).subrange(0, fields@.len() as int) =~= views(fields@));
        game_from_fields(&fields, 0)
    }
}

impl Response {
    pub fn new(response_type: ResponseType) -> (r: Response)
        ensures
            r@ == response_type@,
    {
        Response { response_type }
    }

    pub fn from_action(action: Action) -> (r: Response)
        ensures
            r@ == ResponseView::PlayerAction(Some(action@)),
    {
        Response { response_type: ResponseType::PlayerAction(Some(action)) }
    }

    pub fn from_name(name: String) -> (r: Response)
        ensures
            r@ == ResponseView::Name(Some(name@)),
    {
        Response { response_type: ResponseType::Name(Some(name)) }
    }

    pub fn from_game_state(game_state: GameState) -> (r: Response)
        ensures
            r@ == ResponseView::GameState(Some(game_state@)),
    {
        Response { response_type: ResponseType::GameState(Some(game_state)) }
    }

    /// Announces the start of `pname`'s turn.
    pub fn new_turn_start(pname: String) -> (r: Response)
        ensures
            r@ == ResponseView::PlayerAction(
                Some(
                    ActionView {
                        kind: ActionType::TurnStart,
                        attachment: 0,
                        from: pname@,
                        to: Seq::<char>::empty(),
                    },
                ),
            ),
    {
        Response::from_action(Action::new(ActionType::TurnStart, 0, pname, String::new()))
    }

    /// Announces the end of `pname`'s turn.
    pub fn new_turn_end(pname: String) -> (r: Response)
        ensures
            r@ == ResponseView::PlayerAction(
                Some(
                    ActionView {
                        kind: ActionType::TurnEnd,
                        attachment: 0,
                        from: pname@,
                        to: Seq::<char>::empty(),
                    },
                ),
            ),
    {
        Response::from_action(Action::new(ActionType::TurnEnd, 0, pname, String::new()))
    }

    pub fn response_type(&self) -> (r: &ResponseType)
        ensures
            r@ == self@,
    {
        &self.response_type
    }

    /// The kind of the response, as the request that asks for it names it.
    pub fn kind(&self) -> (r: RequestType)
        ensures
            r == response_kind(self@),
    {
        match self.response_type {
            ResponseType::Name(_) => RequestType::Name,
            ResponseType::Status(_) => RequestType::Status,
            ResponseType::PlayerAction(_) => RequestType::PlayerAction,
            ResponseType::GameState(_) => RequestType::GameState,
        }
    }

    /// The status carried by a status response, if it carries one.
    pub fn status(&self) -> (r: Option<StatusType>)
        ensures
            r == (match self@ {
                ResponseView::Status(s) => s,
                _ => None,
            }),
    {
        match &self.response_type {
            ResponseType::Status(s) => *s,
            _ => None,
        }
    }

    /// The player whose turn a turn-start announcement opens, if this is one.
    pub fn turn_owner(&self) -> (r: Option<String>)
        ensures
            match self@ {
                ResponseView::PlayerAction(Some(a)) => if a.kind == ActionType::TurnStart {
                    r is Some && r->Some_0@ == a.from
                } else {
                    r is None
                },
                _ => r is None,
            },
    {
        match &self.response_type {
            ResponseType::PlayerAction(Some(a)) => {
                if *a.action_type() == ActionType::TurnStart {
                    Some(String::from_str(a.from_player()))
                } else {
                    None
                }
            },
            _ => None,
        }
    }

    /// The response as a line of the wire format, without the newline. A
    /// response without a payload is written without its payload fields.
    pub fn to_string(&self) -> (r: String)
        ensures
            r@ == encode_response(self@),
    {
        let mut fields: Vec<String> = Vec::new();
        push_field(&mut fields, String::from_str("RES"));
        push_field(&mut fields, String::from_str(self.kind().tag()));
        match &self.response_type {
            ResponseType::Name(Some(n)) => push_field(&mut fields, n.clone()),
            ResponseType::Status(Some(s)) => push_field(&mut fields, String::from_str(s.text())),
            ResponseType::PlayerAction(Some(a)) => push_action_fields(a, &mut fields),
            ResponseType::GameState(Some(g)) => push_game_fields(g, &mut fields),
            _ => {},
        }
        assert(views(fields@) =~= response_fields(self@));
        join_fields(&fields)
    }

    /// Reads a response from a line of the wire format.
    pub fn parse(s: &str) -> (r: Result<Response, ResponseParseError>)
        ensures
            match (r, decode_response(s@)) {
                (Ok(q), Ok(v)) => q@ == v,
                (Err(e), Err(f)) => e == f,
                _ => false,
            },
    {
        let fields = split_fields(s, ',');
        let ghost fs = views(fields@);
        proof {
            crate::text::lemma_split_len(s@, ',');
        }
        assert(fs[0] == fields@[0]@);
        if !same_text(fields[0].as_str(), "RES") {
            return Err(ResponseParseError::NotAResponse);
        }
        let n = fields.len();
        if n < 2 {
            return Err(ResponseParseError::InvalidNumArguments);
        }
        assert(fs[1] == fields@[1]@);
        let tag = fields[1].as_str();
        if same_text(tag, "NAME") {
            if n == 2 {
                return Err(ResponseParseError::ExpectedName);
            }
            if n > 3 {
                return Err(ResponseParseError::InvalidNumArguments);
            }
            assert(fs[2] == fields@[2]@);
            Ok(Response::from_name(fields[2].clone()))
        } else if same_text(tag, "STATUS") {
            if n == 2 {
                return Err(ResponseParseError::ExpectedStatus);
            }
            if n > 3 {
                return Err(ResponseParseError::InvalidNumArguments);
            }
            assert(fs[2] == fields@[2]@);
            match StatusType::from_text(fields[2].as_str()) {
                Some(st) => Ok(Response::new(ResponseType::Status(Some(st)))),
                None => Err(ResponseParseError::ExpectedStatus),
            }
        } else if same_text(tag, "ACT") {
            match action_from_fields(&fields, 2) {
                Ok(a) => Ok(Response::from_action(a)),
                Err(e) => Err(ResponseParseError::UnableToParseAction(e)),
            }
        } else if same_text(tag, "GAME") {
            match game_from_fields(&fields, 2) {
                Ok(g) => Ok(Response::from_game_state(g)),
                Err(e) => Err(e),
            }
        } else {
            Err(ResponseParseError::InvalidType)
        }
    }
}

impl Default for Action {
    /// A turn end with no attachment and no names.
    fn default() -> (r: Action)
        ensures
            r@ == (ActionView {
                kind: ActionType::TurnEnd,
                attachment: 0,
                from: Seq::<char>::empty(),
                to: Seq::<char>::empty(),
            }),
    {
        Action::new(ActionType::TurnEnd, 0, String::new(), String::new())
    }
}

impl Default for Response {
    /// A name response without its name.
    fn default() -> (r: Response)
        ensures
            r@ == ResponseView::Name(None),
    {
        Response::new(ResponseType::Name(None))
    }
}

impl std::str::FromStr for Response {
    type Err = ResponseParseError;

    /// Reads a response from a line of the wire format; see `Response::parse`.
    fn from_str(s: &str) -> (r: Result<Response, ResponseParseError>)
        ensures
            match (r, decode_response(s@)) {
                (Ok(q), Ok(v)) => q@ == v,
                (Err(e), Err(f)) => e == f,
                _ => false,
            },
    {
        Response::parse(s)
    }
}

// ---- laws of the codec ----

/// An action can be written and read back: its names hold no comma.
pub open spec fn action_encodable(a: ActionView) -> bool {
    !a.from.contains(',') && !a.to.contains(',')
}

/// A snapshot can be written and read back: at most 255 players, names
/// without comma or colon, and the turn with the first player (a snapshot
/// does not carry whose turn it is).
pub open spec fn game_encodable(g: GameStateView) -> bool {
    &&& g.players.len() <= 0xFF
    &&& g.current == 0
    &&& forall|i: int|
        0 <= i < g.players.len() ==> !(#[trigger] g.players[i]).name.contains(',')
            && !g.players[i].name.contains(':')
}

/// A response can be written and read back: it has its payload, and the
/// payload can be written.
pub open spec fn response_encodable(r: ResponseView) -> bool {
    match r {
        ResponseView::Name(Some(n)) => !n.contains(','),
        ResponseView::Status(Some(_)) => true,
        ResponseView::PlayerAction(Some(a)) => action_encodable(a),
        ResponseView::GameState(Some(g)) => game_encodable(g),
        _ => false,
    }
}

proof fn lemma_concat_free(a: Seq<char>, b: Seq<char>, c: char)
    requires
        !a.contains(c),
        !b.contains(c),
    ensures
        !(a + b).contains(c),
{
    if (a + b).contains(c) {
        let k = choose|k: int| 0 <= k < (a + b).len() && (a + b)[k] == c;
        if k < a.len() {
            assert(a[k] == c);
        } else {
            assert(b[k - a.len()] == c);
        }
    }
}

proof fn lemma_tags()
    ensures
        forall|t: RequestType| #[trigger] type_of_tag(type_tag(t)) == Some(t),
        forall|t: RequestType| !(#[trigger] type_tag(t)).contains(','),
        !"RES"@.contains(','),
        !"REQ"@.contains(','),
        "RES"@ != "REQ"@,
        "NAME"@ != "STATUS"@,
        "NAME"@ != "ACT"@,
        "NAME"@ != "GAME"@,
        "STATUS"@ != "ACT"@,
        "STATUS"@ != "GAME"@,
        "ACT"@ != "GAME"@,
{
    reveal_strlit("NAME");
    reveal_strlit("STATUS");
    reveal_strlit("ACT");
    reveal_strlit("GAME");
    reveal_strlit("RES");
    reveal_strlit("REQ");
    assert("NAME"@[0] != "STATUS"@[0]);
    assert("NAME"@[0] != "ACT"@[0]);
    assert("NAME"@[0] != "GAME"@[0]);
    assert("STATUS"@[0] != "ACT"@[0]);
    assert("STATUS"@[0] != "GAME"@[0]);
    assert("ACT"@[0] != "GAME"@[0]);
    assert("RES"@[2] != "REQ"@[2]);
    assert forall|t: RequestType| !(#[trigger] type_tag(t)).contains(',') by {
        let s = type_tag(t);
        if s.contains(',') {
            let k = choose|k: int| 0 <= k < s.len() && s[k] == ',';
        }
    }
    if "RES"@.contains(',') {
        let k = choose|k: int| 0 <= k < "RES"@.len() && "RES"@[k] == ',';
    }
    if "REQ"@.contains(',') {
        let k = choose|k: int| 0 <= k < "REQ"@.len() && "REQ"@[k] == ',';
    }
}

proof fn lemma_symbols()
    ensures
        forall|k: ActionType| #[trigger] kind_of_symbol(symbol(k)) == Some(k),
        forall|k: ActionType| !(#[trigger] symbol(k)).contains(','),
{
    reveal_strlit("K");
    reveal_strlit("Q");
    reveal_strlit("J");
    reveal_strlit("N");
    reveal_strlit("B");
    reveal_strlit("R");
    reveal_strlit("S");
    reveal_strlit("E");
    assert forall|k: ActionType| !(#[trigger] symbol(k)).contains(',') by {
        let s = symbol(k);
        if s.contains(',') {
            let i = choose|i: int| 0 <= i < s.len() && s[i] == ',';
        }
    }
    let syms = seq!["K"@, "Q"@, "J"@, "N"@, "B"@, "R"@, "S"@, "E"@];
    assert forall|i: int, j: int| 0 <= i < j < 8 implies (#[trigger] syms[i]) != (#[trigger] syms[j]) by {
        assert(syms[i][0] != syms[j][0]);
    }
    assert forall|k: ActionType| #[trigger] kind_of_symbol(symbol(k)) == Some(k) by {
        assert(syms[0] != syms[1] && syms[0] != syms[2] && syms[0] != syms[3] && syms[0] != syms[4]);
        assert(syms[0] != syms[5] && syms[0] != syms[6] && syms[0] != syms[7]);
        assert(syms[1] != syms[2] && syms[1] != syms[3] && syms[1] != syms[4] && syms[1] != syms[5]);
        assert(syms[1] != syms[6] && syms[1] != syms[7] && syms[2] != syms[3] && syms[2] != syms[4]);
        assert(syms[2] != syms[5] && syms[2] != syms[6] && syms[2] != syms[7] && syms[3] != syms[4]);
        assert(syms[3] != syms[5] && syms[3] != syms[6] && syms[3] != syms[7] && syms[4] != syms[5]);
        assert(syms[4] != syms[6] && syms[4] != syms[7] && syms[5] != syms[6] && syms[5] != syms[7]);
        assert(syms[6] != syms[7]);
    }
}

proof fn lemma_statuses()
    ensures
        forall|s: StatusType| #[trigger] status_of_text(status_text(s)) == Some(s),
        forall|s: StatusType| !(#[trigger] status_text(s)).contains(','),
{
    reveal_strlit("Y");
    reveal_strlit("N");
    assert("Y"@[0] != "N"@[0]);
    assert forall|s: StatusType| !(#[trigger] status_text(s)).contains(',') by {
        let t = status_text(s);
        if t.contains(',') {
            let i = choose|i: int| 0 <= i < t.len() && t[i] == ',';
        }
    }
}

proof fn lemma_action_fields_round_trip(a: ActionView)
    requires
        action_encodable(a),
    ensures
        all_free_of(action_fields(a), ','),
        decode_action_fields(action_fields(a)) == Ok::<ActionView, ActionParseError>(a),
{
    lemma_symbols();
    crate::text::lemma_decimal_free_of(a.attachment as nat, ',');
    crate::text::lemma_parse_decimal(a.attachment as nat, 0xFFFF);
    let fs = action_fields(a);
    assert(all_free_of(fs, ',')) by {
        assert forall|i: int| 0 <= i < fs.len() implies !(#[trigger] fs[i]).contains(',') by {
            if i == 0 {
                assert(fs[0] == symbol(a.kind));
            }
        }
    }
}

/// Reading back a written action gives the action.
pub proof fn lemma_action_round_trip(a: ActionView)
    requires
        action_encodable(a),
    ensures
        decode_action(encode_action(a)) == Ok::<ActionView, ActionParseError>(a),
{
    lemma_action_fields_round_trip(a);
    crate::text::lemma_split_join(action_fields(a), ',');
}

proof fn lemma_entry_round_trip(p: PlayerView)
    requires
        !p.name.contains(':'),
    ensures
        decode_entry(entry_text(p)) == Ok::<PlayerView, ResponseParseError>(p),
{
    let d = decimal(p.points as nat);
    crate::text::lemma_decimal_free_of(p.points as nat, ':');
    crate::text::lemma_split_sep_then(p.name, d, ':');
    assert(all_free_of(seq![p.name], ':'));
    crate::text::lemma_split_join(seq![p.name], ':');
    assert(split_on(p.name, ':') == seq![p.name]);
    assert(split_on(entry_text(p), ':') =~= seq![p.name, d]);
    crate::text::lemma_parse_decimal(p.points as nat, 0xFFFF);
}

proof fn lemma_entries_round_trip(ps: Seq<PlayerView>)
    requires
        forall|i: int| 0 <= i < ps.len() ==> !(#[trigger] ps[i]).name.contains(':'),
    ensures
        decode_entries(ps.map_values(|p: PlayerView| entry_text(p))) == Ok::<
            Seq<PlayerView>,
            ResponseParseError,
        >(ps),
    decreases ps.len(),
{
    let es = ps.map_values(|p: PlayerView| entry_text(p));
    if ps.len() > 0 {
        let init = ps.drop_last();
        assert(es.drop_last() =~= init.map_values(|p: PlayerView| entry_text(p)));
        lemma_entries_round_trip(init);
        assert(ps[ps.len() - 1] == ps.last());
        lemma_entry_round_trip(ps.last());
        assert(init.push(ps.last()) =~= ps);
    } else {
        assert(ps =~= Seq::<PlayerView>::empty());
    }
}

proof fn lemma_game_fields_round_trip(g: GameStateView)
    requires
        game_encodable(g),
    ensures
        all_free_of(game_fields(g), ','),
        decode_game_fields(game_fields(g)) == Ok::<GameStateView, ResponseParseError>(g),
{
    let fs = game_fields(g);
    let es = g.players.map_values(|p: PlayerView| entry_text(p));
    crate::text::lemma_decimal_free_of(g.players.len(), ',');
    assert(all_free_of(fs, ',')) by {
        assert forall|i: int| 0 <= i < fs.len() implies !(#[trigger] fs[i]).contains(',') by {
            if i > 0 {
                let p = g.players[i - 1];
                assert(fs[i] == entry_text(p));
                crate::text::lemma_decimal_free_of(p.points as nat, ',');
                assert(!seq![':'].contains(',')) by {
                    if seq![':'].contains(',') {
                        let k = choose|k: int| 0 <= k < 1 && seq![':'][k] == ',';
                    }
                }
                lemma_concat_free(p.name, seq![':'], ',');
                assert(p.name.push(':') =~= p.name + seq![':']);
                lemma_concat_free(p.name.push(':'), decimal(p.points as nat), ',');
            }
        }
    }
    crate::text::lemma_parse_decimal(g.players.len(), 0xFF);
    assert(fs.subrange(1, fs.len() as int) =~= es);
    lemma_entries_round_trip(g.players);
}

/// Reading back a written snapshot gives the snapshot.
pub proof fn lemma_game_round_trip(g: GameStateView)
    requires
        game_encodable(g),
    ensures
        decode_game(encode_game(g)) == Ok::<GameStateView, ResponseParseError>(g),
{
    lemma_game_fields_round_trip(g);
    assert(game_fields(g).len() >= 1);
    crate::text::lemma_split_join(game_fields(g), ',');
}

/// Reading back a written request gives the request.
pub proof fn lemma_request_round_trip(t: RequestType)
    ensures
        decode_request(encode_request(t)) == Ok::<RequestType, RequestParseError>(t),
{
    lemma_tags();
    let fs = request_fields(t);
    assert(all_free_of(fs, ','));
    crate::text::lemma_split_join(fs, ',');
}

/// Reading back a written response gives the response.
pub proof fn lemma_response_round_trip(r: ResponseView)
    requires
        response_encodable(r),
    ensures
        decode_response(encode_response(r)) == Ok::<ResponseView, ResponseParseError>(r),
{
    lemma_tags();
    lemma_statuses();
    reveal_strlit("NAME");
    reveal_strlit("STATUS");
    reveal_strlit("ACT");
    reveal_strlit("GAME");
    let fs = response_fields(r);
    match r {
        ResponseView::PlayerAction(Some(a)) => {
            lemma_action_fields_round_trip(a);
            assert(fs.subrange(2, fs.len() as int) =~= action_fields(a));
        },
        ResponseView::GameState(Some(g)) => {
            lemma_game_fields_round_trip(g);
            assert(fs.subrange(2, fs.len() as int) =~= game_fields(g));
        },
        _ => {},
    }
    assert(all_free_of(fs, ',')) by {
        assert forall|i: int| 0 <= i < fs.len() implies !(#[trigger] fs[i]).contains(',') by {
            if i == 1 {
                assert(fs[1] == type_tag(response_kind(r)));
            } else if i >= 2 {
                match r {
                    ResponseView::PlayerAction(Some(a)) => {
                        assert(fs[i] == action_fields(a)[i - 2]);
                    },
                    ResponseView::GameState(Some(g)) => {
                        assert(fs[i] == game_fields(g)[i - 2]);
                    },
                    _ => {},
                }
            }
        }
    }
    crate::text::lemma_split_join(fs, ',');
}

/// Malformed lines are rejected with the error that names what is wrong:
/// a missing tag, a wrong number of fields, an unknown symbol, or an
/// attachment that is not a number.
pub proof fn lemma_rejection(s: Seq<char>)
    ensures
        split_on(s, ',')[0] != "REQ"@ ==> decode_request(s) == Err::<RequestType, RequestParseError>(
            RequestParseError::NotARequest,
        ),
        split_on(s, ',')[0] != "RES"@ ==> decode_response(s) == Err::<ResponseView, ResponseParseError>(
            ResponseParseError::NotAResponse,
        ),
        split_on(s, ',')[0] == "REQ"@ && split_on(s, ',').len() != 2 ==> decode_request(s) == Err::<
            RequestType,
            RequestParseError,
        >(RequestParseError::InvalidNumArguments),
        ({
            let fs = split_on(s, ',');
            fs[0] == "RES"@ && fs.len() > 3 && (fs[1] == "NAME"@ || fs[1] == "STATUS"@)
                ==> decode_response(s) == Err::<ResponseView, ResponseParseError>(
                ResponseParseError::InvalidNumArguments,
            )
        }),
        ({
            let fs = split_on(s, ',');
            fs[0] == "RES"@ && fs.len() >= 2 && fs[1] == "ACT"@ ==> {
                &&& fs.len() != 6 ==> decode_response(s) == Err::<ResponseView, ResponseParseError>(
                    ResponseParseError::UnableToParseAction(ActionParseError::InvalidNumArguments),
                )
                &&& fs.len() == 6 && kind_of_symbol(fs[2]) is None ==> decode_response(s) == Err::<
                    ResponseView,
                    ResponseParseError,
                >(ResponseParseError::UnableToParseAction(ActionParseError::InvalidType))
                &&& fs.len() == 6 && kind_of_symbol(fs[2]) is Some && parse_decimal(fs[3], 0xFFFF) is None
                    ==> decode_response(s) == Err::<ResponseView, ResponseParseError>(
                    ResponseParseError::UnableToParseAction(ActionParseError::InvalidAttachment),
                )
            }
        }),
{
    crate::text::lemma_split_len(s, ',');
    let fs = split_on(s, ',');
    lemma_tags();
    if fs.len() >= 2 {
        let rest = fs.subrange(2, fs.len() as int);
        if fs.len() == 6 {
            assert(rest[0] == fs[2]);
            assert(rest[1] == fs[3]);
        }
    }
}

} // verus!
