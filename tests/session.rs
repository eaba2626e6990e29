use kingdom_kards::game_state::GameState;
use kingdom_kards::protocol::{Request, RequestType, Response, ResponseParseError, StatusType};
use kingdom_kards::session::{
    capacity_status, validate_name, ClientError, JoinError, JoinEvent, JoinPhase, Mode, Negotiator,
};
use kingdom_kards::stream::{
    check_pairing, frame_request, frame_response, receive_request, receive_response,
    remove_newline, trim_newline, ServerError,
};
use kingdom_kards::text::{decimal_text, parse_number, split_fields};

#[test]
fn second_client_with_same_name_is_refused() {
    let mut registry = GameState::new();
    let first = registry.try_join("Alex");
    let second = registry.try_join("Alex");
    assert_eq!(first, StatusType::Yes);
    assert_eq!(second, StatusType::No);
    assert_eq!(
        Response::new(kingdom_kards::protocol::ResponseType::Status(Some(second))).to_string(),
        "RES,STATUS,N"
    );
    assert_eq!(registry.num_players(), 1);
}

#[test]
fn capacity_checks() {
    assert_eq!(capacity_status(0, 6), StatusType::Yes);
    assert_eq!(capacity_status(5, 6), StatusType::Yes);
    assert_eq!(capacity_status(6, 6), StatusType::No);
}

#[test]
fn names_are_checked() {
    assert_eq!(validate_name("John Smith"), Ok(()));
    assert_eq!(validate_name(""), Err(ClientError::EmptyName));
    assert_eq!(validate_name("a,b"), Err(ClientError::CommaFound));
    assert_eq!(validate_name("\u{e7}a,"), Err(ClientError::CommaFound));
    assert_eq!(validate_name("a:b"), Err(ClientError::InvalidCharacterFound));
    assert_eq!(validate_name("\u{2665}"), Err(ClientError::InvalidCharacterFound));
    assert_eq!(validate_name("tab\there"), Err(ClientError::InvalidCharacterFound));
}

#[test]
fn menu_choices() {
    assert_eq!(Mode::from_choice(1), Some(Mode::HostGame));
    assert_eq!(Mode::from_choice(2), Some(Mode::ConnectGame));
    assert_eq!(Mode::from_choice(3), None);
}

#[test]
fn line_endings_are_removed() {
    let mut s = String::from("REQ,NAME\r\n");
    remove_newline(&mut s);
    assert_eq!(s, "REQ,NAME");
    let mut t = String::from("abc\n");
    remove_newline(&mut t);
    assert_eq!(t, "abc");
    remove_newline(&mut t);
    assert_eq!(t, "abc");
    assert_eq!(trim_newline("x\r"), "x\r");
    assert_eq!(trim_newline("\n"), "");
}

#[test]
fn frames_end_in_newline() {
    assert_eq!(frame_request(&Request::new(RequestType::Status)), "REQ,STATUS\n");
    assert_eq!(
        frame_response(&Response::from_name("Ann".to_string())),
        "RES,NAME,Ann\n"
    );
}

#[test]
fn received_lines_are_checked() {
    assert_eq!(
        receive_request(RequestType::Name, "REQ,NAME\r\n"),
        Ok(Request::new(RequestType::Name))
    );
    assert_eq!(
        receive_request(RequestType::Name, "REQ,STATUS\n"),
        Err(ServerError::ExpectedRequestType(RequestType::Name))
    );
    assert!(matches!(
        receive_request(RequestType::Name, "nonsense\n"),
        Err(ServerError::RequestError(_))
    ));
    assert_eq!(
        receive_response(RequestType::Status, "RES,STATUS,Y\n"),
        Ok(Response::new(kingdom_kards::protocol::ResponseType::Status(Some(StatusType::Yes))))
    );
    assert_eq!(
        receive_response(RequestType::Name, "RES,STATUS,Y\n"),
        Err(ServerError::ExpectedResponseType(RequestType::Name))
    );
    assert_eq!(
        receive_response(RequestType::Name, "RES,NAME\n"),
        Err(ServerError::ResponseError(ResponseParseError::ExpectedName))
    );
}

#[test]
fn pairs_are_checked_before_sending() {
    let name_request = Request::new(RequestType::Name);
    assert_eq!(check_pairing(&name_request, &Response::from_name("x".to_string())), Ok(()));
    assert_eq!(
        check_pairing(&name_request, &Response::new_turn_start("x".to_string())),
        Err(ServerError::MismatchedRequestTypes(RequestType::Name, RequestType::PlayerAction))
    );
}

#[test]
fn numbers_and_fields() {
    assert_eq!(decimal_text(0), "0");
    assert_eq!(decimal_text(65535), "65535");
    assert_eq!(parse_number("00010", 255), Some(10));
    assert_eq!(parse_number("255", 255), Some(255));
    assert_eq!(parse_number("256", 255), None);
    assert_eq!(parse_number("", 255), None);
    assert_eq!(parse_number("1a", 255), None);
    assert_eq!(split_fields("a,,b", ','), vec!["a".to_string(), String::new(), "b".to_string()]);
    assert_eq!(split_fields("", ','), vec![String::new()]);
}

fn seat(registry: &mut GameState, seats_taken: usize) -> Negotiator {
    let mut n = Negotiator::new();
    assert_eq!(n.phase(), JoinPhase::AwaitingCapacityCheck);
    assert_eq!(
        n.handle(registry, seats_taken, 6, JoinEvent::StatusRequested),
        Ok(Some(StatusType::Yes))
    );
    assert_eq!(n.phase(), JoinPhase::AwaitingName);
    n
}

#[test]
fn two_clients_request_the_same_name() {
    let mut registry = GameState::new();
    let mut first = seat(&mut registry, 0);
    let mut second = seat(&mut registry, 1);
    let alex = || JoinEvent::NameReceived("Alex".to_string());
    assert_eq!(first.handle(&mut registry, 2, 6, alex()), Ok(None));
    assert_eq!(first.phase(), JoinPhase::AwaitingNameStatus);
    assert_eq!(
        first.handle(&mut registry, 2, 6, JoinEvent::StatusRequested),
        Ok(Some(StatusType::Yes))
    );
    assert_eq!(first.phase(), JoinPhase::Joined);
    assert_eq!(second.handle(&mut registry, 2, 6, alex()), Ok(None));
    assert_eq!(
        second.handle(&mut registry, 2, 6, JoinEvent::StatusRequested),
        Ok(Some(StatusType::No))
    );
    assert_eq!(second.phase(), JoinPhase::AwaitingName);
    assert_eq!(registry.num_players(), 1);
    assert_eq!(
        second.handle(&mut registry, 2, 6, JoinEvent::NameReceived("Sam".to_string())),
        Ok(None)
    );
    assert_eq!(second.candidate(), "Sam");
    assert_eq!(
        second.handle(&mut registry, 2, 6, JoinEvent::StatusRequested),
        Ok(Some(StatusType::Yes))
    );
    assert_eq!(registry.num_players(), 2);
    assert_eq!(registry.get_player(1).name(), "Sam");
}

#[test]
fn full_room_turns_connections_away() {
    let mut registry = GameState::new();
    let mut late = Negotiator::new();
    assert_eq!(
        late.handle(&mut registry, 6, 6, JoinEvent::StatusRequested),
        Ok(Some(StatusType::No))
    );
    assert_eq!(late.phase(), JoinPhase::Rejected);
    assert_eq!(
        late.handle(&mut registry, 0, 6, JoinEvent::StatusRequested),
        Ok(Some(StatusType::No))
    );
    assert_eq!(
        late.handle(&mut registry, 0, 6, JoinEvent::NameReceived("X".to_string())),
        Err(JoinError::UnexpectedEvent)
    );
    assert_eq!(registry.num_players(), 0);
}
