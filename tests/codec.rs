use std::str::FromStr;

use kingdom_kards::game_state::{GameState, PlayerDetails};
use kingdom_kards::protocol::{
    Action, ActionParseError, ActionType, Request, RequestParseError, RequestType, Response,
    ResponseParseError, ResponseType, StatusType,
};

fn two_player_state() -> GameState {
    let mut game_state = GameState::new();
    game_state.add_player(PlayerDetails::new("ABC".to_string(), 90));
    game_state.add_player(PlayerDetails::new("DEF".to_string(), 20));
    game_state
}

#[test]
fn str_to_request() {
    let test_one = Request::from_str("REQ,NAME");
    match test_one {
        Ok(request) => assert_eq!(request, Request::new(RequestType::Name)),
        Err(e) => unreachable!("{:?}", e),
    }

    let test_two = Request::from_str("REQ,ACT");
    match test_two {
        Ok(request) => assert_eq!(request, Request::new(RequestType::PlayerAction)),
        Err(e) => unreachable!("{:?}", e),
    }

    let test_three = Request::from_str("REQ,STATUS");
    match test_three {
        Ok(request) => assert_eq!(request, Request::new(RequestType::Status)),
        Err(e) => unreachable!("{e:?}"),
    };

    let test_four = Request::from_str("REQ,GAME");
    match test_four {
        Ok(request) => assert_eq!(request, Request::new(RequestType::GameState)),
        Err(e) => unreachable!("{e:?}"),
    }
}

#[test]
fn request_to_str() {
    let test_one = Request::new(RequestType::Name).to_string();
    assert_eq!(test_one, "REQ,NAME");
    let test_two = Request::new(RequestType::PlayerAction).to_string();
    assert_eq!(test_two, "REQ,ACT");
    let test_three = Request::new(RequestType::Status).to_string();
    assert_eq!(test_three, "REQ,STATUS");
    let test_four = Request::new(RequestType::Status).to_string();
    assert_eq!(test_four, "REQ,STATUS");
}

#[test]
fn str_to_response() {
    let test_one = Response::from_str("RES,NAME,John Smith");
    match test_one {
        Ok(response) => assert_eq!(
            response,
            Response::new(ResponseType::Name(Some("John Smith".to_string())))
        ),
        Err(e) => panic!("{:?}", e),
    }

    let test_two = Response::from_str("RES,ACT,K,10,John Smith,Jane Doe");
    let test_two_action = Action::new(
        ActionType::PlayKing,
        10,
        "John Smith".to_string(),
        "Jane Doe".to_string(),
    );
    match test_two {
        Ok(response) => assert_eq!(
            response,
            Response::new(ResponseType::PlayerAction(Some(test_two_action)))
        ),
        Err(e) => panic!("{:?}", e),
    }

    let test_three = Response::from_str("RES,STATUS,Y");
    match test_three {
        Ok(response) => assert_eq!(
            response,
            Response::new(ResponseType::Status(Some(StatusType::Yes)))
        ),
        Err(e) => panic!("{e:?}"),
    }

    let test_four = Response::from_str("RES,GAME,2,ABC:90,DEF:20");
    let response_four = Response::new(ResponseType::GameState(Some(two_player_state())));
    match test_four {
        Ok(response) => assert_eq!(response, response_four),
        Err(e) => panic!("{e:?}"),
    }
}

#[test]
fn response_to_str() {
    let test_one = Response::new(ResponseType::Name(Some("John Smith".to_string()))).to_string();
    assert_eq!(test_one, "RES,NAME,John Smith");

    let test_two_action = Action::new(
        ActionType::PlayKing,
        10,
        "John Smith".to_string(),
        "Jane Doe".to_string(),
    );
    let test_two = Response::new(ResponseType::PlayerAction(Some(test_two_action))).to_string();
    assert_eq!(test_two, "RES,ACT,K,10,John Smith,Jane Doe");

    let test_three = Response::new(ResponseType::Status(Some(StatusType::Yes))).to_string();
    assert_eq!(test_three, "RES,STATUS,Y");

    let test_four = Response::new(ResponseType::GameState(Some(two_player_state()))).to_string();
    assert_eq!(test_four, "RES,GAME,2,ABC:90,DEF:20");
}

#[test]
fn king_action_scenario_round_trip() {
    let action = Action::new(
        ActionType::PlayKing,
        10,
        "John Smith".to_string(),
        "Jane Doe".to_string(),
    );
    let line = Response::from_action(action.clone()).to_string();
    assert_eq!(line, "RES,ACT,K,10,John Smith,Jane Doe");
    assert_eq!(Response::parse(&line), Ok(Response::from_action(action)));
}

#[test]
fn registry_snapshot_scenario() {
    let line = Response::from_game_state(two_player_state()).to_string();
    assert_eq!(line, "RES,GAME,2,ABC:90,DEF:20");
    assert_eq!(two_player_state().to_string(), "2,ABC:90,DEF:20");
}

#[test]
fn every_kind_round_trips() {
    for t in [
        RequestType::Name,
        RequestType::Status,
        RequestType::PlayerAction,
        RequestType::GameState,
    ] {
        let r = Request::new(t);
        assert_eq!(Request::parse(&r.to_string()), Ok(r));
    }
    for k in [
        ActionType::PlayKing,
        ActionType::PlayQueen,
        ActionType::PlayJack,
        ActionType::PlayNumber,
        ActionType::PlayBlackAce,
        ActionType::PlayRedAce,
        ActionType::TurnStart,
        ActionType::TurnEnd,
    ] {
        let a = Action::new(k, 65535, "A".to_string(), String::new());
        assert_eq!(Action::parse(&a.to_string()), Ok(a.clone()));
        let r = Response::from_action(a);
        assert_eq!(Response::parse(&r.to_string()), Ok(r));
    }
    let no = Response::new(ResponseType::Status(Some(StatusType::No)));
    assert_eq!(no.to_string(), "RES,STATUS,N");
    assert_eq!(Response::parse("RES,STATUS,N"), Ok(no));
    let empty = GameState::new();
    assert_eq!(Response::from_game_state(empty.clone()).to_string(), "RES,GAME,0");
    assert_eq!(GameState::parse("0"), Ok(empty));
    assert_eq!(Response::parse("RES,NAME,"), Ok(Response::from_name(String::new())));
}

#[test]
fn action_payload_forms() {
    let a = Action::new(ActionType::TurnStart, 0, "Ann".to_string(), String::new());
    assert_eq!(a.to_string(), "S,0,Ann,");
    assert_eq!(Action::parse("S,0,Ann,"), Ok(a));
    let leading_zero = Action::parse("Q,007,Ann,Bob").unwrap();
    assert_eq!(*leading_zero.attachment(), 7);
    assert_eq!(*leading_zero.action_type(), ActionType::PlayQueen);
    assert_eq!(leading_zero.from_player(), "Ann");
    assert_eq!(leading_zero.to_player(), "Bob");
}

#[test]
fn payloadless_responses_write_only_their_kind() {
    assert_eq!(Response::new(ResponseType::Name(None)).to_string(), "RES,NAME");
    assert_eq!(Response::new(ResponseType::GameState(None)).to_string(), "RES,GAME");
}

#[test]
fn request_errors() {
    assert_eq!(Request::parse("RES,NAME"), Err(RequestParseError::NotARequest));
    assert_eq!(Request::parse(""), Err(RequestParseError::NotARequest));
    assert_eq!(Request::parse("REQ"), Err(RequestParseError::InvalidNumArguments));
    assert_eq!(Request::parse("REQ,NAME,x"), Err(RequestParseError::InvalidNumArguments));
    assert_eq!(Request::parse("REQ,name"), Err(RequestParseError::InvalidType));
}

#[test]
fn response_errors() {
    assert_eq!(Response::parse("REQ,NAME,x"), Err(ResponseParseError::NotAResponse));
    assert_eq!(Response::parse("RES"), Err(ResponseParseError::InvalidNumArguments));
    assert_eq!(Response::parse("RES,DETAILS,x"), Err(ResponseParseError::InvalidType));
    assert_eq!(Response::parse("RES,NAME"), Err(ResponseParseError::ExpectedName));
    assert_eq!(Response::parse("RES,NAME,a,b"), Err(ResponseParseError::InvalidNumArguments));
    assert_eq!(Response::parse("RES,STATUS"), Err(ResponseParseError::ExpectedStatus));
    assert_eq!(Response::parse("RES,STATUS,y"), Err(ResponseParseError::ExpectedStatus));
    assert_eq!(Response::parse("RES,STATUS,Y,N"), Err(ResponseParseError::InvalidNumArguments));
    assert_eq!(
        Response::parse("RES,ACT,K,10,John Smith"),
        Err(ResponseParseError::UnableToParseAction(ActionParseError::InvalidNumArguments))
    );
    assert_eq!(
        Response::parse("RES,ACT,X,10,a,b"),
        Err(ResponseParseError::UnableToParseAction(ActionParseError::InvalidType))
    );
    assert_eq!(
        Response::parse("RES,ACT,K,ten,a,b"),
        Err(ResponseParseError::UnableToParseAction(ActionParseError::InvalidAttachment))
    );
    assert_eq!(
        Response::parse("RES,ACT,K,65536,a,b"),
        Err(ResponseParseError::UnableToParseAction(ActionParseError::InvalidAttachment))
    );
    assert_eq!(
        Response::parse("RES,ACT,K,+1,a,b"),
        Err(ResponseParseError::UnableToParseAction(ActionParseError::InvalidAttachment))
    );
    assert_eq!(Response::parse("RES,GAME"), Err(ResponseParseError::ExpectedNumPlayers));
    assert_eq!(Response::parse("RES,GAME,two,A:1,B:2"), Err(ResponseParseError::ParseIntError));
    assert_eq!(Response::parse("RES,GAME,256"), Err(ResponseParseError::ParseIntError));
    assert_eq!(Response::parse("RES,GAME,2,ABC:90"), Err(ResponseParseError::InvalidNumArguments));
    assert_eq!(Response::parse("RES,GAME,1,ABC:90,DEF:20"), Err(ResponseParseError::InvalidNumArguments));
    assert_eq!(Response::parse("RES,GAME,1,ABC"), Err(ResponseParseError::InvalidNumArguments));
    assert_eq!(Response::parse("RES,GAME,1,A:B:1"), Err(ResponseParseError::InvalidNumArguments));
    assert_eq!(Response::parse("RES,GAME,2,A:x,B:y:z"), Err(ResponseParseError::ParseIntError));
    assert_eq!(Response::parse("RES,GAME,1,A:70000"), Err(ResponseParseError::ParseIntError));
}

#[test]
fn kinds_of_responses() {
    assert_eq!(Response::from_name("a".to_string()).kind(), RequestType::Name);
    assert_eq!(
        Request::from_response(&Response::new_turn_end("a".to_string())),
        Request::new(RequestType::PlayerAction)
    );
    let start = Response::new_turn_start("Ann".to_string());
    assert_eq!(start.to_string(), "RES,ACT,S,0,Ann,");
    assert_eq!(Response::new_turn_end("Ann".to_string()).to_string(), "RES,ACT,E,0,Ann,");
    match start.response_type() {
        ResponseType::PlayerAction(Some(a)) => assert_eq!(a.from_player(), "Ann"),
        other => panic!("{other:?}"),
    }
}

#[test]
fn symbols_and_tags() {
    assert_eq!(ActionType::PlayBlackAce.to_symbol(), "B");
    assert_eq!(ActionType::from_symbol("R"), Some(ActionType::PlayRedAce));
    assert_eq!(ActionType::from_symbol("KK"), None);
    assert_eq!(RequestType::GameState.tag(), "GAME");
    assert_eq!(RequestType::from_tag("STATUS"), Some(RequestType::Status));
    assert_eq!(StatusType::from_text("N"), Some(StatusType::No));
    assert_eq!(StatusType::from_text(" Y"), None);
}

#[test]
fn from_str_matches_parse() {
    assert_eq!(Request::from_str("REQ,FOO"), Err(RequestParseError::InvalidType));
    assert_eq!(Response::from_str("RES,FOO,x"), Err(ResponseParseError::InvalidType));
    let line = Response::from_game_state(two_player_state()).to_string();
    assert_eq!(Response::from_str(&line), Ok(Response::from_game_state(two_player_state())));
}

#[test]
fn status_and_turn_owner() {
    assert_eq!(Response::parse("RES,STATUS,N").unwrap().status(), Some(StatusType::No));
    assert_eq!(Response::from_name("a".to_string()).status(), None);
    assert_eq!(
        Response::new_turn_start("Ann".to_string()).turn_owner(),
        Some("Ann".to_string())
    );
    assert_eq!(Response::new_turn_end("Ann".to_string()).turn_owner(), None);
    assert_eq!(Response::new(ResponseType::PlayerAction(None)).turn_owner(), None);
}
