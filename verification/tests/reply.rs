use web_gateway::reply::{require, require_done, require_id, ActionResponse, Failure, StatusCode};

#[test]
fn statuses_have_their_numbers() {
    let codes: Vec<u16> = [
        StatusCode::Accepted,
        StatusCode::BadRequest,
        StatusCode::Forbidden,
        StatusCode::NotFound,
        StatusCode::Conflict,
        StatusCode::InternalServerError,
        StatusCode::NotImplemented,
        StatusCode::ServiceUnavailable,
    ]
    .iter()
    .map(|s| s.as_u16())
    .collect();
    assert_eq!(codes, vec![202, 400, 403, 404, 409, 500, 501, 503]);
}

#[test]
fn what_is_required_is_checked() {
    assert_eq!(require(true, StatusCode::Conflict, "no"), Ok(()));
    assert_eq!(
        require(false, StatusCode::Conflict, "no"),
        Err(Failure::new(StatusCode::Conflict, "no"))
    );
    assert_eq!(require_id(Some(3), "bad"), Ok(3));
    assert_eq!(require_id(None, "bad"), Err(Failure::new(StatusCode::BadRequest, "bad")));
    assert_eq!(require_done::<u8>(Ok(1)), Ok(1));
    assert_eq!(
        require_done::<u8>(Err("down".to_string())),
        Err(Failure::new(StatusCode::InternalServerError, "down"))
    );
}

#[test]
fn answers_report_an_outcome() {
    let ok = ActionResponse::ok("yes".to_string());
    assert!(ok.success && ok.message == "yes");
    assert!(ok.auth_url.is_none() && ok.awaiting_token.is_none() && ok.instructions.is_none());
    let fail = ActionResponse::fail("no".to_string());
    assert!(!fail.success && fail.message == "no");
}
