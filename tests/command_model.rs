use fortuna::command::{op_from_action, JSCommand, Ops};
use fortuna::wire::JsRequest;

#[test]
fn action_codes_map_to_operations() {
    assert_eq!(op_from_action(0), Ops::REWRITE);
    assert_eq!(op_from_action(1), Ops::EVAL);
    assert_eq!(op_from_action(2), Ops::CALL);
    assert_eq!(op_from_action(3), Ops::EXIT);
    assert_eq!(op_from_action(-1), Ops::EXIT);
    assert_eq!(op_from_action(i32::MAX), Ops::EXIT);
}

#[test]
fn request_becomes_command() {
    let req = JsRequest {
        action: 2,
        script: "mapDoc".to_string(),
        args: vec!["{\"_id\":\"foo\",\"value\":1}".to_string()],
        timeout: 5000,
    };
    let cmd: JSCommand = req.into();
    assert_eq!(cmd.operation, Ops::CALL);
    assert_eq!(cmd.payload, "mapDoc");
    assert_eq!(cmd.args, vec!["{\"_id\":\"foo\",\"value\":1}".to_string()]);
}

#[test]
fn from_request_keeps_fields() {
    let req = JsRequest { action: 1, script: "1+1".to_string(), args: vec![], timeout: 0 };
    let cmd = JSCommand::from_request(req);
    assert_eq!(cmd.operation, Ops::EVAL);
    assert_eq!(cmd.payload, "1+1");
    assert!(cmd.args.is_empty());
}
