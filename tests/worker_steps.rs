use fortuna::command::{JSCommand, Ops};
use fortuna::http::{greeting_text, health_text, route, HttpMethod, MakeService, Route};
use fortuna::env::JSEnv;
use fortuna::pending::JSResult;
use fortuna::wire::JsRequest;
use fortuna::worker::{finish, past_deadline, plan, response_of, settle, EngineOutcome, Step};

fn command(op: Ops, payload: &str, args: &[&str]) -> JSCommand {
    JSCommand {
        operation: op,
        payload: payload.to_string(),
        args: args.iter().map(|a| a.to_string()).collect(),
    }
}

fn text(r: &JSResult) -> Option<(bool, String)> {
    match r {
        JSResult::Waiting => None,
        JSResult::Json(s) => Some((true, s.clone())),
        JSResult::Error(s) => Some((false, s.clone())),
    }
}

#[test]
fn eval_runs_the_payload() {
    match plan(command(Ops::EVAL, "1+1", &[])) {
        Step::RunScript(s) => assert_eq!(s, "1+1"),
        _ => panic!("expected a script step"),
    }
}

#[test]
fn call_and_rewrite_invoke_the_named_global() {
    for op in [Ops::CALL, Ops::REWRITE] {
        match plan(command(op, "init", &["{}", "[]"])) {
            Step::Invoke(f, a) => {
                assert_eq!(f, "init");
                assert_eq!(a, vec!["{}".to_string(), "[]".to_string()]);
            }
            _ => panic!("expected a call step"),
        }
    }
}

#[test]
fn exit_answers_exiting() {
    match plan(command(Ops::EXIT, "", &[])) {
        Step::Reply(r) => assert_eq!(text(&r), Some((false, "exiting".to_string()))),
        _ => panic!("expected a reply"),
    }
}

#[test]
fn eval_value_is_its_json() {
    let r = finish(Ops::EVAL, &"1+1".to_string(), EngineOutcome::Value("2".to_string()));
    assert_eq!(text(&r), Some((true, "2".to_string())));
    let resp = response_of(r);
    assert_eq!(resp.status, 0);
    assert_eq!(resp.result, "2");
}

#[test]
fn eval_without_value_is_null_every_time() {
    for _ in 0..3 {
        let r = finish(Ops::EVAL, &"var x = 1;".to_string(), EngineOutcome::Value("undefined".to_string()));
        assert_eq!(text(&r), Some((true, "null".to_string())));
    }
}

#[test]
fn call_result_undefined_is_kept() {
    let r = finish(Ops::CALL, &"f".to_string(), EngineOutcome::Value("undefined".to_string()));
    assert_eq!(text(&r), Some((true, "undefined".to_string())));
}

#[test]
fn missing_global_is_lookup_error() {
    let r = finish(Ops::CALL, &"nope".to_string(), EngineOutcome::Missing);
    assert_eq!(text(&r), Some((false, "nope is not defined".to_string())));
    assert_eq!(response_of(r).status, 1);
}

#[test]
fn non_function_global_is_type_error() {
    let r = finish(Ops::REWRITE, &"lib".to_string(), EngineOutcome::NotCallable);
    assert_eq!(text(&r), Some((false, "lib is not a function".to_string())));
}

#[test]
fn map_doc_before_init_answers_status_one() {
    let req = JsRequest {
        action: 2,
        script: "mapDoc".to_string(),
        args: vec!["{\"_id\":\"foo\",\"value\":1}".to_string()],
        timeout: 5000,
    };
    let body = req.encode();
    let cmd: JSCommand = JsRequest::decode(&body).ok().unwrap().into();
    assert_eq!(cmd.operation, Ops::CALL);
    let msg = "ReferenceError: mapFuns is not defined".to_string();
    let r = finish(cmd.operation, &cmd.payload, EngineOutcome::Failed(msg.clone()));
    let resp = response_of(r);
    assert_eq!(resp.status, 1);
    assert_eq!(resp.result, msg);
    let bytes = resp.encode();
    assert_eq!(&bytes[..3], &[8, 1, 18]);
    assert_eq!(bytes[3] as usize, msg.len());
}

#[test]
fn timed_out_step_is_an_error() {
    let r = finish(Ops::EVAL, &"while(1){}".to_string(), EngineOutcome::TimedOut);
    assert_eq!(text(&r), Some((false, "timed out".to_string())));
    assert!(past_deadline(5001, 5000));
    assert!(!past_deadline(5000, 5000));
    assert!(!past_deadline(u64::MAX, 0));
    assert!(!past_deadline(10, -1));
}

#[test]
fn routes_follow_the_table() {
    assert_eq!(route(HttpMethod::Get, "/"), Route::Greeting);
    assert_eq!(route(HttpMethod::Get, "/Health"), Route::Health);
    assert_eq!(route(HttpMethod::Post, "/Ateles/Execute"), Route::Execute);
    assert_eq!(route(HttpMethod::Get, "/Ateles/Execute"), Route::NotFound);
    assert_eq!(route(HttpMethod::Post, "/"), Route::NotFound);
    assert_eq!(route(HttpMethod::Other, "/Health"), Route::NotFound);
    assert_eq!(route(HttpMethod::Get, "/health"), Route::NotFound);
    assert_eq!(greeting_text(), "HELLO Ateles on Rust with V8!!!!");
    assert_eq!(health_text(), "OK");
}

#[test]
fn environment_copies_its_snapshot() {
    let env = JSEnv::new(vec![1, 2, 3]);
    assert_eq!(env.snapshot(), vec![1, 2, 3]);
    let maker = MakeService::new(env.clone());
    assert_eq!(maker.js_env.startup_data, vec![1, 2, 3]);
}

#[test]
fn settle_ends_the_session_past_the_deadline() {
    let name = "f".to_string();
    let (r, go_on) = settle(Ops::CALL, &name, EngineOutcome::Value("1".to_string()), 20, 10);
    assert_eq!(text(&r), Some((false, "timed out".to_string())));
    assert!(!go_on);
    let (r, go_on) = settle(Ops::CALL, &name, EngineOutcome::Value("1".to_string()), 10, 10);
    assert_eq!(text(&r), Some((true, "1".to_string())));
    assert!(go_on);
    let (r, go_on) = settle(Ops::EVAL, &name, EngineOutcome::Value("undefined".to_string()), 99, 0);
    assert_eq!(text(&r), Some((true, "null".to_string())));
    assert!(go_on);
}
