use oc_back::service::engine_connect_step;
use oc_back::service::engine_exchange_step;
use oc_back::service::EngineExchangeStep;
use oc_back::service::EngineLinkStep;
use oc_back::service::gateway_action;
use oc_back::service::listen_step;
use oc_back::service::GatewayAction;
use oc_back::service::GatewayQuery;
use oc_back::service::PortStep;
use oc_back::service::ENGINE_PORT_START;
use oc_back::service::LISTEN_PORT_START;
use oc_back::wapi::post_reply;
use oc_back::wapi::wapi_request;
use oc_back::wapi::EngineAnswer;
use oc_back::pages::ContentEncoding;
use oc_back::pages::Mime;
use oc_back::pages::Status;
use oc_back::pages::Reply;
use oc_back::wapi::wapi_answer;
use oc_back::wapi::WapiReply;
use oc_back::wapi::WapiStep;
use oc_back::tokens::AccessToken;

fn table() -> Vec<AccessToken> {
    vec![AccessToken { ident: b"alice".to_vec(), token: b"hello".to_vec() }]
}

#[test]
fn listen_search_tries_ten_ports() {
    let mut port = LISTEN_PORT_START;
    let mut tried = vec![];
    loop {
        tried.push(port);
        match listen_step(port, false) {
            PortStep::Try(p) => port = p,
            PortStep::Exhausted => break,
            PortStep::Use(_) => unreachable!(),
        }
    }
    assert_eq!(tried, (9000u16..=9009).collect::<Vec<_>>());
    assert_eq!(listen_step(9004, true), PortStep::Use(9004));
}

#[test]
fn engine_search_tries_hundred_ports() {
    let mut port = ENGINE_PORT_START;
    let mut count = 0;
    loop {
        count += 1;
        match engine_connect_step(port, false) {
            EngineLinkStep::Try(p) => port = p,
            EngineLinkStep::Restart { sleep_secs, next_port } => {
                assert_eq!(sleep_secs, 1);
                assert_eq!(next_port, 10000);
                break;
            }
            EngineLinkStep::Linked(_) => unreachable!(),
        }
    }
    assert_eq!(count, 100);
    assert_eq!(port, 10099);
    assert_eq!(engine_connect_step(10050, true), EngineLinkStep::Linked(10050));
}

#[test]
fn gateway_routes_http_on_443() {
    assert_eq!(gateway_action(GatewayQuery::Alive), GatewayAction::AnswerAlive);
    assert_eq!(gateway_action(GatewayQuery::Http), GatewayAction::Route(443));
}

fn assert_json(r: &Reply, text: &str) {
    assert_eq!(r.status, Status::Created);
    assert_eq!(r.mime, Mime::ApplicationJson);
    assert_eq!(r.encoding, ContentEncoding::Identity);
    assert_eq!(r.body, text.as_bytes().to_vec());
}

#[test]
fn engine_exchange_forwards_or_relinks() {
    assert_eq!(engine_exchange_step(true), EngineExchangeStep::Forward);
    assert_eq!(engine_exchange_step(false), EngineExchangeStep::Relink);
}

#[test]
fn wapi_endpoints() {
    match wapi_request(&table(), b"hello", b"hi") {
        Some(WapiStep::Answer(r)) => assert_json(&r, "{\"seq_nr\":1}"),
        _ => panic!("hi"),
    }
    match wapi_request(&table(), b"hello", b"poll") {
        Some(WapiStep::Answer(r)) => assert_json(&r, "{\"ready\":false}"),
        _ => panic!("poll"),
    }
    match wapi_request(&table(), b"hello", b"post") {
        Some(WapiStep::AskEngine(v)) => assert_eq!(v, b"Let $ABC$ be a triangle.".to_vec()),
        _ => panic!("post"),
    }
    assert!(wapi_request(&table(), b"hello", b"other").is_none());
    assert!(wapi_request(&table(), b"nope", b"hi").is_none());
}

#[test]
fn post_reply_reports_engine_error() {
    assert_json(&post_reply(EngineAnswer::Checked { is_err: true }).unwrap(), "{\"err\":true}");
    assert_json(&post_reply(EngineAnswer::Checked { is_err: false }).unwrap(), "{\"err\":false}");
    assert!(post_reply(EngineAnswer::SendFailed).is_none());
    assert!(post_reply(EngineAnswer::ReceiveFailed).is_none());
    assert!(post_reply(EngineAnswer::Unexpected).is_none());
}

#[test]
fn wapi_answer_writes_numbers_in_decimal() {
    assert_json(&wapi_answer(WapiReply::Hi { seq_nr: -42 }), "{\"seq_nr\":-42}");
    assert_json(&wapi_answer(WapiReply::Hi { seq_nr: 1234567 }), "{\"seq_nr\":1234567}");
    assert_json(&wapi_answer(WapiReply::Poll { ready: true }), "{\"ready\":true}");
}
