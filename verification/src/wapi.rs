//! The chat's web API under `/olympiadchat/{token}/wapi/{endpoint}`.
//!
//! `hi` and `poll` answer at once; `post` hands a question to the engine
//! and answers with whether the engine reported an error. Every answer is a
//! JSON object with one field, sent with status 201 Created. The exchange
//! with the engine is made by the caller, which hands the engine's answer
//! to `post_reply`.

use vstd::prelude::*;
use vstd::string::StringSliceAdditionalSpecFns;
use crate::bytes::bytes_equal;
use crate::codecs::JsonScalar;
use crate::codecs::json_object_one_field;
use crate::codecs::json_object_text;
use crate::pages::ContentEncoding;
use crate::pages::Mime;
use crate::pages::Reply;
use crate::pages::Status;
use crate::pages::reply_is;
use crate::pages::literal_bytes;
use crate::tokens::AccessToken;
use crate::tokens::find_ident;
use crate::tokens::ident_for;
use crate::tokens::table_view;

verus! {

/// An endpoint of the web API.
#[derive(Clone, Copy, Debug, PartialEq, Eq, Structural)]
pub enum WapiEndpoint {
    Hi,
    Post,
    Poll,
}

/// What a web API reply says; it is sent as a JSON object with one field,
/// with status 201 Created.
#[derive(Clone, Copy, Debug, PartialEq, Eq, Structural)]
pub enum WapiReply {
    /// The field `seq_nr`.
    Hi { seq_nr: i64 },
    /// The field `err`.
    Post { err: bool },
    /// The field `ready`.
    Poll { ready: bool },
}

/// What to do with a web API request.
pub enum WapiStep {
    /// Answer with this reply.
    Answer(Reply),
    /// Ask the engine to check this statement, then answer with
    /// `post_reply` of the engine's answer.
    AskEngine(Vec<u8>),
}

/// How the exchange with the engine ended.
#[derive(Clone, Copy, Debug, PartialEq, Eq, Structural)]
pub enum EngineAnswer {
    /// The question could not be handed to the engine.
    SendFailed,
    /// No answer came back.
    ReceiveFailed,
    /// The engine answered a check, with an error or not.
    Checked { is_err: bool },
    /// The engine answered with a message of another kind.
    Unexpected,
}

/// The JSON text of a web API reply.
pub open spec fn wapi_json(reply: WapiReply) -> Seq<u8> {
    match reply {
        WapiReply::Hi { seq_nr } => json_object_text("seq_nr".spec_bytes(), JsonScalar::Int(seq_nr)),
        WapiReply::Post { err } => json_object_text("err".spec_bytes(), JsonScalar::Bool(err)),
        WapiReply::Poll { ready } => json_object_text("ready".spec_bytes(), JsonScalar::Bool(ready)),
    }
}

/// Whether `r` answers with `reply`: 201 Created, its JSON text, as JSON.
pub open spec fn answers_with(r: Reply, reply: WapiReply) -> bool {
    reply_is(r, Status::Created, wapi_json(reply), Mime::ApplicationJson, ContentEncoding::Identity)
}

/// The JSON texts of the fixed replies, byte for byte: the `hi` answer is
/// the object with `seq_nr` 1, the `poll` answer the object with `ready`
/// false, and the `post` answers the object with `err` true or false.
pub proof fn lemma_wapi_json_texts()
    ensures
        wapi_json(WapiReply::Hi { seq_nr: 1 }) == seq![123u8, 34, 115, 101, 113, 95, 110, 114, 34, 58, 49, 125],
        wapi_json(WapiReply::Poll { ready: false }) == seq![123u8, 34, 114, 101, 97, 100, 121, 34, 58, 102, 97, 108, 115, 101, 125],
        wapi_json(WapiReply::Post { err: true }) == seq![123u8, 34, 101, 114, 114, 34, 58, 116, 114, 117, 101, 125],
        wapi_json(WapiReply::Post { err: false }) == seq![123u8, 34, 101, 114, 114, 34, 58, 102, 97, 108, 115, 101, 125],
{
    reveal_strlit("seq_nr");
    reveal_strlit("ready");
    reveal_strlit("err");
    broadcast use vstd::string::is_ascii_spec_bytes;
    assert(vstd::string::is_ascii("seq_nr"));
    assert(vstd::string::is_ascii("ready"));
    assert(vstd::string::is_ascii("err"));
    assert("seq_nr".spec_bytes() =~= seq![115u8, 101, 113, 95, 110, 114]);
    assert("ready".spec_bytes() =~= seq![114u8, 101, 97, 100, 121]);
    assert("err".spec_bytes() =~= seq![101u8, 114, 114]);
    assert(crate::codecs::decimal_digits(1) == seq![49u8]);
    assert(wapi_json(WapiReply::Hi { seq_nr: 1 }) =~= seq![123u8, 34, 115, 101, 113, 95, 110, 114, 34, 58, 49, 125]);
    assert(wapi_json(WapiReply::Poll { ready: false }) =~= seq![123u8, 34, 114, 101, 97, 100, 121, 34, 58, 102, 97, 108, 115, 101, 125]);
    assert(wapi_json(WapiReply::Post { err: true }) =~= seq![123u8, 34, 101, 114, 114, 34, 58, 116, 114, 117, 101, 125]);
    assert(wapi_json(WapiReply::Post { err: false }) =~= seq![123u8, 34, 101, 114, 114, 34, 58, 102, 97, 108, 115, 101, 125]);
}

fn json_reply_body(key: &str, value: JsonScalar) -> (r: Vec<u8>)
    requires
        forall|i: int| 0 <= i < key.spec_bytes().len() ==> crate::codecs::json_plain_byte(#[trigger] key.spec_bytes()[i]),
    ensures
        r@ == json_object_text(key.spec_bytes(), value),
{
    match json_object_one_field(key, value) {
        Some(text) => text,
        None => Vec::new(),
    }
}

/// The reply that answers with `reply`: 201 Created, with the JSON object
/// of its one field.
pub fn wapi_answer(reply: WapiReply) -> (r: Reply)
    ensures
        answers_with(r, reply),
{
    proof {
        reveal_strlit("seq_nr");
        reveal_strlit("ready");
        reveal_strlit("err");
        broadcast use vstd::string::is_ascii_spec_bytes;
        assert(vstd::string::is_ascii("seq_nr"));
        assert(vstd::string::is_ascii("ready"));
        assert(vstd::string::is_ascii("err"));
        assert("seq_nr".spec_bytes() =~= seq![115u8, 101, 113, 95, 110, 114]);
        assert("ready".spec_bytes() =~= seq![114u8, 101, 97, 100, 121]);
        assert("err".spec_bytes() =~= seq![101u8, 114, 114]);
    }
    let body = match reply {
        WapiReply::Hi { seq_nr } => json_reply_body("seq_nr", JsonScalar::Int(seq_nr)),
        WapiReply::Post { err } => json_reply_body("err", JsonScalar::Bool(err)),
        WapiReply::Poll { ready } => json_reply_body("ready", JsonScalar::Bool(ready)),
    };
    Reply { status: Status::Created, body, mime: Mime::ApplicationJson, encoding: ContentEncoding::Identity }
}

/// The endpoint that a name asks for.
pub open spec fn endpoint_named(name: Seq<u8>) -> Option<WapiEndpoint> {
    if name == "hi".spec_bytes() {
        Some(WapiEndpoint::Hi)
    } else if name == "post".spec_bytes() {
        Some(WapiEndpoint::Post)
    } else if name == "poll".spec_bytes() {
        Some(WapiEndpoint::Poll)
    } else {
        None
    }
}

/// The statement that a `post` hands to the engine.
pub open spec fn posted_statement() -> Seq<u8> {
    "Let $ABC$ be a triangle.".spec_bytes()
}

/// The endpoint that a name asks for.
pub fn endpoint(name: &[u8]) -> (r: Option<WapiEndpoint>)
    ensures
        r == endpoint_named(name@),
{
    if bytes_equal(name, literal_bytes("hi").as_slice()) {
        Some(WapiEndpoint::Hi)
    } else if bytes_equal(name, literal_bytes("post").as_slice()) {
        Some(WapiEndpoint::Post)
    } else if bytes_equal(name, literal_bytes("poll").as_slice()) {
        Some(WapiEndpoint::Poll)
    } else {
        None
    }
}

/// What to do with `POST /olympiadchat/{token}/wapi/{endpoint}`: nothing
/// (not found) where the token belongs to no entry or the endpoint is
/// unknown; `hi` answers sequence number 1 and `poll` answers not ready, at
/// once and without the engine; `post` asks the engine about the fixed
/// statement.
pub fn wapi_request(table: &Vec<AccessToken>, token: &[u8], name: &[u8]) -> (r: Option<WapiStep>)
    ensures
        match ident_for(table_view(table@), token@) {
            None => r is None,
            Some(_) => match endpoint_named(name@) {
                None => r is None,
                Some(WapiEndpoint::Hi) => r matches Some(WapiStep::Answer(rep)) && answers_with(
                    rep,
                    WapiReply::Hi { seq_nr: 1 },
                ),
                Some(WapiEndpoint::Poll) => r matches Some(WapiStep::Answer(rep)) && answers_with(
                    rep,
                    WapiReply::Poll { ready: false },
                ),
                Some(WapiEndpoint::Post) => r matches Some(WapiStep::AskEngine(v)) && v@ == posted_statement(),
            },
        },
{
    match find_ident(table, token) {
        None => None,
        Some(_) => match endpoint(name) {
            None => None,
            Some(WapiEndpoint::Hi) => Some(WapiStep::Answer(wapi_answer(WapiReply::Hi { seq_nr: 1 }))),
            Some(WapiEndpoint::Poll) => Some(WapiStep::Answer(wapi_answer(WapiReply::Poll { ready: false }))),
            Some(WapiEndpoint::Post) => Some(WapiStep::AskEngine(literal_bytes("Let $ABC$ be a triangle."))),
        },
    }
}

/// The answer to a `post` once the engine's exchange has ended: whether the
/// engine reported an error, or nothing (not found) where no check result
/// came back.
pub fn post_reply(answer: EngineAnswer) -> (r: Option<Reply>)
    ensures
        match answer {
            EngineAnswer::Checked { is_err } => r matches Some(rep) && answers_with(rep, WapiReply::Post { err: is_err }),
            _ => r is None,
        },
{
    match answer {
        EngineAnswer::Checked { is_err } => Some(wapi_answer(WapiReply::Post { err: is_err })),
        _ => None,
    }
}

/// The endpoint names and the posted statement, byte for byte: `hi`,
/// `post` and `poll` name their endpoints and nothing else does, and the
/// statement handed to the engine is `Let $ABC$ be a triangle.`.
pub proof fn lemma_endpoint_names()
    ensures
        endpoint_named(seq![104u8, 105]) == Some(WapiEndpoint::Hi),
        endpoint_named(seq![112u8, 111, 115, 116]) == Some(WapiEndpoint::Post),
        endpoint_named(seq![112u8, 111, 108, 108]) == Some(WapiEndpoint::Poll),
        forall|name: Seq<u8>|
            name != seq![104u8, 105] && name != seq![112u8, 111, 115, 116] && name != seq![112u8, 111, 108, 108]
                ==> #[trigger] endpoint_named(name) is None,
        posted_statement() == seq![
            76u8, 101, 116, 32, 36, 65, 66, 67, 36, 32, 98, 101, 32, 97, 32, 116, 114, 105, 97, 110, 103, 108, 101, 46,
        ],
{
    reveal_strlit("hi");
    reveal_strlit("post");
    reveal_strlit("poll");
    reveal_strlit("Let $ABC$ be a triangle.");
    broadcast use vstd::string::is_ascii_spec_bytes;
    assert(vstd::string::is_ascii("hi"));
    assert(vstd::string::is_ascii("post"));
    assert(vstd::string::is_ascii("poll"));
    assert(vstd::string::is_ascii("Let $ABC$ be a triangle."));
    assert("hi".spec_bytes() =~= seq![104u8, 105]);
    assert("post".spec_bytes() =~= seq![112u8, 111, 115, 116]);
    assert("poll".spec_bytes() =~= seq![112u8, 111, 108, 108]);
    assert(seq![112u8, 111, 115, 116][2] != seq![112u8, 111, 108, 108][2]);
    assert("Let $ABC$ be a triangle.".spec_bytes() =~= seq![
        76u8, 101, 116, 32, 36, 65, 66, 67, 36, 32, 98, 101, 32, 97, 32, 116, 114, 105, 97, 110, 103, 108, 101, 46,
    ]);
}

} // verus!
