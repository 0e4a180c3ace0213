//! What the back end answers to each page and asset request: the reply's
//! status, body, content type and content encoding.

use vstd::prelude::*;
use vstd::string::StringSliceAdditionalSpecFns;
use vstd::slice::slice_to_vec;
use crate::bytes::append_bytes;
use crate::bytes::bytes_equal;
use crate::bytes::replace_all;
use crate::bytes::replace_bytes;
use crate::codecs::base64_url_encode;
use crate::codecs::base64_url_safe;
use crate::codecs::base64_decoded;
use crate::codecs::is_url_safe_base64_byte;
use crate::tokens::AccessToken;
use crate::tokens::find_ident;
use crate::tokens::ident_for;
use crate::tokens::table_view;

verus! {

/// The content type of a reply.
#[derive(Clone, Copy, Debug, PartialEq, Eq, Structural)]
pub enum Mime {
    TextHtml,
    TextCss,
    ApplicationJavascript,
    ApplicationJson,
}

/// The status of a reply.
#[derive(Clone, Copy, Debug, PartialEq, Eq, Structural)]
pub enum Status {
    /// 200 OK.
    Success,
    /// 201 Created.
    Created,
}

/// How a reply's body is encoded.
#[derive(Clone, Copy, Debug, PartialEq, Eq, Structural)]
pub enum ContentEncoding {
    /// The body as it is.
    Identity,
    /// The body compressed with DEFLATE.
    Deflate,
}

/// A reply to a request.
pub struct Reply {
    pub status: Status,
    pub body: Vec<u8>,
    pub mime: Mime,
    pub encoding: ContentEncoding,
}

/// Whether `r` has the given status, body, content type and encoding.
pub open spec fn reply_is(r: Reply, status: Status, body: Seq<u8>, mime: Mime, encoding: ContentEncoding) -> bool {
    &&& r.status == status
    &&& r.body@ == body
    &&& r.mime == mime
    &&& r.encoding == encoding
}

/// The bytes of a string literal.
pub fn literal_bytes(s: &str) -> (r: Vec<u8>)
    ensures
        r@ == s.spec_bytes(),
{
    slice_to_vec(s.as_bytes())
}

/// The body of the root page.
pub open spec fn root_body() -> Seq<u8> {
    "Hello world!\n".spec_bytes()
}

/// The body of the about page.
pub open spec fn about_body() -> Seq<u8> {
    "It&rsquo;s about time.\n".spec_bytes()
}

/// The reply to `GET /`.
pub fn root_page() -> (r: Reply)
    ensures
        reply_is(r, Status::Success, root_body(), Mime::TextHtml, ContentEncoding::Identity),
{
    Reply {
        status: Status::Success,
        body: literal_bytes("Hello world!\n"),
        mime: Mime::TextHtml,
        encoding: ContentEncoding::Identity,
    }
}

/// The reply to `GET /about`.
pub fn about_page() -> (r: Reply)
    ensures
        reply_is(r, Status::Success, about_body(), Mime::TextHtml, ContentEncoding::Identity),
{
    Reply {
        status: Status::Success,
        body: literal_bytes("It&rsquo;s about time.\n"),
        mime: Mime::TextHtml,
        encoding: ContentEncoding::Identity,
    }
}

/// The address of the chat that a token opens: the site's chat path
/// followed by the token in URL-safe base64.
pub open spec fn host_url(token: Seq<u8>) -> Seq<u8> {
    "https://zanodu.xyz/olympiadchat/".spec_bytes() + base64_url_safe(token)
}

/// The chat page: the template with `{{build}}` replaced by the build stamp
/// and then `{{host}}` replaced by the chat's address.
pub open spec fn chat_page_body(template: Seq<u8>, build_label: Seq<u8>, token: Seq<u8>) -> Seq<u8> {
    replace_all(
        replace_all(template, "{{build}}".spec_bytes(), build_label),
        "{{host}}".spec_bytes(),
        host_url(token),
    )
}

/// The chat script: the template with `{{host}}` replaced by the chat's
/// address.
pub open spec fn chat_js_body(template: Seq<u8>, token: Seq<u8>) -> Seq<u8> {
    replace_all(template, "{{host}}".spec_bytes(), host_url(token))
}

/// The chat's address for a token whose URL-safe base64 is `encoded`.
pub fn host_url_with(encoded: &[u8]) -> (r: Vec<u8>)
    ensures
        r@ == "https://zanodu.xyz/olympiadchat/".spec_bytes() + encoded@,
{
    let mut r = literal_bytes("https://zanodu.xyz/olympiadchat/");
    append_bytes(&mut r, encoded);
    r
}

/// The bodies of the root and about pages, byte for byte: `Hello world!`
/// and `It&rsquo;s about time.`, each with a final newline.
pub proof fn lemma_fixed_page_bodies()
    ensures
        root_body() == seq![72u8, 101, 108, 108, 111, 32, 119, 111, 114, 108, 100, 33, 10],
        about_body() == seq![
            73u8, 116, 38, 114, 115, 113, 117, 111, 59, 115, 32, 97, 98, 111, 117, 116, 32, 116, 105, 109, 101, 46, 10,
        ],
{
    reveal_strlit("Hello world!\n");
    reveal_strlit("It&rsquo;s about time.\n");
    broadcast use vstd::string::is_ascii_spec_bytes;
    assert(vstd::string::is_ascii("Hello world!\n"));
    assert(vstd::string::is_ascii("It&rsquo;s about time.\n"));
    assert(root_body() =~= seq![72u8, 101, 108, 108, 111, 32, 119, 111, 114, 108, 100, 33, 10]);
    assert(about_body() =~= seq![
        73u8, 116, 38, 114, 115, 113, 117, 111, 59, 115, 32, 97, 98, 111, 117, 116, 32, 116, 105, 109, 101, 46, 10,
    ]);
}

/// The bytes of `https://zanodu.xyz/olympiadchat/`.
pub open spec fn chat_prefix_bytes() -> Seq<u8> {
    seq![
        104u8, 116, 116, 112, 115, 58, 47, 47, 122, 97, 110, 111, 100, 117, 46, 120, 121, 122, 47, 111, 108, 121,
        109, 112, 105, 97, 100, 99, 104, 97, 116, 47,
    ]
}

/// The bytes of `{{host}}`.
pub open spec fn host_pattern_bytes() -> Seq<u8> {
    seq![123u8, 123, 104, 111, 115, 116, 125, 125]
}

/// The bytes of `{{build}}`.
pub open spec fn build_pattern_bytes() -> Seq<u8> {
    seq![123u8, 123, 98, 117, 105, 108, 100, 125, 125]
}

/// The literals of the chat pages, byte for byte.
pub proof fn lemma_page_literals()
    ensures
        "https://zanodu.xyz/olympiadchat/".spec_bytes() == chat_prefix_bytes(),
        "{{host}}".spec_bytes() == host_pattern_bytes(),
        "{{build}}".spec_bytes() == build_pattern_bytes(),
{
    reveal_strlit("https://zanodu.xyz/olympiadchat/");
    reveal_strlit("{{host}}");
    reveal_strlit("{{build}}");
    broadcast use vstd::string::is_ascii_spec_bytes;
    assert(vstd::string::is_ascii("https://zanodu.xyz/olympiadchat/"));
    assert(vstd::string::is_ascii("{{host}}"));
    assert(vstd::string::is_ascii("{{build}}"));
    assert("https://zanodu.xyz/olympiadchat/".spec_bytes() =~= chat_prefix_bytes());
    assert("{{host}}".spec_bytes() =~= host_pattern_bytes());
    assert("{{build}}".spec_bytes() =~= build_pattern_bytes());
}

/// The chat's address for `token`: the chat path, then the token in
/// URL-safe base64, every byte of it from the URL-safe alphabet, and
/// decoding back to the token.
pub fn make_host_url(token: &[u8]) -> (r: Vec<u8>)
    ensures
        r@ == host_url(token@),
        r@ == chat_prefix_bytes() + base64_url_safe(token@),
        forall|i: int| chat_prefix_bytes().len() <= i < r@.len() ==> is_url_safe_base64_byte(#[trigger] r@[i]),
        base64_decoded(r@.skip(chat_prefix_bytes().len() as int)) == Some(token@),
{
    let encoded = base64_url_encode(token);
    let r = host_url_with(encoded.as_slice());
    proof {
        lemma_page_literals();
        assert(r@.skip(chat_prefix_bytes().len() as int) =~= encoded@);
        assert forall|i: int| chat_prefix_bytes().len() <= i < r@.len() implies is_url_safe_base64_byte(#[trigger] r@[i]) by {
            assert(r@[i] == encoded@[i - chat_prefix_bytes().len()]);
        }
    }
    r
}

/// What the chat page and the chat script put in place of `{{host}}` is
/// the chat path followed by the URL-safe base64 of the token (and the page
/// first puts the build stamp in place of `{{build}}`): the same address
/// that `make_host_url` gives.
pub proof fn lemma_rendered_host(template: Seq<u8>, build_label: Seq<u8>, token: Seq<u8>)
    ensures
        chat_page_body(template, build_label, token) == replace_all(
            replace_all(template, build_pattern_bytes(), build_label),
            host_pattern_bytes(),
            chat_prefix_bytes() + base64_url_safe(token),
        ),
        chat_js_body(template, token) == replace_all(
            template,
            host_pattern_bytes(),
            chat_prefix_bytes() + base64_url_safe(token),
        ),
{
    lemma_page_literals();
}

/// Renders the chat page for `token`.
pub fn render_chat_page(template: &[u8], build_label: &[u8], token: &[u8]) -> (r: Vec<u8>)
    ensures
        r@ == chat_page_body(template@, build_label@, token@),
{
    let build_pat = literal_bytes("{{build}}");
    let with_build = replace_bytes(template, build_pat.as_slice(), build_label);
    let host_pat = literal_bytes("{{host}}");
    let host = make_host_url(token);
    replace_bytes(with_build.as_slice(), host_pat.as_slice(), host.as_slice())
}

/// Renders the chat script for `token`.
pub fn render_chat_js(template: &[u8], token: &[u8]) -> (r: Vec<u8>)
    ensures
        r@ == chat_js_body(template@, token@),
{
    let host_pat = literal_bytes("{{host}}");
    let host = make_host_url(token);
    replace_bytes(template, host_pat.as_slice(), host.as_slice())
}

/// The reply to `GET /olympiadchat/{token}`: the rendered chat page where
/// the token belongs to an entry of the table, and no reply (not found)
/// where it does not.
pub fn chat_page(table: &Vec<AccessToken>, token: &[u8], template: &[u8], build_label: &[u8]) -> (r:
    Option<Reply>)
    ensures
        match ident_for(table_view(table@), token@) {
            None => r is None,
            Some(_) => r matches Some(rep) && reply_is(
                rep,
                Status::Success,
                chat_page_body(template@, build_label@, token@),
                Mime::TextHtml,
                ContentEncoding::Identity,
            ),
        },
{
    match find_ident(table, token) {
        None => None,
        Some(_) => Some(
            Reply {
                status: Status::Success,
                body: render_chat_page(template, build_label, token),
                mime: Mime::TextHtml,
                encoding: ContentEncoding::Identity,
            },
        ),
    }
}

} // verus!
