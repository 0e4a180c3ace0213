use std::io::Read;
use oc_back::assets::asset_page;
use oc_back::assets::asset_request;
use oc_back::assets::AssetStore;
use oc_back::assets::static_reply;
use oc_back::assets::AssetId;
use oc_back::assets::AssetRequest;
use oc_back::assets::StaticAssets;
use oc_back::build_info::build_label;
use oc_back::build_info::date;
use oc_back::build_info::digest;
use oc_back::build_info::digest2;
use oc_back::pages::about_page;
use oc_back::pages::chat_page;
use oc_back::pages::make_host_url;
use oc_back::pages::host_url_with;
use oc_back::pages::root_page;
use oc_back::pages::ContentEncoding;
use oc_back::pages::Mime;
use oc_back::pages::Status;
use oc_back::tokens::AccessToken;

fn table() -> Vec<AccessToken> {
    vec![AccessToken { ident: b"alice".to_vec(), token: b"hello".to_vec() }]
}

fn assets() -> StaticAssets {
    StaticAssets {
        tachyons_min_css: b"body{margin:0}".repeat(20),
        katex_min_css: b".katex{}".to_vec(),
        style_css: b"p{color:red}".to_vec(),
        katex_min_js: b"var katex=1;".repeat(10),
        auto_render_min_js: b"render();".to_vec(),
        chat_js: b"var host='{{host}}';".to_vec(),
    }
}

fn inflate(data: &[u8]) -> Vec<u8> {
    let mut dec = libflate::deflate::Decoder::new(data);
    let mut out = Vec::new();
    dec.read_to_end(&mut out).unwrap();
    out
}

#[test]
fn fixed_pages() {
    let r = root_page();
    assert_eq!(r.body, b"Hello world!\n".to_vec());
    assert_eq!(r.mime, Mime::TextHtml);
    assert_eq!(r.status, Status::Success);
    assert_eq!(r.encoding, ContentEncoding::Identity);
    let r = about_page();
    assert_eq!(r.body, b"It&rsquo;s about time.\n".to_vec());
    assert_eq!(r.mime, Mime::TextHtml);
}

#[test]
fn build_stamp() {
    assert_eq!(date(b"2020-03-04T05:06:07Z"), b"2020-03-04".to_vec());
    assert_eq!(digest(b"abcdef01", b"98765432"), b"abcd-9876".to_vec());
    assert_eq!(digest2(b"abcdef0123", b"9876543210"), b"abcdef01-98765432".to_vec());
    assert_eq!(build_label(b"2020-03-04T05:06:07Z", b"abcdef01", b"98765432"), b"2020-03-04.abcd-9876".to_vec());
}

#[test]
fn host_url_encodes_token() {
    assert_eq!(make_host_url(b"hello"), b"https://zanodu.xyz/olympiadchat/aGVsbG8".to_vec());
    assert_eq!(make_host_url(&[0xfb, 0xff]), b"https://zanodu.xyz/olympiadchat/-_8".to_vec());
}

#[test]
fn chat_page_renders_for_known_token() {
    let template = b"<p>{{build}}</p><a href=\"{{host}}\">{{host}}</a>";
    let r = chat_page(&table(), b"hello", template, b"2020-03-04.abcd-9876").unwrap();
    assert_eq!(
        r.body,
        b"<p>2020-03-04.abcd-9876</p><a href=\"https://zanodu.xyz/olympiadchat/aGVsbG8\">https://zanodu.xyz/olympiadchat/aGVsbG8</a>".to_vec()
    );
    assert_eq!(r.mime, Mime::TextHtml);
    assert!(chat_page(&table(), b"nope", template, b"x").is_none());
}

#[test]
fn asset_names() {
    assert_eq!(asset_request(b"tachyons.min.css"), Some(AssetRequest::Static(AssetId::TachyonsMinCss)));
    assert_eq!(asset_request(b"katex.min.css"), Some(AssetRequest::Static(AssetId::KatexMinCss)));
    assert_eq!(asset_request(b"style.css"), Some(AssetRequest::Static(AssetId::StyleCss)));
    assert_eq!(asset_request(b"katex.min.js"), Some(AssetRequest::Static(AssetId::KatexMinJs)));
    assert_eq!(asset_request(b"auto-render.min.js"), Some(AssetRequest::Static(AssetId::AutoRenderMinJs)));
    assert_eq!(asset_request(b"chat.js"), Some(AssetRequest::ChatJs));
    assert_eq!(asset_request(b"chat.jsx"), None);
}

#[test]
fn static_asset_is_served_compressed_and_cached() {
    let a = assets();
    let mut cache = AssetStore::new(a.clone());
    let r1 = asset_page(&table(), b"hello", b"tachyons.min.css", &mut cache).unwrap();
    assert_eq!(r1.encoding, ContentEncoding::Deflate);
    assert_eq!(r1.mime, Mime::TextCss);
    assert_eq!(r1.status, Status::Success);
    assert_eq!(inflate(&r1.body), a.tachyons_min_css);
    assert_ne!(r1.body, a.tachyons_min_css);
    let r2 = asset_page(&table(), b"hello", b"tachyons.min.css", &mut cache).unwrap();
    assert_eq!(r2.body, r1.body);
    assert_eq!(r2.encoding, ContentEncoding::Deflate);
    let r3 = asset_page(&table(), b"hello", b"katex.min.js", &mut cache).unwrap();
    assert_eq!(r3.mime, Mime::ApplicationJavascript);
    assert_eq!(inflate(&r3.body), a.katex_min_js);
}

#[test]
fn chat_js_is_rendered_not_cached() {
    let a = assets();
    let mut cache = AssetStore::new(a.clone());
    let r = asset_page(&table(), b"hello", b"chat.js", &mut cache).unwrap();
    assert_eq!(r.body, b"var host='https://zanodu.xyz/olympiadchat/aGVsbG8';".to_vec());
    assert_eq!(r.mime, Mime::ApplicationJavascript);
    assert_eq!(r.encoding, ContentEncoding::Identity);
}

#[test]
fn unknown_asset_or_token_is_not_found() {
    let a = assets();
    let mut cache = AssetStore::new(a.clone());
    assert!(asset_page(&table(), b"hello", b"missing.css", &mut cache).is_none());
    assert!(asset_page(&table(), b"bad", b"style.css", &mut cache).is_none());
}

#[test]
fn host_url_from_encoded_token() {
    assert_eq!(host_url_with(b"abc"), b"https://zanodu.xyz/olympiadchat/abc".to_vec());
}

#[test]
fn static_reply_follows_compression_outcome() {
    let r = static_reply(AssetId::StyleCss, b"p{}", Some(vec![1, 2, 3]));
    assert_eq!(r.body, vec![1, 2, 3]);
    assert_eq!(r.encoding, ContentEncoding::Deflate);
    assert_eq!(r.mime, Mime::TextCss);
    let r = static_reply(AssetId::AutoRenderMinJs, b"x();", None);
    assert_eq!(r.body, b"x();".to_vec());
    assert_eq!(r.encoding, ContentEncoding::Identity);
    assert_eq!(r.mime, Mime::ApplicationJavascript);
    assert_eq!(r.status, Status::Success);
}

#[test]
fn second_request_is_answered_from_cache() {
    let a = assets();
    let mut store = AssetStore::new(a.clone());
    let first = store.serve(AssetId::StyleCss);
    let second = store.serve(AssetId::StyleCss);
    assert_eq!(first.body, second.body);
    assert_eq!(first.encoding, second.encoding);
    assert_eq!(inflate(&second.body), a.style_css);
}
