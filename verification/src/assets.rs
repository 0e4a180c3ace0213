//! The chat's static assets and the per-thread cache of their compressed
//! forms.
//!
//! A static asset is served compressed with DEFLATE once compressing it has
//! worked, and as it is where compressing failed. The cache remembers the
//! outcome per asset, so each asset is compressed at most once; a reply
//! from the cache is the reply that compressing afresh would give.

use vstd::prelude::*;
use vstd::string::StringSliceAdditionalSpecFns;
use vstd::slice::slice_to_vec;
use std::collections::BTreeMap;
use crate::bytes::bytes_equal;
use crate::codecs::deflate_bytes;
use crate::codecs::deflated;
use crate::pages::ContentEncoding;
use crate::pages::Mime;
use crate::pages::Reply;
use crate::pages::Status;
use crate::pages::chat_js_body;
use crate::pages::literal_bytes;
use crate::pages::render_chat_js;
use crate::pages::reply_is;
use crate::tokens::AccessToken;
use crate::tokens::find_ident;
use crate::tokens::ident_for;
use crate::tokens::table_view;

verus! {

broadcast use vstd::std_specs::btree::group_btree_axioms, vstd::laws_cmp::group_laws_cmp;

/// A static asset of the chat.
#[derive(Clone, Copy, Debug, PartialEq, Eq, Structural)]
pub enum AssetId {
    TachyonsMinCss,
    KatexMinCss,
    StyleCss,
    KatexMinJs,
    AutoRenderMinJs,
}

/// What an asset name asks for: a static asset, or the chat script, which
/// is rendered for the token.
#[derive(Clone, Copy, Debug, PartialEq, Eq, Structural)]
pub enum AssetRequest {
    Static(AssetId),
    ChatJs,
}

/// The asset that a name asks for.
pub open spec fn asset_request_named(name: Seq<u8>) -> Option<AssetRequest> {
    if name == "tachyons.min.css".spec_bytes() {
        Some(AssetRequest::Static(AssetId::TachyonsMinCss))
    } else if name == "katex.min.css".spec_bytes() {
        Some(AssetRequest::Static(AssetId::KatexMinCss))
    } else if name == "style.css".spec_bytes() {
        Some(AssetRequest::Static(AssetId::StyleCss))
    } else if name == "katex.min.js".spec_bytes() {
        Some(AssetRequest::Static(AssetId::KatexMinJs))
    } else if name == "auto-render.min.js".spec_bytes() {
        Some(AssetRequest::Static(AssetId::AutoRenderMinJs))
    } else if name == "chat.js".spec_bytes() {
        Some(AssetRequest::ChatJs)
    } else {
        None
    }
}

/// The content type of a static asset.
pub open spec fn asset_mime(id: AssetId) -> Mime {
    match id {
        AssetId::TachyonsMinCss | AssetId::KatexMinCss | AssetId::StyleCss => Mime::TextCss,
        AssetId::KatexMinJs | AssetId::AutoRenderMinJs => Mime::ApplicationJavascript,
    }
}

/// The cache key of a static asset.
pub open spec fn asset_key(id: AssetId) -> u64 {
    match id {
        AssetId::TachyonsMinCss => 0,
        AssetId::KatexMinCss => 1,
        AssetId::StyleCss => 2,
        AssetId::KatexMinJs => 3,
        AssetId::AutoRenderMinJs => 4,
    }
}

/// What an asset name asks for.
pub fn asset_request(name: &[u8]) -> (r: Option<AssetRequest>)
    ensures
        r == asset_request_named(name@),
{
    if bytes_equal(name, literal_bytes("tachyons.min.css").as_slice()) {
        Some(AssetRequest::Static(AssetId::TachyonsMinCss))
    } else if bytes_equal(name, literal_bytes("katex.min.css").as_slice()) {
        Some(AssetRequest::Static(AssetId::KatexMinCss))
    } else if bytes_equal(name, literal_bytes("style.css").as_slice()) {
        Some(AssetRequest::Static(AssetId::StyleCss))
    } else if bytes_equal(name, literal_bytes("katex.min.js").as_slice()) {
        Some(AssetRequest::Static(AssetId::KatexMinJs))
    } else if bytes_equal(name, literal_bytes("auto-render.min.js").as_slice()) {
        Some(AssetRequest::Static(AssetId::AutoRenderMinJs))
    } else if bytes_equal(name, literal_bytes("chat.js").as_slice()) {
        Some(AssetRequest::ChatJs)
    } else {
        None
    }
}

/// The content type of a static asset.
pub fn mime_of(id: AssetId) -> (r: Mime)
    ensures
        r == asset_mime(id),
{
    match id {
        AssetId::TachyonsMinCss | AssetId::KatexMinCss | AssetId::StyleCss => Mime::TextCss,
        AssetId::KatexMinJs | AssetId::AutoRenderMinJs => Mime::ApplicationJavascript,
    }
}

/// The cache key of a static asset.
pub fn key_of(id: AssetId) -> (r: u64)
    ensures
        r == asset_key(id),
{
    match id {
        AssetId::TachyonsMinCss => 0,
        AssetId::KatexMinCss => 1,
        AssetId::StyleCss => 2,
        AssetId::KatexMinJs => 3,
        AssetId::AutoRenderMinJs => 4,
    }
}

/// The contents of the static assets, and the template of the chat script.
#[derive(Clone)]
pub struct StaticAssets {
    pub tachyons_min_css: Vec<u8>,
    pub katex_min_css: Vec<u8>,
    pub style_css: Vec<u8>,
    pub katex_min_js: Vec<u8>,
    pub auto_render_min_js: Vec<u8>,
    pub chat_js: Vec<u8>,
}

impl StaticAssets {
    /// The contents of a static asset.
    pub open spec fn content(&self, id: AssetId) -> Seq<u8> {
        match id {
            AssetId::TachyonsMinCss => self.tachyons_min_css@,
            AssetId::KatexMinCss => self.katex_min_css@,
            AssetId::StyleCss => self.style_css@,
            AssetId::KatexMinJs => self.katex_min_js@,
            AssetId::AutoRenderMinJs => self.auto_render_min_js@,
        }
    }

    /// The contents of a static asset.
    pub fn get(&self, id: AssetId) -> (r: &Vec<u8>)
        ensures
            r@ == self.content(id),
    {
        match id {
            AssetId::TachyonsMinCss => &self.tachyons_min_css,
            AssetId::KatexMinCss => &self.katex_min_css,
            AssetId::StyleCss => &self.style_css,
            AssetId::KatexMinJs => &self.katex_min_js,
            AssetId::AutoRenderMinJs => &self.auto_render_min_js,
        }
    }
}

/// The reply that serves a static asset whose contents compress to
/// `compressed` (`None` where compressing failed).
pub open spec fn static_reply_is(r: Reply, id: AssetId, content: Seq<u8>, compressed: Option<Seq<u8>>) -> bool {
    match compressed {
        Some(c) => reply_is(r, Status::Success, c, asset_mime(id), ContentEncoding::Deflate),
        None => reply_is(r, Status::Success, content, asset_mime(id), ContentEncoding::Identity),
    }
}

/// The reply that serves a static asset, given the outcome of compressing
/// its contents: the compressed bytes with the DEFLATE encoding, or the
/// contents as they are where compressing failed.
pub fn static_reply(id: AssetId, content: &[u8], compressed: Option<Vec<u8>>) -> (r: Reply)
    ensures
        static_reply_is(
            r,
            id,
            content@,
            match compressed {
                Some(c) => Some(c@),
                None => None,
            },
        ),
{
    match compressed {
        Some(c) => Reply { status: Status::Success, body: c, mime: mime_of(id), encoding: ContentEncoding::Deflate },
        None => Reply {
            status: Status::Success,
            body: slice_to_vec(content),
            mime: mime_of(id),
            encoding: ContentEncoding::Identity,
        },
    }
}

/// The outcome of compressing an asset, as the cache holds it.
pub enum CacheEntry {
    Compressed(Vec<u8>),
    Failed,
}

/// The view of a cache entry: the compressed bytes, or `None`.
pub open spec fn entry_view(e: CacheEntry) -> Option<Seq<u8>> {
    match e {
        CacheEntry::Compressed(v) => Some(v@),
        CacheEntry::Failed => None,
    }
}

/// The static assets with the compressed forms of those served so far, by
/// asset key.
pub struct AssetStore {
    assets: StaticAssets,
    entries: BTreeMap<u64, CacheEntry>,
}

impl AssetStore {
    /// The outcomes of compression that the cache holds, by asset key.
    pub closed spec fn cached(&self) -> Map<u64, Option<Seq<u8>>> {
        self.entries@.map_values(|e: CacheEntry| entry_view(e))
    }

    /// The contents of a static asset.
    pub closed spec fn content(&self, id: AssetId) -> Seq<u8> {
        self.assets.content(id)
    }

    /// The template of the chat script.
    pub closed spec fn chat_js(&self) -> Seq<u8> {
        self.assets.chat_js@
    }

    /// Every entry of the cache is the outcome of compressing the asset with
    /// that key, and the cache holds only keys of assets.
    #[verifier::type_invariant]
    closed spec fn cache_is_faithful(&self) -> bool {
        &&& forall|k: u64| #[trigger] self.entries@.contains_key(k) ==> k < 5
        &&& forall|id: AssetId| #[trigger] self.entries@.contains_key(asset_key(id)) ==> entry_view(
            self.entries@[asset_key(id)],
        ) == deflated(self.assets.content(id))
    }

    /// A store of the given assets with nothing compressed yet.
    pub fn new(assets: StaticAssets) -> (r: AssetStore)
        ensures
            r.cached() == Map::<u64, Option<Seq<u8>>>::empty(),
            forall|id: AssetId| #[trigger] r.content(id) == assets.content(id),
            r.chat_js() == assets.chat_js@,
    {
        let r = AssetStore { assets, entries: BTreeMap::new() };
        assert(r.cached() =~= Map::<u64, Option<Seq<u8>>>::empty());
        r
    }

    /// The template of the chat script.
    pub fn chat_js_template(&self) -> (r: &Vec<u8>)
        ensures
            r@ == self.chat_js(),
    {
        &self.assets.chat_js
    }

    /// Serves a static asset: compresses it on its first request and
    /// remembers the outcome; the reply carries the compressed bytes with
    /// the DEFLATE encoding, or the contents as they are where compressing
    /// failed. A later request is answered from the cache with the same
    /// reply, and leaves the cache as it was.
    pub fn serve(&mut self, id: AssetId) -> (r: Reply)
        ensures
            static_reply_is(r, id, old(self).content(id), deflated(old(self).content(id))),
            final(self).cached() == old(self).cached().insert(asset_key(id), deflated(old(self).content(id))),
            old(self).cached().contains_key(asset_key(id)) ==> final(self).cached() == old(self).cached(),
            forall|other: AssetId| #[trigger] final(self).content(other) == old(self).content(other),
            final(self).chat_js() == old(self).chat_js(),
    {
        proof {
            use_type_invariant(&*self);
        }
        let key = key_of(id);
        let ghost old_entries = self.entries@;
        let compressed: Option<Vec<u8>> = match self.entries.get(&key) {
            Some(CacheEntry::Compressed(c)) => Some(slice_to_vec(c.as_slice())),
            Some(CacheEntry::Failed) => None,
            None => {
                let outcome = deflate_bytes(self.assets.get(id).as_slice());
                let entry = match &outcome {
                    Some(c) => CacheEntry::Compressed(slice_to_vec(c.as_slice())),
                    None => CacheEntry::Failed,
                };
                let mut entries: BTreeMap<u64, CacheEntry> = BTreeMap::new();
                std::mem::swap(&mut entries, &mut self.entries);
                entries.insert(key, entry);
                proof {
                    assert forall|other: AssetId| #[trigger] entries@.contains_key(asset_key(other)) implies entry_view(
                        entries@[asset_key(other)],
                    ) == deflated(self.assets.content(other)) by {
                        if asset_key(other) == key {
                            assert(other == id);
                        } else {
                            assert(old_entries.contains_key(asset_key(other)));
                        }
                    }
                }
                self.entries = entries;
                outcome
            },
        };
        assert(self.cached() =~= old(self).cached().insert(asset_key(id), deflated(old(self).content(id))));
        static_reply(id, self.assets.get(id).as_slice(), compressed)
    }
}

/// The reply to `GET /olympiadchat/{token}/{asset}`.
pub open spec fn asset_reply_is(
    r: Option<Reply>,
    table: Seq<(Seq<u8>, Seq<u8>)>,
    token: Seq<u8>,
    name: Seq<u8>,
    store: &AssetStore,
) -> bool {
    match ident_for(table, token) {
        None => r is None,
        Some(_) => match asset_request_named(name) {
            None => r is None,
            Some(AssetRequest::ChatJs) => r matches Some(rep) && reply_is(
                rep,
                Status::Success,
                chat_js_body(store.chat_js(), token),
                Mime::ApplicationJavascript,
                ContentEncoding::Identity,
            ),
            Some(AssetRequest::Static(id)) => r matches Some(rep) && static_reply_is(
                rep,
                id,
                store.content(id),
                deflated(store.content(id)),
            ),
        },
    }
}

/// The reply to `GET /olympiadchat/{token}/{asset}`: none (not found) where
/// the token belongs to no entry or the name is no asset; the chat script
/// rendered for the token; or the static asset, served through the cache.
pub fn asset_page(table: &Vec<AccessToken>, token: &[u8], name: &[u8], store: &mut AssetStore) -> (r: Option<Reply>)
    ensures
        asset_reply_is(r, table_view(table@), token@, name@, old(store)),
        forall|id: AssetId| #[trigger] final(store).content(id) == old(store).content(id),
        final(store).chat_js() == old(store).chat_js(),
        match asset_request_named(name@) {
            Some(AssetRequest::Static(id)) if ident_for(table_view(table@), token@) is Some => final(store).cached()
                == old(store).cached().insert(asset_key(id), deflated(old(store).content(id))),
            _ => final(store).cached() == old(store).cached(),
        },
{
    match find_ident(table, token) {
        None => None,
        Some(_) => match asset_request(name) {
            None => None,
            Some(AssetRequest::ChatJs) => Some(
                Reply {
                    status: Status::Success,
                    body: render_chat_js(store.chat_js_template().as_slice(), token),
                    mime: Mime::ApplicationJavascript,
                    encoding: ContentEncoding::Identity,
                },
            ),
            Some(AssetRequest::Static(id)) => Some(store.serve(id)),
        },
    }
}

/// The bytes of `tachyons.min.css`.
pub open spec fn tachyons_min_css_name() -> Seq<u8> {
    seq![116u8, 97, 99, 104, 121, 111, 110, 115, 46, 109, 105, 110, 46, 99, 115, 115]
}

/// The bytes of `katex.min.css`.
pub open spec fn katex_min_css_name() -> Seq<u8> {
    seq![107u8, 97, 116, 101, 120, 46, 109, 105, 110, 46, 99, 115, 115]
}

/// The bytes of `style.css`.
pub open spec fn style_css_name() -> Seq<u8> {
    seq![115u8, 116, 121, 108, 101, 46, 99, 115, 115]
}

/// The bytes of `katex.min.js`.
pub open spec fn katex_min_js_name() -> Seq<u8> {
    seq![107u8, 97, 116, 101, 120, 46, 109, 105, 110, 46, 106, 115]
}

/// The bytes of `auto-render.min.js`.
pub open spec fn auto_render_min_js_name() -> Seq<u8> {
    seq![97u8, 117, 116, 111, 45, 114, 101, 110, 100, 101, 114, 46, 109, 105, 110, 46, 106, 115]
}

/// The bytes of `chat.js`.
pub open spec fn chat_js_name() -> Seq<u8> {
    seq![99u8, 104, 97, 116, 46, 106, 115]
}

/// The asset names, byte for byte.
pub proof fn lemma_asset_name_literals()
    ensures
        "tachyons.min.css".spec_bytes() == tachyons_min_css_name(),
        "katex.min.css".spec_bytes() == katex_min_css_name(),
        "style.css".spec_bytes() == style_css_name(),
        "katex.min.js".spec_bytes() == katex_min_js_name(),
        "auto-render.min.js".spec_bytes() == auto_render_min_js_name(),
        "chat.js".spec_bytes() == chat_js_name(),
{
    reveal_strlit("tachyons.min.css");
    reveal_strlit("katex.min.css");
    reveal_strlit("style.css");
    reveal_strlit("katex.min.js");
    reveal_strlit("auto-render.min.js");
    reveal_strlit("chat.js");
    broadcast use vstd::string::is_ascii_spec_bytes;
    assert(vstd::string::is_ascii("tachyons.min.css"));
    assert("tachyons.min.css".spec_bytes() =~= tachyons_min_css_name());
    assert(vstd::string::is_ascii("katex.min.css"));
    assert("katex.min.css".spec_bytes() =~= katex_min_css_name());
    assert(vstd::string::is_ascii("style.css"));
    assert("style.css".spec_bytes() =~= style_css_name());
    assert(vstd::string::is_ascii("katex.min.js"));
    assert("katex.min.js".spec_bytes() =~= katex_min_js_name());
    assert(vstd::string::is_ascii("auto-render.min.js"));
    assert("auto-render.min.js".spec_bytes() =~= auto_render_min_js_name());
    assert(vstd::string::is_ascii("chat.js"));
    assert("chat.js".spec_bytes() =~= chat_js_name());
}

/// The asset names differ from one another.
pub proof fn lemma_asset_names_distinct()
    ensures
        katex_min_css_name() != tachyons_min_css_name(),
        style_css_name() != tachyons_min_css_name(),
        style_css_name() != katex_min_css_name(),
        katex_min_js_name() != tachyons_min_css_name(),
        katex_min_js_name() != katex_min_css_name(),
        katex_min_js_name() != style_css_name(),
        auto_render_min_js_name() != tachyons_min_css_name(),
        auto_render_min_js_name() != katex_min_css_name(),
        auto_render_min_js_name() != style_css_name(),
        auto_render_min_js_name() != katex_min_js_name(),
        chat_js_name() != tachyons_min_css_name(),
        chat_js_name() != katex_min_css_name(),
        chat_js_name() != style_css_name(),
        chat_js_name() != katex_min_js_name(),
        chat_js_name() != auto_render_min_js_name(),
{
    assert(katex_min_css_name().len() != tachyons_min_css_name().len());
    assert(style_css_name().len() != tachyons_min_css_name().len());
    assert(style_css_name().len() != katex_min_css_name().len());
    assert(katex_min_js_name().len() != tachyons_min_css_name().len());
    assert(katex_min_js_name().len() != katex_min_css_name().len());
    assert(katex_min_js_name().len() != style_css_name().len());
    assert(auto_render_min_js_name().len() != tachyons_min_css_name().len());
    assert(auto_render_min_js_name().len() != katex_min_css_name().len());
    assert(auto_render_min_js_name().len() != style_css_name().len());
    assert(auto_render_min_js_name().len() != katex_min_js_name().len());
    assert(chat_js_name().len() != tachyons_min_css_name().len());
    assert(chat_js_name().len() != katex_min_css_name().len());
    assert(chat_js_name().len() != style_css_name().len());
    assert(chat_js_name().len() != katex_min_js_name().len());
    assert(chat_js_name().len() != auto_render_min_js_name().len());
}

/// Each static asset is served from the file of its name: the name
/// `tachyons.min.css` asks for the asset whose contents are the
/// `tachyons_min_css` field, and so on for every asset, whatever the
/// contents are; `chat.js` asks for the chat script.
pub proof fn lemma_static_asset_files(a: &StaticAssets)
    ensures
        asset_request_named(tachyons_min_css_name()) matches Some(AssetRequest::Static(id)) && a.content(id) == a.tachyons_min_css@,
        asset_request_named(katex_min_css_name()) matches Some(AssetRequest::Static(id)) && a.content(id) == a.katex_min_css@,
        asset_request_named(style_css_name()) matches Some(AssetRequest::Static(id)) && a.content(id) == a.style_css@,
        asset_request_named(katex_min_js_name()) matches Some(AssetRequest::Static(id)) && a.content(id) == a.katex_min_js@,
        asset_request_named(auto_render_min_js_name()) matches Some(AssetRequest::Static(id)) && a.content(id) == a.auto_render_min_js@,
        asset_request_named(chat_js_name()) == Some(AssetRequest::ChatJs),
{
    lemma_asset_name_literals();
    lemma_asset_names_distinct();
}

/// Whether `s` ends with `suffix`.
pub open spec fn ends_with(s: Seq<u8>, suffix: Seq<u8>) -> bool {
    suffix.len() <= s.len() && s.subrange(s.len() - suffix.len(), s.len() as int) == suffix
}

/// The bytes of `.css`.
pub open spec fn css_suffix() -> Seq<u8> {
    seq![46u8, 99, 115, 115]
}

/// The bytes of `.js`.
pub open spec fn js_suffix() -> Seq<u8> {
    seq![46u8, 106, 115]
}

/// A static asset is served with the content type its name's extension
/// gives: the names ending in `.css` as stylesheets, those ending in `.js`
/// as scripts.
pub proof fn lemma_static_asset_content_type(name: Seq<u8>)
    ensures
        asset_request_named(name) matches Some(AssetRequest::Static(id)) ==> {
            &&& (asset_mime(id) == Mime::TextCss <==> ends_with(name, css_suffix()))
            &&& (asset_mime(id) == Mime::ApplicationJavascript <==> ends_with(name, js_suffix()))
        },
{
    lemma_asset_name_literals();
    lemma_asset_names_distinct();
    if name == tachyons_min_css_name() {
        assert(name.subrange(name.len() - 4, name.len() as int) =~= seq![46u8, 99, 115, 115]);
        assert(name.subrange(name.len() - 3, name.len() as int) =~= seq![99u8, 115, 115]);
    }
    if name == katex_min_css_name() {
        assert(name.subrange(name.len() - 4, name.len() as int) =~= seq![46u8, 99, 115, 115]);
        assert(name.subrange(name.len() - 3, name.len() as int) =~= seq![99u8, 115, 115]);
    }
    if name == style_css_name() {
        assert(name.subrange(name.len() - 4, name.len() as int) =~= seq![46u8, 99, 115, 115]);
        assert(name.subrange(name.len() - 3, name.len() as int) =~= seq![99u8, 115, 115]);
    }
    if name == katex_min_js_name() {
        assert(name.subrange(name.len() - 4, name.len() as int) =~= seq![110u8, 46, 106, 115]);
        assert(name.subrange(name.len() - 3, name.len() as int) =~= seq![46u8, 106, 115]);
    }
    if name == auto_render_min_js_name() {
        assert(name.subrange(name.len() - 4, name.len() as int) =~= seq![110u8, 46, 106, 115]);
        assert(name.subrange(name.len() - 3, name.len() as int) =~= seq![46u8, 106, 115]);
    }
}

} // verus!
