//! Provider selection: the vendor and API variant, the settings file, and the registry of
//! configured providers.

use crate::anthropic;
use crate::anthropic::{AnthropicProvider, AnthropicView};
use crate::error::{AiError, AiErrorView};
use crate::json;
use crate::json::{JVal, Json};
use crate::model;
use crate::model::{Model, ModelView, Usage};
use crate::openai;
use crate::openai::{EndpointView, OpenAiChatProvider, OpenAiResponsesProvider, PendingProvider};
use crate::request;
use crate::request::{HttpRequest, HttpRequestView, ProviderRequest, ProviderRequestView};
use crate::stream::StreamEvent;
use crate::text;
use vstd::prelude::*;
use vstd::string::*;

verus! {

// ---- vendor and API ------------------------------------------------------------------------

/// API surface of a provider.
#[derive(Debug, Clone, Copy, PartialEq, Eq, Structural)]
pub enum ApiVariant {
    /// OpenAI-compatible chat completions (`/chat/completions`, SSE `choices[].delta`)
    Chat,
    /// OpenAI Responses API (`/responses`, SSE `response.output_text.delta`)
    Responses,
    /// Anthropic Messages API (`/v1/messages`, SSE `content_block_delta`)
    Messages,
}

impl ApiVariant {
    /// The word for the variant.
    pub open spec fn name(self) -> Seq<char> {
        match self {
            ApiVariant::Chat => "chat"@,
            ApiVariant::Responses => "responses"@,
            ApiVariant::Messages => "messages"@,
        }
    }

    /// The word for the variant.
    pub fn word(&self) -> (r: &'static str)
        ensures
            r@ == self.name(),
    {
        match self {
            ApiVariant::Chat => "chat",
            ApiVariant::Responses => "responses",
            ApiVariant::Messages => "messages",
        }
    }
}

/// Provider selection: vendor and API variant. Written `anthropic messages`, `openai chat`,
/// `openai responses`, `deepseek chat`; the variant has a default per vendor.
#[derive(Debug, Clone, Copy, PartialEq, Eq)]
pub struct ProviderKind {
    pub vendor: &'static str,
    pub api: ApiVariant,
}

/// What a `ProviderKind` denotes.
pub struct KindView {
    pub vendor: Seq<char>,
    pub api: ApiVariant,
}

impl View for ProviderKind {
    type V = KindView;

    open spec fn view(&self) -> KindView {
        KindView { vendor: self.vendor@, api: self.api }
    }
}

/// The view of an optional kind.
pub open spec fn opt_kind(k: Option<ProviderKind>) -> Option<KindView> {
    match k {
        Some(k) => Some(k@),
        None => None,
    }
}

/// The vendors that are known.
pub open spec fn known_vendor(v: Seq<char>) -> bool {
    v == "anthropic"@ || v == "openai"@ || v == "deepseek"@
}

/// The vendor and API pairs that are known.
pub open spec fn known_kind(k: KindView) -> bool {
    ||| k.vendor == "anthropic"@ && k.api == ApiVariant::Messages
    ||| k.vendor == "openai"@ && (k.api == ApiVariant::Chat || k.api == ApiVariant::Responses)
    ||| k.vendor == "deepseek"@ && k.api == ApiVariant::Chat
}

/// The words for the chat variant; it is also the default.
pub open spec fn names_chat(api: Option<Seq<char>>) -> bool {
    match api {
        None => true,
        Some(a) => a == "chat"@ || a == "chat-completions"@ || a == "chatcompletions"@,
    }
}

/// The words for the responses variant.
pub open spec fn names_responses(api: Option<Seq<char>>) -> bool {
    match api {
        None => false,
        Some(a) => a == "responses"@ || a == "resp"@ || a == "chat-resp"@ || a == "chatresp"@,
    }
}

/// The kind that a vendor word and an optional API word name.
pub open spec fn kind_of(vendor: Seq<char>, api: Option<Seq<char>>) -> Option<KindView> {
    if vendor == "anthropic"@ {
        if api is None || api == Some("messages"@) {
            Some(KindView { vendor: "anthropic"@, api: ApiVariant::Messages })
        } else {
            None
        }
    } else if vendor == "openai"@ {
        if names_chat(api) {
            Some(KindView { vendor, api: ApiVariant::Chat })
        } else if names_responses(api) {
            Some(KindView { vendor, api: ApiVariant::Responses })
        } else {
            None
        }
    } else if vendor == "deepseek"@ {
        if names_chat(api) {
            Some(KindView { vendor, api: ApiVariant::Chat })
        } else {
            None
        }
    } else {
        None
    }
}

/// The kind that a text names: one or two words, in any letter case.
pub open spec fn parsed_kind(s: Seq<char>) -> Option<KindView> {
    let w = text::words(s);
    if w.len() == 1 {
        kind_of(text::lowered(w[0]), None)
    } else if w.len() == 2 {
        kind_of(text::lowered(w[0]), Some(text::lowered(w[1])))
    } else {
        None
    }
}

/// The base URL of a vendor.
pub open spec fn vendor_url(vendor: Seq<char>) -> Seq<char> {
    if vendor == "openai"@ {
        "https://api.openai.com/v1"@
    } else if vendor == "deepseek"@ {
        "https://api.deepseek.com/v1"@
    } else {
        "https://api.anthropic.com/v1"@
    }
}

/// The path of an API.
pub open spec fn variant_path(api: ApiVariant) -> Seq<char> {
    match api {
        ApiVariant::Chat => "/chat/completions"@,
        ApiVariant::Responses => "/responses"@,
        ApiVariant::Messages => "/messages"@,
    }
}

/// A base URL joined with the API path. A base that already ends in the path stays as it
/// is; one that is empty but for slashes becomes the vendor's base URL.
pub open spec fn joined_url(k: KindView, base: Seq<char>) -> Seq<char> {
    let trimmed = text::without_trailing(base, '/');
    if text::has_suffix(base, variant_path(k.api)) {
        base
    } else if trimmed.len() == 0 {
        vendor_url(k.vendor)
    } else {
        trimmed + variant_path(k.api)
    }
}

/// The environment variable that holds a vendor's key.
pub open spec fn vendor_key_var(vendor: Seq<char>) -> Seq<char> {
    if vendor == "anthropic"@ {
        "ANTHROPIC_API_KEY"@
    } else if vendor == "openai"@ {
        "OPENAI_API_KEY"@
    } else {
        "DEEPSEEK_API_KEY"@
    }
}

/// The string under `vendor` and `field` in the settings.
pub open spec fn settings_entry(auth: JVal, vendor: Seq<char>, field: Seq<char>) -> Option<
    Seq<char>,
> {
    json::opt_str_value(json::opt_member(json::member(auth, vendor), field))
}

/// A key: the explicit one where it is not empty, else that in the settings, else that in
/// the environment.
pub open spec fn resolved_key(
    k: KindView,
    override_key: Option<Seq<char>>,
    auth: JVal,
    env: Option<Seq<char>>,
) -> Option<Seq<char>> {
    match (override_key, settings_entry(auth, k.vendor, "api_key"@)) {
        (Some(o), s) => if o.len() > 0 {
            Some(o)
        } else if s is Some {
            s
        } else {
            env
        },
        (None, Some(s)) => Some(s),
        (None, None) => env,
    }
}

/// A base URL: the explicit one where it is not empty, else that in the settings, else the
/// vendor's.
pub open spec fn resolved_url(k: KindView, override_url: Option<Seq<char>>, auth: JVal) -> Seq<
    char,
> {
    if override_url is Some && override_url->Some_0.len() > 0 {
        override_url->Some_0
    } else {
        match settings_entry(auth, k.vendor, "base_url"@) {
            Some(u) => u,
            None => vendor_url(k.vendor),
        }
    }
}

fn chat_word(api: &Option<String>) -> (r: bool)
    ensures
        r == names_chat(text::opt_str(*api)),
{
    match api {
        None => true,
        Some(a) => text::str_eq(a.as_str(), "chat") || text::str_eq(
            a.as_str(),
            "chat-completions",
        ) || text::str_eq(a.as_str(), "chatcompletions"),
    }
}

fn responses_word(api: &Option<String>) -> (r: bool)
    ensures
        r == names_responses(text::opt_str(*api)),
{
    match api {
        None => false,
        Some(a) => text::str_eq(a.as_str(), "responses") || text::str_eq(a.as_str(), "resp")
            || text::str_eq(a.as_str(), "chat-resp") || text::str_eq(a.as_str(), "chatresp"),
    }
}

fn messages_word(api: &Option<String>) -> (r: bool)
    ensures
        r == (*api is None || text::opt_str(*api) == Some("messages"@)),
{
    match api {
        None => true,
        Some(a) => text::str_eq(a.as_str(), "messages"),
    }
}

impl ProviderKind {
    /// Reads a kind off its written form.
    pub fn parse(s: &str) -> (r: Option<ProviderKind>)
        ensures
            opt_kind(r) == parsed_kind(s@),
    {
        let words = text::split_words(s);
        let ghost w = words@.map_values(|w: String| w@);
        assert(w == text::words(s@));
        if words.len() == 0 || words.len() > 2 {
            return None;
        }
        let vendor = text::to_lower(words[0].as_str());
        let api: Option<String> = if words.len() == 2 {
            Some(text::to_lower(words[1].as_str()))
        } else {
            None
        };
        assert(w[0] == words@[0]@);
        assert(text::opt_str(api) == (if w.len() == 2 {
            Some(text::lowered(w[1]))
        } else {
            None
        }));
        let vendor = vendor.as_str();
        if text::str_eq(vendor, "anthropic") {
            if messages_word(&api) {
                Some(ProviderKind { vendor: "anthropic", api: ApiVariant::Messages })
            } else {
                None
            }
        } else if text::str_eq(vendor, "openai") {
            if chat_word(&api) {
                Some(ProviderKind { vendor: "openai", api: ApiVariant::Chat })
            } else if responses_word(&api) {
                Some(ProviderKind { vendor: "openai", api: ApiVariant::Responses })
            } else {
                None
            }
        } else if text::str_eq(vendor, "deepseek") {
            if chat_word(&api) {
                Some(ProviderKind { vendor: "deepseek", api: ApiVariant::Chat })
            } else {
                None
            }
        } else {
            None
        }
    }

    /// Stable vendor id (matches `Model.provider` and the section of the settings file).
    pub fn id(&self) -> (r: &'static str)
        ensures
            r@ == self@.vendor,
    {
        self.vendor
    }

    /// Base URL of the vendor; the path of the API is appended by `join_api_path`.
    pub fn default_base_url(&self) -> (r: &'static str)
        requires
            known_kind(self@),
        ensures
            r@ == vendor_url(self@.vendor),
    {
        if text::str_eq(self.vendor, "openai") {
            "https://api.openai.com/v1"
        } else if text::str_eq(self.vendor, "deepseek") {
            "https://api.deepseek.com/v1"
        } else {
            "https://api.anthropic.com/v1"
        }
    }

    /// Path of the API, e.g. `/chat/completions`.
    pub fn api_path(&self) -> (r: &'static str)
        requires
            known_kind(self@),
        ensures
            r@ == variant_path(self@.api),
    {
        match self.api {
            ApiVariant::Chat => "/chat/completions",
            ApiVariant::Responses => "/responses",
            ApiVariant::Messages => "/messages",
        }
    }

    /// Joins a base URL with the API path, unless the path is already there.
    pub fn join_api_path(&self, base: &str) -> (r: String)
        requires
            known_kind(self@),
        ensures
            r@ == joined_url(self@, base@),
    {
        let path = self.api_path();
        if text::ends_with(base, path) {
            return base.to_owned();
        }
        let trimmed = text::trim_end_char(base, '/');
        if trimmed.as_str().is_empty() {
            return self.default_base_url().to_owned();
        }
        text::cat(trimmed.as_str(), path)
    }

    /// Human form, e.g. `openai chat`.
    pub fn display(&self) -> (r: String)
        ensures
            r@ == shown_kind(self@),
    {
        let mut r = text::cat(self.vendor, " ");
        r.append(self.api.word());
        r
    }

    /// Environment variable that holds the key.
    pub fn env_key_var(&self) -> (r: &'static str)
        requires
            known_vendor(self@.vendor),
        ensures
            r@ == vendor_key_var(self@.vendor),
    {
        if text::str_eq(self.vendor, "anthropic") {
            "ANTHROPIC_API_KEY"
        } else if text::str_eq(self.vendor, "openai") {
            "OPENAI_API_KEY"
        } else {
            "DEEPSEEK_API_KEY"
        }
    }

    /// The key to use. `auth` holds the settings, `env` the value of `env_key_var`.
    pub fn resolve_key(
        &self,
        override_key: Option<&str>,
        auth: &Json,
        env: Option<String>,
    ) -> (r: Option<String>)
        ensures
            text::opt_str(r) == resolved_key(
                self@,
                text::opt_slice(override_key),
                auth@,
                text::opt_str(env),
            ),
    {
        if let Some(k) = override_key {
            if !k.is_empty() {
                return Some(k.to_owned());
            }
        }
        match self.auth_entry(auth, "api_key") {
            Some(k) => Some(k),
            None => env,
        }
    }

    /// The base URL to use. `auth` holds the settings.
    pub fn resolve_base_url(&self, override_url: Option<&str>, auth: &Json) -> (r: String)
        requires
            known_kind(self@),
        ensures
            r@ == resolved_url(self@, text::opt_slice(override_url), auth@),
    {
        if let Some(u) = override_url {
            if !u.is_empty() {
                return u.to_owned();
            }
        }
        match self.auth_entry(auth, "base_url") {
            Some(u) => u,
            None => self.default_base_url().to_owned(),
        }
    }

    /// The string for this kind in the settings: `{ "<vendor>": { "<field>": … } }`.
    fn auth_entry(&self, auth: &Json, field: &str) -> (r: Option<String>)
        ensures
            text::opt_str(r) == settings_entry(auth@, self@.vendor, field@),
    {
        match auth.get(self.vendor) {
            Some(section) => section.opt_text_member(field),
            None => None,
        }
    }

    /// The provider for this kind, with its URL and key bound.
    pub fn build(&self, api_key: Option<String>, base_url: Option<String>, auth: &Json) -> (r:
        Provider)
        requires
            known_kind(self@),
        ensures
            r.described() == built(
                self@,
                text::opt_str(api_key),
                text::opt_str(base_url),
                auth@,
            ),
    {
        let url = match &base_url {
            Some(u) => self.resolve_base_url(Some(u.as_str()), auth),
            None => self.resolve_base_url(None, auth),
        };
        let url = self.join_api_path(url.as_str());
        let key = match api_key {
            Some(k) => k,
            None => String::new(),
        };
        match self.api {
            ApiVariant::Messages => Provider::Anthropic(AnthropicProvider::new(url, key)),
            ApiVariant::Chat => Provider::OpenAiChat(OpenAiChatProvider::new(url, key)),
            ApiVariant::Responses => Provider::Pending(
                PendingProvider { vendor: self.vendor, api: self.api },
            ),
        }
    }
}

/// The written form of a kind.
pub open spec fn shown_kind(k: KindView) -> Seq<char> {
    k.vendor + " "@ + k.api.name()
}

/// The provider that a kind is built into.
pub open spec fn built(
    k: KindView,
    api_key: Option<Seq<char>>,
    base_url: Option<Seq<char>>,
    auth: JVal,
) -> ProviderView {
    let url = joined_url(k, resolved_url(k, base_url, auth));
    let key = match api_key {
        Some(k) => k,
        None => Seq::empty(),
    };
    match k.api {
        ApiVariant::Messages => ProviderView::Anthropic(
            AnthropicView { base_url: url, version: "2023-06-01"@, api_key: key },
        ),
        ApiVariant::Chat => ProviderView::OpenAiChat(
            EndpointView { base_url: url, api_key: key },
        ),
        ApiVariant::Responses => ProviderView::Pending(k.vendor, k.api),
    }
}

// ---- settings file ----------------------------------------------------------------------------

/// Where the settings file is.
#[derive(Debug)]
pub enum AuthPath<P> {
    /// The path itself.
    File(P),
    /// `.agentrust/auth.json` below a directory.
    Under(P),
}

/// Where the settings file is: at the path that is given, else below the first directory that is.
pub open spec fn auth_location<P>(explicit: Option<P>, home: Option<P>, profile: Option<P>) -> Option<
    AuthPath<P>,
> {
    match (explicit, home, profile) {
        (Some(p), _, _) => Some(AuthPath::File(p)),
        (None, Some(h), _) => Some(AuthPath::Under(h)),
        (None, None, Some(h)) => Some(AuthPath::Under(h)),
        (None, None, None) => None,
    }
}

/// Location of the settings file: `$AGENTRUST_AUTH`, else below `$HOME`, else below
/// `$USERPROFILE`. The parameters are the values of those variables.
pub fn auth_file_path<P>(explicit: Option<P>, home: Option<P>, profile: Option<P>) -> (r: Option<
    AuthPath<P>,
>)
    ensures
        r == auth_location(explicit, home, profile),
{
    match explicit {
        Some(p) => Some(AuthPath::File(p)),
        None => match home {
            Some(h) => Some(AuthPath::Under(h)),
            None => match profile {
                Some(h) => Some(AuthPath::Under(h)),
                None => None,
            },
        },
    }
}

/// The settings that a file holds: an object, empty where the file is missing or does not
/// hold one.
pub open spec fn settings(file: Option<Seq<char>>) -> JVal {
    match file {
        Some(t) => JVal::Object(members_of(json::parsed_or_null(t))),
        None => JVal::Object(Map::empty()),
    }
}

/// Reads the settings off the text of the file.
pub fn read_auth_json(file: Option<&str>) -> (r: Json)
    ensures
        r@ == settings(text::opt_slice(file)),
{
    match file {
        Some(t) => {
            let j = json::parse_or_null(t);
            if j.is_object() {
                j
            } else {
                Json::object()
            }
        },
        None => Json::object(),
    }
}

/// The members of an object; none where the value is no object.
pub open spec fn members_of(v: JVal) -> Map<Seq<char>, JVal> {
    match v {
        JVal::Object(m) => m,
        _ => Map::empty(),
    }
}

/// The settings with those of `patch` in place of or added to the old ones.
pub open spec fn merged(root: JVal, patch: JVal) -> JVal {
    JVal::Object(members_of(root).union_prefer_right(members_of(patch)))
}

/// Merges `patch`, which must be an object, into the settings.
pub fn merge_auth_json(root: Json, patch: &Json) -> (r: Json)
    requires
        patch@ is Object,
    ensures
        r@ == merged(root@, patch@),
{
    let ghost start = members_of(root@);
    let mut out = if root.is_object() {
        root
    } else {
        Json::object()
    };
    match patch {
        Json::Object(members) => {
            let mut i: usize = 0;
            assert(members@.take(0) =~= Seq::<(String, Json)>::empty());
            assert(json::members_view(members@.take(0)) =~= Map::empty());
            assert(start.union_prefer_right(Map::empty()) =~= start);
            while i < members.len()
                invariant
                    i <= members@.len(),
                    out@ == JVal::Object(
                        start.union_prefer_right(json::members_view(members@.take(i as int))),
                    ),
                decreases members@.len() - i,
            {
                let ghost seen = json::members_view(members@.take(i as int));
                proof {
                    assert(members@.take(i + 1).drop_last() =~= members@.take(i as int));
                    assert(members@.take(i + 1).last() == members@[i as int]);
                    let k = members@[i as int].0@;
                    let v = members@[i as int].1@;
                    assert(start.union_prefer_right(seen).insert(k, v)
                        =~= start.union_prefer_right(seen.insert(k, v)));
                }
                out = out.with(members[i].0.as_str(), members[i].1.clone());
                i += 1;
            }
            assert(members@.take(members@.len() as int) =~= members@);
        },
        _ => {},
    }
    out
}

/// The text of the settings file after `patch` was merged into what it held.
pub fn write_auth_json(file: Option<&str>, patch: &Json) -> (r: String)
    requires
        patch@ is Object,
    ensures
        r@ == json::rendered_pretty(merged(settings(text::opt_slice(file)), patch@)),
        json::plain(merged(settings(text::opt_slice(file)), patch@), 127) ==> settings(Some(r@))
            == merged(settings(text::opt_slice(file)), patch@),
{
    let root = read_auth_json(file);
    let out = merge_auth_json(root, patch);
    json::render_pretty(&out)
}

// ---- providers ----------------------------------------------------------------------------------

/// What a provider is configured with.
pub enum ProviderView {
    Anthropic(AnthropicView),
    OpenAiChat(EndpointView),
    OpenAiResponses(EndpointView),
    Pending(Seq<char>, ApiVariant),
}

/// The id of a provider. Both OpenAI adapters go by one id, whatever vendor they serve.
pub open spec fn provider_id(p: ProviderView) -> Seq<char> {
    match p {
        ProviderView::Anthropic(_) => "anthropic"@,
        ProviderView::OpenAiChat(_) => "openai"@,
        ProviderView::OpenAiResponses(_) => "openai"@,
        ProviderView::Pending(vendor, _) => vendor,
    }
}

/// Whether a provider serves a model.
pub open spec fn supports(p: ProviderView, m: ModelView) -> bool {
    match p {
        ProviderView::Anthropic(_) => m.provider == "anthropic"@,
        ProviderView::OpenAiChat(_) => m.provider == "openai"@ || m.provider == "deepseek"@,
        ProviderView::OpenAiResponses(_) => m.provider == "openai"@,
        ProviderView::Pending(vendor, _) => m.provider == vendor,
    }
}

/// The HTTP request that a provider sends for a request, or its error.
pub open spec fn provider_http(p: ProviderView, req: ProviderRequestView) -> Result<
    HttpRequestView,
    AiErrorView,
> {
    match p {
        ProviderView::Anthropic(a) => anthropic::anthropic_request(a, req),
        ProviderView::OpenAiChat(e) => openai::chat_http(e, req),
        ProviderView::OpenAiResponses(_) => openai::responses_http(),
        ProviderView::Pending(vendor, api) => openai::pending_http(vendor, api),
    }
}

/// The format in which a provider streams its answer.
#[derive(Debug, Clone, Copy, PartialEq, Eq, Structural)]
pub enum Wire {
    Anthropic,
    ChatCompletions,
}

/// The format of a provider's answer; none where asking always fails.
pub open spec fn wire_of(p: ProviderView) -> Option<Wire> {
    match p {
        ProviderView::Anthropic(_) => Some(Wire::Anthropic),
        ProviderView::OpenAiChat(_) => Some(Wire::ChatCompletions),
        _ => None,
    }
}

/// A provider of chat answers. Key and URL are bound when it is set up; nothing specific to
/// the transport leaks into a request.
pub trait ChatProvider {
    /// What the provider is configured with.
    spec fn described(&self) -> ProviderView;

    /// The provider's id.
    fn id(&self) -> (r: &str)
        ensures
            r@ == provider_id(self.described()),
    ;

    /// Whether the provider serves the model.
    fn supports_model(&self, model: &Model) -> (r: bool)
        ensures
            r == supports(self.described(), model@),
    ;

    /// The HTTP request that asks for an answer.
    fn chat(&self, req: &ProviderRequest) -> (r: Result<HttpRequest, AiError>)
        ensures
            request::http_view(r) == provider_http(self.described(), req@),
    ;

    /// The usage told by the last events of a stream: none is extracted.
    fn extract_usage(&self, tail: &Vec<StreamEvent>) -> (r: Usage)
        ensures
            r == model::no_usage(),
    {
        Usage::default()
    }
}

impl ChatProvider for AnthropicProvider {
    open spec fn described(&self) -> ProviderView {
        ProviderView::Anthropic(self@)
    }

    fn id(&self) -> (r: &str) {
        "anthropic"
    }

    fn supports_model(&self, model: &Model) -> (r: bool) {
        text::str_eq(model.provider.as_str(), "anthropic")
    }

    fn chat(&self, req: &ProviderRequest) -> (r: Result<HttpRequest, AiError>) {
        self.chat_request(req)
    }
}

impl ChatProvider for OpenAiChatProvider {
    open spec fn described(&self) -> ProviderView {
        ProviderView::OpenAiChat(self@)
    }

    fn id(&self) -> (r: &str) {
        "openai"
    }

    fn supports_model(&self, model: &Model) -> (r: bool) {
        text::str_eq(model.provider.as_str(), "openai") || text::str_eq(
            model.provider.as_str(),
            "deepseek",
        )
    }

    fn chat(&self, req: &ProviderRequest) -> (r: Result<HttpRequest, AiError>) {
        self.chat_request(req)
    }
}

impl ChatProvider for OpenAiResponsesProvider {
    open spec fn described(&self) -> ProviderView {
        ProviderView::OpenAiResponses(self@)
    }

    fn id(&self) -> (r: &str) {
        "openai"
    }

    fn supports_model(&self, model: &Model) -> (r: bool) {
        text::str_eq(model.provider.as_str(), "openai")
    }

    fn chat(&self, req: &ProviderRequest) -> (r: Result<HttpRequest, AiError>) {
        self.chat_request(req)
    }
}

impl ChatProvider for PendingProvider {
    open spec fn described(&self) -> ProviderView {
        ProviderView::Pending(self.vendor@, self.api)
    }

    fn id(&self) -> (r: &str) {
        self.vendor
    }

    fn supports_model(&self, model: &Model) -> (r: bool) {
        text::str_eq(model.provider.as_str(), self.vendor)
    }

    fn chat(&self, req: &ProviderRequest) -> (r: Result<HttpRequest, AiError>) {
        self.chat_request(req)
    }
}

/// Any of the providers.
pub enum Provider {
    Anthropic(AnthropicProvider),
    OpenAiChat(OpenAiChatProvider),
    OpenAiResponses(OpenAiResponsesProvider),
    Pending(PendingProvider),
}

impl ChatProvider for Provider {
    open spec fn described(&self) -> ProviderView {
        match self {
            Provider::Anthropic(p) => p.described(),
            Provider::OpenAiChat(p) => p.described(),
            Provider::OpenAiResponses(p) => p.described(),
            Provider::Pending(p) => p.described(),
        }
    }

    fn id(&self) -> (r: &str) {
        match self {
            Provider::Anthropic(p) => p.id(),
            Provider::OpenAiChat(p) => p.id(),
            Provider::OpenAiResponses(p) => p.id(),
            Provider::Pending(p) => p.id(),
        }
    }

    fn supports_model(&self, model: &Model) -> (r: bool) {
        match self {
            Provider::Anthropic(p) => p.supports_model(model),
            Provider::OpenAiChat(p) => p.supports_model(model),
            Provider::OpenAiResponses(p) => p.supports_model(model),
            Provider::Pending(p) => p.supports_model(model),
        }
    }

    fn chat(&self, req: &ProviderRequest) -> (r: Result<HttpRequest, AiError>) {
        match self {
            Provider::Anthropic(p) => p.chat(req),
            Provider::OpenAiChat(p) => p.chat(req),
            Provider::OpenAiResponses(p) => p.chat(req),
            Provider::Pending(p) => p.chat(req),
        }
    }
}

impl Provider {
    /// The format of the answer; none where `chat` always fails.
    pub fn wire(&self) -> (r: Option<Wire>)
        ensures
            r == wire_of(self.described()),
    {
        match self {
            Provider::Anthropic(_) => Some(Wire::Anthropic),
            Provider::OpenAiChat(_) => Some(Wire::ChatCompletions),
            _ => None,
        }
    }
}

// ---- registry -----------------------------------------------------------------------------------

/// A provider in the registry, with the vendor that it was set up for.
pub struct Registered {
    pub vendor: String,
    pub provider: Provider,
}

/// What a `Registered` denotes.
pub struct RegisteredView {
    pub vendor: Seq<char>,
    pub provider: ProviderView,
}

impl View for Registered {
    type V = RegisteredView;

    open spec fn view(&self) -> RegisteredView {
        RegisteredView { vendor: self.vendor@, provider: self.provider.described() }
    }
}

/// The first provider that was set up for a model's vendor and serves the model.
pub open spec fn first_own(s: Seq<RegisteredView>, m: ModelView) -> Option<ProviderView>
    decreases s.len(),
{
    if s.len() == 0 {
        None
    } else if s[0].vendor == m.provider && supports(s[0].provider, m) {
        Some(s[0].provider)
    } else {
        first_own(s.drop_first(), m)
    }
}

/// The provider for a model: the one of its vendor, else the first that serves it.
pub open spec fn chosen_provider(s: Seq<RegisteredView>, m: ModelView) -> Option<ProviderView> {
    match first_own(s, m) {
        Some(p) => Some(p),
        None => first_supporting(s, m),
    }
}

/// The first provider that serves a model.
pub open spec fn first_supporting(s: Seq<RegisteredView>, m: ModelView) -> Option<ProviderView>
    decreases s.len(),
{
    if s.len() == 0 {
        None
    } else if supports(s[0].provider, m) {
        Some(s[0].provider)
    } else {
        first_supporting(s.drop_first(), m)
    }
}

/// Whether a provider makes room when one is set up for the vendor: it was set up for the
/// vendor itself.
pub open spec fn stands_for(p: RegisteredView, vendor: Seq<char>) -> bool {
    p.vendor == vendor
}

/// The providers that stay when one is set up for the vendor.
pub open spec fn others(s: Seq<RegisteredView>, vendor: Seq<char>) -> Seq<RegisteredView>
    decreases s.len(),
{
    if s.len() == 0 {
        Seq::empty()
    } else {
        let rest = others(s.drop_last(), vendor);
        if stands_for(s.last(), vendor) {
            rest
        } else {
            rest.push(s.last())
        }
    }
}

/// The registry after `p` was set up for the vendor.
pub open spec fn set_up(s: Seq<RegisteredView>, vendor: Seq<char>, p: ProviderView) -> Seq<
    RegisteredView,
> {
    others(s, vendor).push(RegisteredView { vendor, provider: p })
}

/// The view of an optional provider.
pub open spec fn opt_provider(p: Option<&Provider>) -> Option<ProviderView> {
    match p {
        Some(p) => Some(p.described()),
        None => None,
    }
}

/// Registry of configured providers. Configure with `setup(kind, key, base_url)`.
pub struct ProviderClient {
    providers: Vec<Registered>,
}

impl View for ProviderClient {
    type V = Seq<RegisteredView>;

    closed spec fn view(&self) -> Seq<RegisteredView> {
        registered_views(self.providers@)
    }
}

impl ProviderClient {
    /// A registry without providers.
    pub fn new() -> (r: Self)
        ensures
            r@ == Seq::<RegisteredView>::empty(),
    {
        let r = ProviderClient { providers: Vec::new() };
        assert(r@ =~= Seq::empty());
        r
    }

    /// Adds a provider behind the others. It counts as set up for the vendor of its id.
    pub fn register(&mut self, p: Provider)
        ensures
            final(self)@ == old(self)@.push(
                RegisteredView { vendor: provider_id(p.described()), provider: p.described() },
            ),
    {
        let ghost before = self@;
        let vendor = p.id().to_owned();
        let x = Registered { vendor, provider: p };
        self.providers.push(x);
        assert(self@ =~= before.push(x@));
    }

    /// Replaces or adds the provider of `kind`. Running it again with another key or URL
    /// swaps the configuration.
    pub fn setup(
        &mut self,
        kind: ProviderKind,
        api_key: Option<String>,
        base_url: Option<String>,
        auth: &Json,
    )
        requires
            known_kind(kind@),
        ensures
            final(self)@ == set_up(
                old(self)@,
                kind@.vendor,
                built(kind@, text::opt_str(api_key), text::opt_str(base_url), auth@),
            ),
    {
        let ghost before = self@;
        let provider = kind.build(api_key, base_url, auth);
        let id = kind.id();
        let ghost all = self.providers@;
        let ghost mut seen: int = 0;
        let mut i: usize = 0;
        assert(before.take(0) =~= Seq::empty());
        assert(registered_views(self.providers@.take(0)) =~= Seq::empty());
        while i < self.providers.len()
            invariant
                0 <= seen <= all.len(),
                i <= self.providers@.len(),
                before == registered_views(all),
                self.providers@.skip(i as int) =~= all.skip(seen),
                registered_views(self.providers@.take(i as int)) == others(before.take(seen), id@),
            decreases all.len() - seen,
        {
            proof {
                assert(self.providers@.skip(i as int).len() == all.skip(seen).len());
                assert(self.providers@.skip(i as int)[0] == all.skip(seen)[0]);
                assert(before.take(seen + 1).drop_last() =~= before.take(seen));
                assert(before.take(seen + 1).last() == self.providers@[i as int]@);
                assert(all.skip(seen).drop_first() =~= all.skip(seen + 1));
                assert(self.providers@.skip(i as int).drop_first() =~= self.providers@.skip(i + 1));
                seen = seen + 1;
            }
            let ghost list = self.providers@;
            if text::str_eq(self.providers[i].vendor.as_str(), id) {
                self.providers.remove(i);
                assert(self.providers@.take(i as int) =~= list.take(i as int));
                assert(self.providers@.skip(i as int) =~= list.skip(i + 1));
            } else {
                assert(registered_views(list.take(i + 1)) =~= registered_views(
                    list.take(i as int),
                ).push(list[i as int]@));
                i += 1;
            }
        }
        assert(before.take(before.len() as int) =~= before);
        assert(self.providers@.take(i as int) =~= self.providers@);
        let ghost kept = self.providers@;
        let x = Registered { vendor: id.to_owned(), provider };
        self.providers.push(x);
        assert(registered_views(self.providers@) =~= registered_views(kept).push(x@));
    }

    /// The provider for the model: the one that was set up for its vendor, else the first
    /// that serves it.
    pub fn provider_for(&self, model: &Model) -> (r: Option<&Provider>)
        ensures
            opt_provider(r) == chosen_provider(self@, model@),
    {
        match self.own_provider(model) {
            Some(p) => Some(p),
            None => self.any_provider(model),
        }
    }

    fn own_provider(&self, model: &Model) -> (r: Option<&Provider>)
        ensures
            opt_provider(r) == first_own(self@, model@),
    {
        let mut i: usize = 0;
        assert(self@.skip(0) =~= self@);
        while i < self.providers.len()
            invariant
                i <= self.providers@.len(),
                self@ == registered_views(self.providers@),
                first_own(self@, model@) == first_own(self@.skip(i as int), model@),
            decreases self.providers@.len() - i,
        {
            assert(self@.skip(i as int)[0] == self.providers@[i as int]@);
            if text::str_eq(self.providers[i].vendor.as_str(), model.provider.as_str())
                && self.providers[i].provider.supports_model(model) {
                return Some(&self.providers[i].provider);
            }
            assert(self@.skip(i as int).drop_first() =~= self@.skip(i + 1));
            i += 1;
        }
        None
    }

    fn any_provider(&self, model: &Model) -> (r: Option<&Provider>)
        ensures
            opt_provider(r) == first_supporting(self@, model@),
    {
        let mut i: usize = 0;
        assert(self@.skip(0) =~= self@);
        while i < self.providers.len()
            invariant
                i <= self.providers@.len(),
                self@ == registered_views(self.providers@),
                first_supporting(self@, model@) == first_supporting(
                    self@.skip(i as int),
                    model@,
                ),
            decreases self.providers@.len() - i,
        {
            assert(self@.skip(i as int)[0] == self.providers@[i as int]@);
            if self.providers[i].provider.supports_model(model) {
                return Some(&self.providers[i].provider);
            }
            assert(self@.skip(i as int).drop_first() =~= self@.skip(i + 1));
            i += 1;
        }
        None
    }

    /// The number of providers.
    pub fn count(&self) -> (r: usize)
        ensures
            r == self@.len(),
    {
        self.providers.len()
    }
}

impl Default for ProviderClient {
    fn default() -> (r: Self)
        ensures
            r@ == Seq::<RegisteredView>::empty(),
    {
        ProviderClient::new()
    }
}

spec fn registered_views(s: Seq<Registered>) -> Seq<RegisteredView> {
    s.map_values(|p: Registered| p@)
}

// ---- laws ---------------------------------------------------------------------------------------

/// Every kind that can be written is a known one, so each of its settings has a value.
pub proof fn parsed_kinds_are_known(s: Seq<char>)
    ensures
        parsed_kind(s) matches Some(k) ==> known_kind(k) && known_vendor(k.vendor),
{
}

proof fn lemma_kind_words()
    ensures
        text::is_word("anthropic"@) && text::lowered("anthropic"@) == "anthropic"@,
        text::is_word("openai"@) && text::lowered("openai"@) == "openai"@,
        text::is_word("deepseek"@) && text::lowered("deepseek"@) == "deepseek"@,
        text::is_word("chat"@) && text::lowered("chat"@) == "chat"@,
        text::is_word("responses"@) && text::lowered("responses"@) == "responses"@,
        text::is_word("messages"@) && text::lowered("messages"@) == "messages"@,
        " "@ == seq![' '],
        "openai"@ != "anthropic"@,
        "openai"@ != "deepseek"@,
        "deepseek"@ != "anthropic"@,
        "responses"@ != "chat"@,
        "responses"@ != "chat-completions"@,
        "responses"@ != "chatcompletions"@,
{
    reveal_strlit("anthropic");
    reveal_strlit("openai");
    reveal_strlit("deepseek");
    reveal_strlit("chat");
    reveal_strlit("responses");
    reveal_strlit("messages");
    reveal_strlit("chat-completions");
    reveal_strlit("chatcompletions");
    reveal_strlit(" ");
    assert(" "@ =~= seq![' ']);
    assert(text::lowered("anthropic"@) =~= "anthropic"@);
    assert(text::lowered("openai"@) =~= "openai"@);
    assert(text::lowered("deepseek"@) =~= "deepseek"@);
    assert(text::lowered("chat"@) =~= "chat"@);
    assert(text::lowered("responses"@) =~= "responses"@);
    assert(text::lowered("messages"@) =~= "messages"@);
    assert("openai"@.len() != "anthropic"@.len());
    assert("openai"@.len() != "deepseek"@.len());
    assert("deepseek"@.len() != "anthropic"@.len());
    assert("responses"@.len() != "chat"@.len());
    assert("responses"@.len() != "chat-completions"@.len());
    assert("responses"@.len() != "chatcompletions"@.len());
}

/// The written form of a kind reads back as the kind.
pub proof fn display_reads_back(k: KindView)
    requires
        known_kind(k),
    ensures
        parsed_kind(shown_kind(k)) == Some(k),
{
    lemma_kind_words();
    text::two_words(k.vendor, k.api.name());
}

/// A joined URL ends in the API path and is left alone by another join, unless the base is
/// empty but for slashes.
pub proof fn joined_url_is_stable(k: KindView, base: Seq<char>)
    requires
        text::without_trailing(base, '/').len() > 0,
    ensures
        text::has_suffix(joined_url(k, base), variant_path(k.api)),
        joined_url(k, joined_url(k, base)) == joined_url(k, base),
{
    let path = variant_path(k.api);
    let trimmed = text::without_trailing(base, '/');
    assert((trimmed + path).skip((trimmed + path).len() - path.len()) =~= path);
}

/// Slashes at the end of a base URL make no difference, unless they complete the API path.
pub proof fn trailing_slash_is_tolerated(k: KindView, base: Seq<char>)
    requires
        !text::has_suffix(base, variant_path(k.api)),
    ensures
        joined_url(k, base.push('/')) == joined_url(k, base),
{
    let path = variant_path(k.api);
    let longer = base.push('/');
    assert(longer.drop_last() =~= base);
    reveal_strlit("/chat/completions");
    reveal_strlit("/responses");
    reveal_strlit("/messages");
    assert(path.last() != '/');
    if text::has_suffix(longer, path) {
        assert(longer.skip(longer.len() - path.len()).last() == longer.last());
        assert(false);
    }
}

proof fn lemma_others_miss(s: Seq<RegisteredView>, vendor: Seq<char>)
    ensures
        forall|i: int|
            0 <= i < others(s, vendor).len() ==> !stands_for(
                #[trigger] others(s, vendor)[i],
                vendor,
            ) && s.contains(others(s, vendor)[i]),
    decreases s.len(),
{
    if s.len() > 0 {
        lemma_others_miss(s.drop_last(), vendor);
        let rest = others(s.drop_last(), vendor);
        assert forall|i: int| 0 <= i < others(s, vendor).len() implies !stands_for(
            #[trigger] others(s, vendor)[i],
            vendor,
        ) && s.contains(others(s, vendor)[i]) by {
            if i < rest.len() {
                assert(others(s, vendor)[i] == rest[i]);
                let j = s.drop_last().index_of(rest[i]);
                assert(s[j] == rest[i]);
            } else {
                assert(s[s.len() - 1] == s.last());
            }
        }
    }
}

proof fn lemma_others_again(s: Seq<RegisteredView>, vendor: Seq<char>)
    ensures
        others(others(s, vendor), vendor) == others(s, vendor),
    decreases s.len(),
{
    if s.len() > 0 {
        lemma_others_again(s.drop_last(), vendor);
        let rest = others(s.drop_last(), vendor);
        if !stands_for(s.last(), vendor) {
            assert(rest.push(s.last()).drop_last() =~= rest);
        }
    }
}

/// Setting a kind up again swaps its configuration and leaves the rest of the registry as
/// the first time left it.
pub proof fn setup_swaps(
    s: Seq<RegisteredView>,
    vendor: Seq<char>,
    p: ProviderView,
    q: ProviderView,
)
    ensures
        set_up(set_up(s, vendor, p), vendor, q) == set_up(s, vendor, q),
{
    let kept = others(s, vendor);
    lemma_others_again(s, vendor);
    assert(set_up(s, vendor, p).drop_last() =~= kept);
}

/// After a setup exactly one provider stands for the vendor: the new one.
pub proof fn setup_keeps_one(s: Seq<RegisteredView>, vendor: Seq<char>, p: ProviderView)
    ensures
        set_up(s, vendor, p).last() == (RegisteredView { vendor, provider: p }),
        forall|i: int|
            0 <= i < set_up(s, vendor, p).len() - 1 ==> !stands_for(
                #[trigger] set_up(s, vendor, p)[i],
                vendor,
            ),
{
    lemma_others_miss(s, vendor);
    let kept = others(s, vendor);
    assert forall|i: int| 0 <= i < set_up(s, vendor, p).len() - 1 implies !stands_for(
        #[trigger] set_up(s, vendor, p)[i],
        vendor,
    ) by {
        assert(set_up(s, vendor, p)[i] == kept[i]);
    }
}

proof fn lemma_first_own(s: Seq<RegisteredView>, p: RegisteredView, m: ModelView)
    requires
        p.vendor == m.provider,
        supports(p.provider, m),
        forall|i: int| 0 <= i < s.len() ==> (#[trigger] s[i]).vendor != m.provider,
    ensures
        first_own(s.push(p), m) == Some(p.provider),
    decreases s.len(),
{
    if s.len() > 0 {
        assert(s.push(p).drop_first() =~= s.drop_first().push(p));
        assert(s.push(p)[0] == s[0]);
        assert forall|i: int| 0 <= i < s.drop_first().len() implies (
        #[trigger] s.drop_first()[i]).vendor != m.provider by {
            assert(s.drop_first()[i] == s[i + 1]);
        }
        lemma_first_own(s.drop_first(), p, m);
    }
}

/// After a kind is set up, the models of its vendor are served by the new provider, whatever
/// was there before.
pub proof fn setup_serves_its_vendor(
    s: Seq<RegisteredView>,
    k: KindView,
    api_key: Option<Seq<char>>,
    base_url: Option<Seq<char>>,
    auth: JVal,
    m: ModelView,
)
    requires
        known_kind(k),
        m.provider == k.vendor,
    ensures
        chosen_provider(set_up(s, k.vendor, built(k, api_key, base_url, auth)), m) == Some(
            built(k, api_key, base_url, auth),
        ),
{
    let p = built(k, api_key, base_url, auth);
    lemma_others_miss(s, k.vendor);
    lemma_first_own(others(s, k.vendor), RegisteredView { vendor: k.vendor, provider: p }, m);
}

/// What a patch sets is what the merged settings say; what it does not name stays.
pub proof fn merge_prefers_the_patch(root: JVal, patch: JVal, key: Seq<char>)
    requires
        patch is Object,
    ensures
        json::member(merged(root, patch), key) == (if json::member(patch, key) is Some {
            json::member(patch, key)
        } else {
            json::member(root, key)
        }),
{
}

/// The key and the URL that a patch sets for a vendor are the ones used, where nothing
/// overrides them.
pub proof fn patched_settings_are_used(
    root: JVal,
    patch: JVal,
    k: KindView,
    env: Option<Seq<char>>,
)
    requires
        patch is Object,
        settings_entry(patch, k.vendor, "api_key"@) is Some,
        settings_entry(patch, k.vendor, "base_url"@) is Some,
    ensures
        resolved_key(k, None, merged(root, patch), env) == settings_entry(
            patch,
            k.vendor,
            "api_key"@,
        ),
        Some(resolved_url(k, None, merged(root, patch))) == settings_entry(
            patch,
            k.vendor,
            "base_url"@,
        ),
{
    merge_prefers_the_patch(root, patch, k.vendor);
}

/// An explicit key that is not empty wins over the settings and the environment.
pub proof fn explicit_key_wins(
    k: KindView,
    key: Seq<char>,
    auth: JVal,
    env: Option<Seq<char>>,
)
    requires
        key.len() > 0,
    ensures
        resolved_key(k, Some(key), auth, env) == Some(key),
        resolved_key(k, Some(Seq::empty()), auth, env) == resolved_key(k, None, auth, env),
{
}

proof fn lemma_api_words()
    ensures
        "responses"@ != "chat"@,
        "responses"@ != "chat-completions"@,
        "responses"@ != "chatcompletions"@,
        "resp"@ != "chat"@,
        "resp"@ != "chat-completions"@,
        "resp"@ != "chatcompletions"@,
        "chat-resp"@ != "chat"@,
        "chat-resp"@ != "chat-completions"@,
        "chat-resp"@ != "chatcompletions"@,
        "chatresp"@ != "chat"@,
        "chatresp"@ != "chat-completions"@,
        "chatresp"@ != "chatcompletions"@,
        "messages"@ != "chat"@,
        "messages"@ != "chat-completions"@,
        "messages"@ != "chatcompletions"@,
        "messages"@ != "responses"@,
        "messages"@ != "resp"@,
        "messages"@ != "chat-resp"@,
        "messages"@ != "chatresp"@,
{
    reveal_strlit("chat");
    reveal_strlit("responses");
    reveal_strlit("messages");
    reveal_strlit("chat-completions");
    reveal_strlit("chatcompletions");
    reveal_strlit("resp");
    reveal_strlit("chat-resp");
    reveal_strlit("chatresp");
    assert("responses"@.len() != "chat"@.len());
    assert("responses"@.len() != "chat-completions"@.len());
    assert("responses"@.len() != "chatcompletions"@.len());
    assert("resp"@[0] != "chat"@[0]);
    assert("resp"@.len() != "chat-completions"@.len());
    assert("resp"@.len() != "chatcompletions"@.len());
    assert("chat-resp"@.len() != "chat"@.len());
    assert("chat-resp"@.len() != "chat-completions"@.len());
    assert("chat-resp"@.len() != "chatcompletions"@.len());
    assert("chatresp"@.len() != "chat"@.len());
    assert("chatresp"@.len() != "chat-completions"@.len());
    assert("chatresp"@.len() != "chatcompletions"@.len());
    assert("messages"@.len() != "chat"@.len());
    assert("messages"@.len() != "chat-completions"@.len());
    assert("messages"@.len() != "chatcompletions"@.len());
    assert("messages"@.len() != "responses"@.len());
    assert("messages"@.len() != "resp"@.len());
    assert("messages"@.len() != "chat-resp"@.len());
    assert("messages"@[0] != "chatresp"@[0]);
}


/// A kind is written as a vendor and an API, in any letter case, with whatever white space
/// between them. Each vendor has its own APIs: anthropic messages, openai chat and responses,
/// deepseek chat; the chat and responses APIs have short names too.
pub proof fn kinds_are_written(s: Seq<char>, vendor: Seq<char>, api: Seq<char>)
    requires
        text::words(s).len() == 2,
        vendor == text::lowered(text::words(s)[0]),
        api == text::lowered(text::words(s)[1]),
    ensures
        vendor == "anthropic"@ && api == "messages"@ ==> parsed_kind(s) == Some(
            KindView { vendor: "anthropic"@, api: ApiVariant::Messages },
        ),
        vendor == "anthropic"@ && api != "messages"@ ==> parsed_kind(s) is None,
        vendor == "openai"@ && (api == "chat"@ || api == "chat-completions"@ || api
            == "chatcompletions"@) ==> parsed_kind(s) == Some(
            KindView { vendor: "openai"@, api: ApiVariant::Chat },
        ),
        vendor == "openai"@ && (api == "responses"@ || api == "resp"@ || api == "chat-resp"@ || api
            == "chatresp"@) ==> parsed_kind(s) == Some(
            KindView { vendor: "openai"@, api: ApiVariant::Responses },
        ),
        vendor == "openai"@ && parsed_kind(s) is Some ==> [
            "chat"@,
            "chat-completions"@,
            "chatcompletions"@,
            "responses"@,
            "resp"@,
            "chat-resp"@,
            "chatresp"@,
        ]@.contains(api),
        vendor == "deepseek"@ && (api == "chat"@ || api == "chat-completions"@ || api
            == "chatcompletions"@) ==> parsed_kind(s) == Some(
            KindView { vendor: "deepseek"@, api: ApiVariant::Chat },
        ),
        vendor == "deepseek"@ && (api == "responses"@ || api == "messages"@) ==> parsed_kind(
            s,
        ) is None,
        vendor != "anthropic"@ && vendor != "openai"@ && vendor != "deepseek"@ ==> parsed_kind(
            s,
        ) is None,
{
    lemma_kind_words();
    lemma_api_words();
    if vendor == "openai"@ && parsed_kind(s) is Some {
        let all = [
            "chat"@,
            "chat-completions"@,
            "chatcompletions"@,
            "responses"@,
            "resp"@,
            "chat-resp"@,
            "chatresp"@,
        ]@;
        assert(all[0] == "chat"@ && all[1] == "chat-completions"@ && all[2] == "chatcompletions"@
            && all[3] == "responses"@ && all[4] == "resp"@ && all[5] == "chat-resp"@ && all[6]
            == "chatresp"@);
    }
}

/// A vendor written alone means its first API: messages for anthropic, chat for the others.
/// What is no vendor, and what has more than two words, is no kind.
pub proof fn vendors_have_default_apis(s: Seq<char>)
    ensures
        text::words(s).len() == 1 && text::lowered(text::words(s)[0]) == "anthropic"@
            ==> parsed_kind(s) == Some(KindView { vendor: "anthropic"@, api: ApiVariant::Messages }),
        text::words(s).len() == 1 && text::lowered(text::words(s)[0]) == "openai"@ ==> parsed_kind(s)
            == Some(KindView { vendor: "openai"@, api: ApiVariant::Chat }),
        text::words(s).len() == 1 && text::lowered(text::words(s)[0]) == "deepseek"@ ==> parsed_kind(
            s,
        ) == Some(KindView { vendor: "deepseek"@, api: ApiVariant::Chat }),
        text::words(s).len() == 1 && text::lowered(text::words(s)[0]) != "anthropic"@
            && text::lowered(text::words(s)[0]) != "openai"@ && text::lowered(text::words(s)[0])
            != "deepseek"@ ==> parsed_kind(s) is None,
        text::words(s).len() == 0 ==> parsed_kind(s) is None,
        text::words(s).len() > 2 ==> parsed_kind(s) is None,
{
    lemma_kind_words();
}

/// The kinds by their written forms, their paths, and the URLs and variables of their vendors.
pub proof fn kinds_have_their_settings(v: Seq<char>)
    ensures
        shown_kind(KindView { vendor: v, api: ApiVariant::Chat }) == v + " chat"@,
        shown_kind(KindView { vendor: v, api: ApiVariant::Responses }) == v + " responses"@,
        shown_kind(KindView { vendor: v, api: ApiVariant::Messages }) == v + " messages"@,
        variant_path(ApiVariant::Chat) == "/chat/completions"@,
        variant_path(ApiVariant::Responses) == "/responses"@,
        variant_path(ApiVariant::Messages) == "/messages"@,
        vendor_url("openai"@) == "https://api.openai.com/v1"@,
        vendor_url("deepseek"@) == "https://api.deepseek.com/v1"@,
        vendor_url("anthropic"@) == "https://api.anthropic.com/v1"@,
        vendor_key_var("anthropic"@) == "ANTHROPIC_API_KEY"@,
        vendor_key_var("openai"@) == "OPENAI_API_KEY"@,
        vendor_key_var("deepseek"@) == "DEEPSEEK_API_KEY"@,
{
    lemma_kind_words();
    reveal_strlit(" ");
    reveal_strlit("chat");
    reveal_strlit("responses");
    reveal_strlit("messages");
    reveal_strlit(" chat");
    reveal_strlit(" responses");
    reveal_strlit(" messages");
    assert(v + " "@ + "chat"@ =~= v + " chat"@);
    assert(v + " "@ + "responses"@ =~= v + " responses"@);
    assert(v + " "@ + "messages"@ =~= v + " messages"@);
}

/// A URL that does not end in the API path gets it behind its last part; one that ends in it
/// stays; one that holds only slashes gives way to the vendor's.
pub proof fn urls_are_joined(k: KindView, base: Seq<char>, url: Seq<char>)
    requires
        url.len() > 0,
        url.last() != '/',
        !text::has_suffix(url, variant_path(k.api)),
        forall|i: int| 0 <= i < base.len() ==> #[trigger] base[i] == '/',
    ensures
        joined_url(k, url) == url + variant_path(k.api),
        joined_url(k, url + variant_path(k.api)) == url + variant_path(k.api),
        joined_url(k, base) == vendor_url(k.vendor),
{
    let path = variant_path(k.api);
    text::prefixes_and_suffixes(path, url, url);
    text::trailing_characters_go(base, '/');
    if text::without_trailing(base, '/').len() > 0 {
        let n = text::without_trailing(base, '/').len() as int;
        assert(base.take(n)[n - 1] == base[n - 1]);
    }
    reveal_strlit("/chat/completions");
    reveal_strlit("/responses");
    reveal_strlit("/messages");
    if text::has_suffix(base, path) {
        assert(base.skip(base.len() - path.len()).last() == base.last());
        assert(base[base.len() - 1] == '/');
        assert(path.last() != '/');
    }
}

/// Settings are read under the vendor's own section; a value that is no string, and a section
/// that is none, count as missing.
pub proof fn settings_are_read(
    m: Map<Seq<char>, JVal>,
    section: Map<Seq<char>, JVal>,
    vendor: Seq<char>,
    field: Seq<char>,
    t: Seq<char>,
    v: JVal,
)
    ensures
        settings_entry(
            JVal::Object(m.insert(vendor, JVal::Object(section.insert(field, JVal::Str(t))))),
            vendor,
            field,
        ) == Some(t),
        !(v is Str) ==> settings_entry(
            JVal::Object(m.insert(vendor, JVal::Object(section.insert(field, v)))),
            vendor,
            field,
        ) is None,
        !section.contains_key(field) ==> settings_entry(
            JVal::Object(m.insert(vendor, JVal::Object(section))),
            vendor,
            field,
        ) is None,
        !(v is Object) ==> settings_entry(JVal::Object(m.insert(vendor, v)), vendor, field) is None,
        !m.contains_key(vendor) ==> settings_entry(JVal::Object(m), vendor, field) is None,
{
}

/// Keys and URLs take their turn: what is given comes first where it is not empty, then what
/// the vendor's section holds, then the environment's key and the vendor's URL.
pub proof fn sources_take_their_turn(
    k: KindView,
    given: Seq<char>,
    auth: JVal,
    env: Option<Seq<char>>,
    m: Map<Seq<char>, JVal>,
    section: Map<Seq<char>, JVal>,
    t: Seq<char>,
)
    ensures
        given.len() > 0 ==> resolved_key(k, Some(given), auth, env) == Some(given),
        given.len() > 0 ==> resolved_url(k, Some(given), auth) == given,
        given.len() == 0 ==> resolved_key(k, Some(given), auth, env) == resolved_key(
            k,
            None,
            auth,
            env,
        ),
        given.len() == 0 ==> resolved_url(k, Some(given), auth) == resolved_url(k, None, auth),
        resolved_key(
            k,
            None,
            JVal::Object(
                m.insert(k.vendor, JVal::Object(section.insert("api_key"@, JVal::Str(t)))),
            ),
            env,
        ) == Some(t),
        resolved_url(
            k,
            None,
            JVal::Object(
                m.insert(k.vendor, JVal::Object(section.insert("base_url"@, JVal::Str(t)))),
            ),
        ) == t,
        !m.contains_key(k.vendor) ==> resolved_key(k, None, JVal::Object(m), env) == env,
        !m.contains_key(k.vendor) ==> resolved_url(k, None, JVal::Object(m)) == vendor_url(k.vendor),
{
}

/// A kind is built into the provider of its API, which goes by the right id, serves the models
/// of the vendor, and sends the key it was given to the joined URL.
pub proof fn kinds_are_built(
    k: KindView,
    key: Seq<char>,
    url: Seq<char>,
    auth: JVal,
    m: ModelView,
)
    requires
        known_kind(k),
    ensures
        supports(built(k, Some(key), Some(url), auth), m) || m.provider != k.vendor,
        k.api == ApiVariant::Messages ==> (built(
            k,
            Some(key),
            Some(url),
            auth,
        ) matches ProviderView::Anthropic(a) && a.api_key == key && a.version == "2023-06-01"@ && (
        url.len() > 0 ==> a.base_url == joined_url(k, url))),
        k.api == ApiVariant::Chat ==> (built(
            k,
            Some(key),
            Some(url),
            auth,
        ) matches ProviderView::OpenAiChat(e) && e.api_key == key && (url.len() > 0 ==> e.base_url
            == joined_url(k, url))),
        k.api == ApiVariant::Responses ==> built(k, Some(key), Some(url), auth)
            == ProviderView::Pending(k.vendor, ApiVariant::Responses),
        built(k, None, Some(url), auth) == built(k, Some(Seq::empty()), Some(url), auth),
        built(k, Some(key), None, auth) == built(
            k,
            Some(key),
            Some(resolved_url(k, None, auth)),
            auth,
        ),
{
    lemma_kind_words();
}

/// Providers go by the ids of their APIs and serve the models of their vendors, and no others.
pub proof fn providers_serve_their_vendors(
    a: AnthropicView,
    e: EndpointView,
    vendor: Seq<char>,
    api: ApiVariant,
    m: ModelView,
)
    ensures
        provider_id(ProviderView::Anthropic(a)) == "anthropic"@,
        provider_id(ProviderView::OpenAiChat(e)) == "openai"@,
        provider_id(ProviderView::OpenAiResponses(e)) == "openai"@,
        provider_id(ProviderView::Pending(vendor, api)) == vendor,
        supports(ProviderView::Anthropic(a), m) <==> m.provider == "anthropic"@,
        supports(ProviderView::OpenAiChat(e), m) <==> m.provider == "openai"@ || m.provider
            == "deepseek"@,
        supports(ProviderView::OpenAiResponses(e), m) <==> m.provider == "openai"@,
        supports(ProviderView::Pending(vendor, api), m) <==> m.provider == vendor,
{
}

/// The settings that a file holds are the object that its text is; a file that is missing, that
/// is no JSON, or that holds another value, holds no settings.
pub proof fn settings_are_what_the_file_holds(t: Seq<char>, key: Seq<char>)
    ensures
        json::parsed(t) matches Ok(v) && v is Object ==> settings(Some(t)) == json::parsed(t)->Ok_0,
        !(json::parsed(t) is Ok && json::parsed(t)->Ok_0 is Object) ==> json::member(
            settings(Some(t)),
            key,
        ) is None,
        json::member(settings(None), key) is None,
        settings(Some(t)) is Object && settings(None) is Object,
{
}

/// The provider for a model serves it; it is one that was registered for the model's vendor
/// where such a one serves the model, and there is none only where no provider serves it.
pub proof fn chosen_provider_serves(s: Seq<RegisteredView>, m: ModelView)
    ensures
        chosen_provider(s, m) matches Some(p) ==> supports(p, m) && (exists|i: int|
            0 <= i < s.len() && (#[trigger] s[i]).provider == p),
        chosen_provider(s, m) is None ==> forall|i: int|
            0 <= i < s.len() ==> !supports((#[trigger] s[i]).provider, m),
        (exists|i: int|
            0 <= i < s.len() && (#[trigger] s[i]).vendor == m.provider && supports(s[i].provider, m))
            ==> (chosen_provider(s, m) matches Some(p) && exists|i: int|
            0 <= i < s.len() && (#[trigger] s[i]).vendor == m.provider && s[i].provider == p),
{
    lemma_own_serves(s, m);
    lemma_any_serves(s, m);
}

proof fn lemma_own_serves(s: Seq<RegisteredView>, m: ModelView)
    ensures
        first_own(s, m) matches Some(p) ==> supports(p, m) && (exists|i: int|
            0 <= i < s.len() && (#[trigger] s[i]).vendor == m.provider && s[i].provider == p),
        first_own(s, m) is None ==> forall|i: int|
            0 <= i < s.len() ==> (#[trigger] s[i]).vendor != m.provider || !supports(
                s[i].provider,
                m,
            ),
    decreases s.len(),
{
    if s.len() > 0 {
        let rest = s.drop_first();
        lemma_own_serves(rest, m);
        assert forall|i: int| 1 <= i < s.len() implies #[trigger] s[i] == rest[i - 1] by {}
        if s[0].vendor == m.provider && supports(s[0].provider, m) {
            assert(s[0].provider == s[0].provider);
        } else if let Some(p) = first_own(rest, m) {
            let i = choose|i: int|
                0 <= i < rest.len() && (#[trigger] rest[i]).vendor == m.provider && rest[i].provider
                    == p;
            assert(s[i + 1] == rest[i]);
        }
    }
}

proof fn lemma_any_serves(s: Seq<RegisteredView>, m: ModelView)
    ensures
        first_supporting(s, m) matches Some(p) ==> supports(p, m) && (exists|i: int|
            0 <= i < s.len() && (#[trigger] s[i]).provider == p),
        first_supporting(s, m) is None ==> forall|i: int|
            0 <= i < s.len() ==> !supports((#[trigger] s[i]).provider, m),
    decreases s.len(),
{
    if s.len() > 0 {
        let rest = s.drop_first();
        lemma_any_serves(rest, m);
        assert forall|i: int| 1 <= i < s.len() implies #[trigger] s[i] == rest[i - 1] by {}
        if supports(s[0].provider, m) {
            assert(s[0].provider == s[0].provider);
        } else if let Some(p) = first_supporting(rest, m) {
            let i = choose|i: int| 0 <= i < rest.len() && (#[trigger] rest[i]).provider == p;
            assert(s[i + 1] == rest[i]);
        }
    }
}

/// A setup touches no provider of another vendor: those stay, in their order.
pub proof fn setup_leaves_others(
    s: Seq<RegisteredView>,
    r: RegisteredView,
    vendor: Seq<char>,
    p: ProviderView,
)
    ensures
        r.vendor != vendor ==> others(s.push(r), vendor) == others(s, vendor).push(r),
        r.vendor == vendor ==> others(s.push(r), vendor) == others(s, vendor),
        others(Seq::empty(), vendor).len() == 0,
        forall|i: int|
            0 <= i < s.len() && (#[trigger] s[i]).vendor != vendor ==> set_up(s, vendor, p).contains(
                s[i],
            ),
    decreases s.len(),
{
    assert(s.push(r).drop_last() =~= s);
    lemma_others_kept(s, vendor);
    assert forall|i: int| 0 <= i < s.len() && (#[trigger] s[i]).vendor != vendor implies set_up(
        s,
        vendor,
        p,
    ).contains(s[i]) by {
        let kept = others(s, vendor);
        let j = choose|j: int| 0 <= j < kept.len() && kept[j] == s[i];
        assert(set_up(s, vendor, p)[j] == s[i]);
    }
}

proof fn lemma_others_kept(s: Seq<RegisteredView>, vendor: Seq<char>)
    ensures
        forall|i: int|
            0 <= i < s.len() && (#[trigger] s[i]).vendor != vendor ==> others(s, vendor).contains(
                s[i],
            ),
    decreases s.len(),
{
    if s.len() > 0 {
        let rest = s.drop_last();
        lemma_others_kept(rest, vendor);
        assert forall|i: int| 0 <= i < s.len() && (#[trigger] s[i]).vendor != vendor implies others(
            s,
            vendor,
        ).contains(s[i]) by {
            if i < rest.len() {
                assert(rest[i] == s[i]);
                let kept = others(rest, vendor);
                let j = choose|j: int| 0 <= j < kept.len() && kept[j] == s[i];
                assert(others(s, vendor)[j] == s[i]);
            } else {
                assert(others(s, vendor).last() == s[i]);
            }
        }
    }
}

/// Each provider sends its own API's request.
pub proof fn providers_send_their_requests(
    a: AnthropicView,
    e: EndpointView,
    vendor: Seq<char>,
    req: ProviderRequestView,
)
    ensures
        provider_http(ProviderView::Anthropic(a), req) == anthropic::anthropic_request(a, req),
        provider_http(ProviderView::OpenAiChat(e), req) == openai::chat_http(e, req),
        provider_http(ProviderView::OpenAiResponses(e), req) is Err,
        provider_http(ProviderView::Pending(vendor, ApiVariant::Responses), req) is Err,
{
}

/// An answer is read in the format of the API that was asked.
pub proof fn answers_are_read_in_their_format(
    k: KindView,
    key: Option<Seq<char>>,
    url: Option<Seq<char>>,
    auth: JVal,
)
    requires
        known_kind(k),
    ensures
        k.vendor == "anthropic"@ ==> wire_of(built(k, key, url, auth)) == Some(Wire::Anthropic),
        k.vendor != "anthropic"@ && k.api == ApiVariant::Chat ==> wire_of(
            built(k, key, url, auth),
        ) == Some(Wire::ChatCompletions),
        k.api == ApiVariant::Responses ==> wire_of(built(k, key, url, auth)) is None,
{
    lemma_kind_words();
}

/// A path that is given is the settings file itself, whatever else is known; without one it is
/// below the home directory, and without that below the profile's.
pub proof fn settings_file_is_found<P>(p: P, home: Option<P>, profile: Option<P>)
    ensures
        auth_location(Some(p), home, profile) == Some(AuthPath::File(p)),
        auth_location(None, Some(p), profile) == Some(AuthPath::Under(p)),
        auth_location(None, None, Some(p)) == Some(AuthPath::Under(p)),
        auth_location(None::<P>, None, None) is None,
{
}

} // verus!
