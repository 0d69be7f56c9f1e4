//! From the command line, the settings file and the environment to a configured session.

use crate::builtins;
use crate::bus::{Event, HookAction};
use crate::creds::Credentials;
use crate::json;
use crate::json::{JVal, Json};
use crate::journal;
use crate::journal::Journal;
use crate::model::{Model, ModelView};
use crate::provider;
use crate::provider::{ApiVariant, ChatProvider, KindView, ProviderKind, ProviderView};
use crate::session::AgentSession;
use crate::text;
use crate::tools;
use vstd::prelude::*;
use vstd::string::*;

verus! {

/// What the command line says, whatever the mode.
#[derive(Debug, Clone)]
pub struct CommonArgs {
    pub cwd: String,
    pub provider: String,
    pub model: Option<String>,
    pub base_url: Option<String>,
    pub api_key: Option<String>,
}

/// The provider that the settings name; `openai chat` where they name none.
pub open spec fn configured_provider(auth: JVal) -> Seq<char> {
    match json::opt_str_value(json::member(auth, "provider"@)) {
        Some(t) => t,
        None => "openai chat"@,
    }
}

/// The provider that the settings name.
pub fn provider_setting(auth: &Json) -> (r: String)
    ensures
        r@ == configured_provider(auth@),
{
    match auth.opt_text_member("provider") {
        Some(t) => t,
        None => "openai chat".to_owned(),
    }
}

/// The model that a vendor's users get where they ask for none; there is none for anthropic.
pub open spec fn vendor_model(vendor: Seq<char>) -> Option<Seq<char>> {
    if vendor == "anthropic"@ {
        None
    } else if vendor == "openai"@ {
        Some("gpt-4o-mini"@)
    } else {
        Some("deepseek-chat"@)
    }
}

/// The model to use: the explicit one, else that of the settings, else the vendor's.
pub open spec fn chosen_model(
    k: KindView,
    explicit: Option<Seq<char>>,
    auth: JVal,
) -> Option<ModelView> {
    let id = match (explicit, json::opt_str_value(json::member(auth, "default_model"@))) {
        (Some(m), _) => Some(m),
        (None, Some(m)) => Some(m),
        (None, None) => vendor_model(k.vendor),
    };
    match id {
        Some(id) => Some(
            ModelView { provider: k.vendor, id, context_window: 200_000, max_tokens: 4096 },
        ),
        None => None,
    }
}

/// The model to use, if one is named.
pub fn choose_model(kind: &ProviderKind, explicit: Option<String>, auth: &Json) -> (r: Option<
    Model,
>)
    ensures
        match (r, chosen_model(kind@, text::opt_str(explicit), auth@)) {
            (Some(m), Some(want)) => m@ == want,
            (None, None) => true,
            _ => false,
        },
{
    let id = match explicit {
        Some(m) => m,
        None => match auth.opt_text_member("default_model") {
            Some(m) => m,
            None => {
                if text::str_eq(kind.id(), "anthropic") {
                    return None;
                } else if text::str_eq(kind.id(), "openai") {
                    "gpt-4o-mini".to_owned()
                } else {
                    "deepseek-chat".to_owned()
                }
            },
        },
    };
    Some(Model { provider: kind.id().to_owned(), id, context_window: 200_000, max_tokens: 4096 })
}

/// A provider's key among the credentials.
pub open spec fn credential(creds: Map<Seq<char>, Seq<char>>, vendor: Seq<char>) -> Option<Seq<char>> {
    if creds.contains_key(vendor) {
        Some(creds[vendor])
    } else {
        None
    }
}

/// A provider's key among the credentials.
pub fn credential_of(creds: &Credentials, vendor: &str) -> (r: Option<String>)
    ensures
        text::opt_str(r) == credential(creds@, vendor@),
{
    match creds.get(vendor) {
        Some(k) => Some(k.to_owned()),
        None => None,
    }
}

/// The kind that a command line and the settings choose.
pub open spec fn chosen_kind(provider: Seq<char>, auth: JVal) -> Option<KindView> {
    provider::parsed_kind(
        if provider.len() == 0 {
            configured_provider(auth)
        } else {
            provider
        },
    )
}

/// The error that a provider is not one: it names the provider.
pub open spec fn unknown_provider(provider: Seq<char>, auth: JVal) -> Seq<char> {
    "未配置有效的服务商: "@ + (if provider.len() == 0 {
        configured_provider(auth)
    } else {
        provider
    })
}

/// The provider of a session. The key on the command line counts even where it is empty; the
/// URL is joined with the API path before the provider is built, which joins it again.
pub open spec fn session_provider(
    k: KindView,
    base_url: Option<Seq<char>>,
    api_key: Option<Seq<char>>,
    auth: JVal,
    creds: Map<Seq<char>, Seq<char>>,
) -> ProviderView {
    let url = provider::joined_url(k, provider::resolved_url(k, base_url, auth));
    let key = match api_key {
        Some(key) => key,
        None => match provider::resolved_key(k, None, auth, credential(creds, k.vendor)) {
            Some(key) => key,
            None => Seq::empty(),
        },
    };
    provider::built(k, Some(key), Some(url), auth)
}

/// The system prompt of a session.
pub open spec fn base_prompt() -> Seq<char> {
    "你是一个有工具能力的智能编程助手。\n你可以使用以下工具来帮助用户完成任务：\n- 执行 bash 命令\n- 读取、写入、编辑文件\n- 列出目录内容\n- 搜索文件 (glob)\n- 搜索文件内容 (grep)\n请积极使用工具来完成编程任务，而不是只给出建议。"@
}

/// A session with provider, model, built-in tools and system prompt. `auth` holds the
/// settings, `creds` the keys of the environment. The error says which provider is not one. The
/// session has a model where one is named.
pub fn setup_session<H: Fn(&Event) -> HookAction, I: Fn(&str, &Json) -> Option<Json>>(
    args: &CommonArgs,
    auth: &Json,
    creds: &Credentials,
) -> (r: Result<AgentSession<H, I>, String>)
    ensures
        match (r, chosen_kind(args.provider@, auth@)) {
            (Ok(s), Some(k)) => {
                &&& provider::known_kind(k)
                &&& s.journal.wf() && s.journal@ == journal::empty_journal()
                &&& s.hooks.callable() && s.hooks@.handlers.len() == 0
                    && s.hooks@.interceptors.len() == 0
                &&& s.events@.len() == 0
                &&& s.provider is Some && s.provider->Some_0.described() == session_provider(
                    k,
                    text::opt_str(args.base_url),
                    text::opt_str(args.api_key),
                    auth@,
                    creds@,
                )
                &&& match (s.model, chosen_model(k, text::opt_str(args.model), auth@)) {
                    (Some(m), Some(want)) => m@ == want,
                    (None, None) => true,
                    _ => false,
                }
                &&& s.tool_registry@ == builtins::with_builtins(tools::no_pairs())
                &&& s.system_prompt@ == base_prompt()
            },
            (Err(e), None) => e@ == unknown_provider(args.provider@, auth@),
            _ => false,
        },
{
    let name = if args.provider.as_str().is_empty() {
        provider_setting(auth)
    } else {
        args.provider.clone()
    };
    let kind = match ProviderKind::parse(name.as_str()) {
        Some(k) => k,
        None => {
            return Err(text::cat("未配置有效的服务商: ", name.as_str()));
        },
    };
    proof {
        provider::parsed_kinds_are_known(name@);
    }
    let model = choose_model(&kind, clone_opt(&args.model), auth);
    let url = match &args.base_url {
        Some(u) => kind.resolve_base_url(Some(u.as_str()), auth),
        None => kind.resolve_base_url(None, auth),
    };
    let url = kind.join_api_path(url.as_str());
    let key = match &args.api_key {
        Some(k) => k.clone(),
        None => match kind.resolve_key(None, auth, credential_of(creds, kind.id())) {
            Some(k) => k,
            None => String::new(),
        },
    };
    let p = kind.build(Some(key), Some(url), auth);
    let mut s: AgentSession<H, I> = AgentSession::open(Journal::new());
    s.set_provider(p);
    if let Some(m) = model {
        s.set_model(m);
    }
    builtins::register_builtins(&mut s.tool_registry);
    s.set_system_prompt(
        "你是一个有工具能力的智能编程助手。\n你可以使用以下工具来帮助用户完成任务：\n- 执行 bash 命令\n- 读取、写入、编辑文件\n- 列出目录内容\n- 搜索文件 (glob)\n- 搜索文件内容 (grep)\n请积极使用工具来完成编程任务，而不是只给出建议。".to_owned(),
    );
    Ok(s)
}

fn clone_opt(o: &Option<String>) -> (r: Option<String>)
    ensures
        text::opt_str(r) == text::opt_str(*o),
{
    match o {
        Some(t) => Some(t.clone()),
        None => None,
    }
}

// ---- laws ---------------------------------------------------------------------------------------

/// Whenever the command line names a model, the session's model has that id, whatever the
/// settings hold.
pub proof fn named_model_is_used(k: KindView, m: Seq<char>, auth: JVal)
    ensures
        chosen_model(k, Some(m), auth) is Some,
        chosen_model(k, Some(m), auth)->Some_0.id == m,
        chosen_model(k, Some(m), auth)->Some_0.provider == k.vendor,
{
}

/// Where the command line names no model the settings' is used, as if the command line had
/// named it; where they name none either, the vendor's.
pub proof fn settings_name_the_model(k: KindView, m: Map<Seq<char>, JVal>, id: Seq<char>)
    ensures
        ({
            let auth = JVal::Object(m.insert("default_model"@, JVal::Str(id)));
            chosen_model(k, None, auth) == chosen_model(k, Some(id), auth)
        }),
        !m.contains_key("default_model"@) && k.vendor == "openai"@ ==> chosen_model(
            k,
            None,
            JVal::Object(m),
        ) == chosen_model(k, Some("gpt-4o-mini"@), JVal::Object(m)),
        !m.contains_key("default_model"@) && k.vendor == "deepseek"@ ==> chosen_model(
            k,
            None,
            JVal::Object(m),
        ) == chosen_model(k, Some("deepseek-chat"@), JVal::Object(m)),
        !m.contains_key("default_model"@) && k.vendor == "anthropic"@ ==> chosen_model(
            k,
            None,
            JVal::Object(m),
        ) is None,
{
    lemma_vendors();
}

proof fn lemma_vendors()
    ensures
        "anthropic"@ != "openai"@,
        "anthropic"@ != "deepseek"@,
        "openai"@ != "deepseek"@,
{
    reveal_strlit("anthropic");
    reveal_strlit("openai");
    reveal_strlit("deepseek");
    assert("anthropic"@.len() != "openai"@.len());
    assert("anthropic"@.len() != "deepseek"@.len());
    assert("openai"@.len() != "deepseek"@.len());
}


/// Whatever names it, a model has a window of 200,000 tokens and answers in 4,096.
pub proof fn models_have_their_limits(k: KindView, explicit: Option<Seq<char>>, auth: JVal)
    ensures
        chosen_model(k, explicit, auth) matches Some(m) ==> m.context_window == 200_000
            && m.max_tokens == 4096 && m.provider == k.vendor,
{
}

/// A provider that the command line names is used whatever the settings hold; where it names
/// none, that of the settings is, as if the command line had named it; where they name none
/// either, it is OpenAI's chat API.
pub proof fn named_provider_is_used(
    p: Seq<char>,
    auth: JVal,
    other: JVal,
    m: Map<Seq<char>, JVal>,
    none: Seq<char>,
)
    requires
        none.len() == 0,
    ensures
        p.len() > 0 ==> chosen_kind(p, auth) == provider::parsed_kind(p),
        p.len() > 0 ==> chosen_kind(
            none,
            JVal::Object(m.insert("provider"@, JVal::Str(p))),
        ) == chosen_kind(p, auth),
        !m.contains_key("provider"@) ==> chosen_kind(none, JVal::Object(m)) == chosen_kind(
            "openai chat"@,
            auth,
        ),
        !(other is Object) ==> chosen_kind(none, other) == chosen_kind("openai chat"@, auth),
{
    reveal_strlit("openai chat");
}

/// The key that a provider sends.
pub open spec fn key_sent(p: ProviderView) -> Option<Seq<char>> {
    match p {
        ProviderView::Anthropic(a) => Some(a.api_key),
        ProviderView::OpenAiChat(e) => Some(e.api_key),
        ProviderView::OpenAiResponses(e) => Some(e.api_key),
        ProviderView::Pending(_, _) => None,
    }
}

/// The URL that a provider sends to.
pub open spec fn url_used(p: ProviderView) -> Option<Seq<char>> {
    match p {
        ProviderView::Anthropic(a) => Some(a.base_url),
        ProviderView::OpenAiChat(e) => Some(e.base_url),
        ProviderView::OpenAiResponses(e) => Some(e.base_url),
        ProviderView::Pending(_, _) => None,
    }
}

/// The key of the command line is sent, even an empty one; without it that of the settings;
/// without that the vendor's own key of the environment; without any an empty one.
pub proof fn keys_take_their_turn(
    k: KindView,
    base_url: Option<Seq<char>>,
    key: Seq<char>,
    auth: JVal,
    creds: Map<Seq<char>, Seq<char>>,
    m: Map<Seq<char>, JVal>,
    section: Map<Seq<char>, JVal>,
)
    requires
        k.api != ApiVariant::Responses,
    ensures
        key_sent(session_provider(k, base_url, Some(key), auth, creds)) == Some(key),
        key_sent(
            session_provider(
                k,
                base_url,
                None,
                JVal::Object(
                    m.insert(
                        k.vendor,
                        JVal::Object(section.insert("api_key"@, JVal::Str(key))),
                    ),
                ),
                creds,
            ),
        ) == Some(key),
        !m.contains_key(k.vendor) && creds.contains_key(k.vendor) ==> key_sent(
            session_provider(k, base_url, None, JVal::Object(m), creds),
        ) == Some(creds[k.vendor]),
        !m.contains_key(k.vendor) && !creds.contains_key(k.vendor) ==> key_sent(
            session_provider(k, base_url, None, JVal::Object(m), creds),
        ) == Some(Seq::<char>::empty()),
{
}

/// A URL of the command line is used, whatever the settings hold; without it that of the
/// settings; without that the vendor's. The path of the API is put behind it once.
pub proof fn urls_take_their_turn(
    k: KindView,
    url: Seq<char>,
    key: Option<Seq<char>>,
    auth: JVal,
    creds: Map<Seq<char>, Seq<char>>,
    m: Map<Seq<char>, JVal>,
    section: Map<Seq<char>, JVal>,
)
    requires
        provider::known_kind(k),
        k.api != ApiVariant::Responses,
        url.len() > 0,
        url.last() != '/',
        !text::has_suffix(url, provider::variant_path(k.api)),
    ensures
        url_used(session_provider(k, Some(url), key, auth, creds)) == Some(
            url + provider::variant_path(k.api),
        ),
        url_used(
            session_provider(k, Some(url + provider::variant_path(k.api)), key, auth, creds),
        ) == Some(url + provider::variant_path(k.api)),
        url_used(
            session_provider(
                k,
                None,
                key,
                JVal::Object(
                    m.insert(
                        k.vendor,
                        JVal::Object(section.insert("base_url"@, JVal::Str(url))),
                    ),
                ),
                creds,
            ),
        ) == Some(url + provider::variant_path(k.api)),
        k.vendor == "openai"@ && !m.contains_key(k.vendor) ==> url_used(
            session_provider(k, None, key, JVal::Object(m), creds),
        ) == Some("https://api.openai.com/v1/chat/completions"@),
        k.vendor == "deepseek"@ && !m.contains_key(k.vendor) ==> url_used(
            session_provider(k, None, key, JVal::Object(m), creds),
        ) == Some("https://api.deepseek.com/v1/chat/completions"@),
        k.vendor == "anthropic"@ && !m.contains_key(k.vendor) ==> url_used(
            session_provider(k, None, key, JVal::Object(m), creds),
        ) == Some("https://api.anthropic.com/v1/messages"@),
{
    lemma_vendors();
    reveal_strlit("/chat/completions");
    reveal_strlit("/messages");
    reveal_strlit("https://api.openai.com/v1");
    reveal_strlit("https://api.deepseek.com/v1");
    reveal_strlit("https://api.anthropic.com/v1");
    reveal_strlit("https://api.openai.com/v1/chat/completions");
    reveal_strlit("https://api.deepseek.com/v1/chat/completions");
    reveal_strlit("https://api.anthropic.com/v1/messages");
    let path = provider::variant_path(k.api);
    lemma_joined_once(k, url);
    let base = provider::vendor_url(k.vendor);
    lemma_joined_once(k, base);
    assert(base.last() != path.last());
    if text::has_suffix(base, path) {
        assert(base.skip(base.len() - path.len()).last() == base.last());
    }
    assert("https://api.openai.com/v1"@ + "/chat/completions"@
        =~= "https://api.openai.com/v1/chat/completions"@);
    assert("https://api.deepseek.com/v1"@ + "/chat/completions"@
        =~= "https://api.deepseek.com/v1/chat/completions"@);
    assert("https://api.anthropic.com/v1"@ + "/messages"@
        =~= "https://api.anthropic.com/v1/messages"@);
}

proof fn lemma_joined_once(k: KindView, url: Seq<char>)
    requires
        url.len() > 0,
        url.last() != '/',
    ensures
        !text::has_suffix(url, provider::variant_path(k.api)) ==> provider::joined_url(k, url) == url
            + provider::variant_path(k.api),
        provider::joined_url(k, url + provider::variant_path(k.api)) == url
            + provider::variant_path(k.api),
        (url + provider::variant_path(k.api)).len() > 0,
{
    text::prefixes_and_suffixes(provider::variant_path(k.api), url, url);
}

/// The session's keys are those of its credentials.
pub proof fn credentials_are_looked_up(
    creds: Map<Seq<char>, Seq<char>>,
    vendor: Seq<char>,
    key: Seq<char>,
)
    ensures
        credential(creds.insert(vendor, key), vendor) == Some(key),
        credential(creds.remove(vendor), vendor) is None,
{
}

/// A session's system prompt says what the assistant is and which tools it has.
pub proof fn sessions_are_told_their_tools()
    ensures
        base_prompt()
            == "你是一个有工具能力的智能编程助手。\n你可以使用以下工具来帮助用户完成任务：\n- 执行 bash 命令\n- 读取、写入、编辑文件\n- 列出目录内容\n- 搜索文件 (glob)\n- 搜索文件内容 (grep)\n请积极使用工具来完成编程任务，而不是只给出建议。"@,
{
}

/// A provider that is not one is named by the error: that of the command line, else that of the
/// settings.
pub proof fn unknown_providers_are_named(
    p: Seq<char>,
    auth: JVal,
    m: Map<Seq<char>, JVal>,
    none: Seq<char>,
)
    requires
        none.len() == 0,
    ensures
        p.len() > 0 ==> unknown_provider(p, auth) == "未配置有效的服务商: "@ + p,
        unknown_provider(
            none,
            JVal::Object(m.insert("provider"@, JVal::Str(p))),
        ) == "未配置有效的服务商: "@ + p,
{
}

} // verus!
