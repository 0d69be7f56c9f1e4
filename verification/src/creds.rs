//! API keys by provider.

use crate::text;
use vstd::hash_map::StringHashMap;
use vstd::prelude::*;

verus! {

/// Resolved API keys by provider id.
pub struct Credentials {
    keys: StringHashMap<String>,
}

impl View for Credentials {
    type V = Map<Seq<char>, Seq<char>>;

    closed spec fn view(&self) -> Map<Seq<char>, Seq<char>> {
        self.keys@.map_values(|k: String| k@)
    }
}

/// The keys that the environment gives: one per provider whose variable is set.
pub open spec fn env_keys(
    anthropic: Option<Seq<char>>,
    openai: Option<Seq<char>>,
    deepseek: Option<Seq<char>>,
) -> Map<Seq<char>, Seq<char>> {
    let a = match anthropic {
        Some(k) => Map::empty().insert("anthropic"@, k),
        None => Map::empty(),
    };
    let b = match openai {
        Some(k) => a.insert("openai"@, k),
        None => a,
    };
    match deepseek {
        Some(k) => b.insert("deepseek"@, k),
        None => b,
    }
}

impl Credentials {
    /// The keys of the environment. The parameters are the values of `ANTHROPIC_API_KEY`,
    /// `OPENAI_API_KEY` and `DEEPSEEK_API_KEY`.
    pub fn from_env(
        anthropic: Option<String>,
        openai: Option<String>,
        deepseek: Option<String>,
    ) -> (r: Self)
        ensures
            r@ == env_keys(
                text::opt_str(anthropic),
                text::opt_str(openai),
                text::opt_str(deepseek),
            ),
    {
        let mut r = Credentials { keys: StringHashMap::new() };
        assert(r@ =~= Map::empty());
        if let Some(k) = anthropic {
            r.set("anthropic", k);
        }
        if let Some(k) = openai {
            r.set("openai", k);
        }
        if let Some(k) = deepseek {
            r.set("deepseek", k);
        }
        r
    }

    fn set(&mut self, provider: &str, key: String)
        ensures
            final(self)@ == old(self)@.insert(provider@, key@),
    {
        let ghost before = self@;
        self.keys.insert(provider.to_owned(), key);
        assert(self@ =~= before.insert(provider@, key@));
    }

    /// The key of a provider.
    pub fn get(&self, provider: &str) -> (r: Option<&str>)
        ensures
            text::opt_slice(r) == (if self@.contains_key(provider@) {
                Some(self@[provider@])
            } else {
                None
            }),
    {
        match self.keys.get(provider) {
            Some(k) => Some(k.as_str()),
            None => None,
        }
    }
}

proof fn lemma_vendors()
    ensures
        "anthropic"@ != "openai"@,
        "anthropic"@ != "deepseek"@,
        "openai"@ != "deepseek"@,
{
    reveal_strlit("anthropic");
    reveal_strlit("openai");
    reveal_strlit("deepseek");
    assert("anthropic"@.len() != "openai"@.len());
    assert("anthropic"@.len() != "deepseek"@.len());
    assert("openai"@.len() != "deepseek"@.len());
}


/// Each provider has the key that its own variable gives, and none where the variable is not
/// set; no other provider has one.
pub proof fn keys_belong_to_their_providers(
    anthropic: Option<Seq<char>>,
    openai: Option<Seq<char>>,
    deepseek: Option<Seq<char>>,
    other: Seq<char>,
)
    requires
        other != "anthropic"@ && other != "openai"@ && other != "deepseek"@,
    ensures
        ({
            let m = env_keys(anthropic, openai, deepseek);
            &&& m.contains_key("anthropic"@) == (anthropic is Some)
            &&& m.contains_key("openai"@) == (openai is Some)
            &&& m.contains_key("deepseek"@) == (deepseek is Some)
            &&& anthropic matches Some(k) ==> m["anthropic"@] == k
            &&& openai matches Some(k) ==> m["openai"@] == k
            &&& deepseek matches Some(k) ==> m["deepseek"@] == k
            &&& !m.contains_key(other)
        }),
{
    lemma_vendors();
}

} // verus!
