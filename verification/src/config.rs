//! Choosing the model provider from the configuration file.
use vstd::prelude::*;

verus! {

/// One provider's settings in the configuration file.
pub struct ProviderConfig {
    pub provider: String,
    pub url: String,
    pub model: String,
    pub api_key: Option<String>,
}

/// The configuration file as read: one entry per top-level key, in file
/// order, holding the provider's settings or, when they do not have the
/// expected shape, the reason why not.
pub struct ConfigFile {
    pub entries: Vec<(String, Result<ProviderConfig, String>)>,
}

/// The configuration file written when there is none: a local Ollama
/// provider and an OpenAI provider whose API key is still to be filled in.
pub const DEFAULT_CONFIG: &'static str = "{\n  \"ollama\": {\n    \"model\": \"qwen2.5-coder:14b\",\n    \"provider\": \"ollama\",\n    \"url\": \"http://localhost:11434/api/generate\"\n  },\n  \"openai\": {\n    \"api_key\": \"YOUR_API_KEY\",\n    \"model\": \"gpt-4o\",\n    \"provider\": \"openai\",\n    \"url\": \"https://api.openai.com/v1/chat/completions\"\n  }\n}";

/// The provider used when none is asked for.
pub const DEFAULT_PROVIDER: &'static str = "ollama";

/// The connection settings of a provider: its URL, its model and its API key.
pub struct Connection {
    pub url: String,
    pub model: String,
    pub api_key: Option<String>,
}

/// The keys of the configuration file, in order.
pub open spec fn entry_keys(entries: Seq<(String, Result<ProviderConfig, String>)>) -> Seq<
    Seq<char>,
> {
    entries.map_values(|e: (String, Result<ProviderConfig, String>)| e.0@)
}

/// The first index holding `key`, if any.
pub open spec fn key_index(keys: Seq<Seq<char>>, key: Seq<char>) -> Option<int>
    decreases keys.len(),
{
    if keys.len() == 0 {
        None
    } else if keys[0] == key {
        Some(0)
    } else {
        match key_index(keys.drop_first(), key) {
            Some(i) => Some(i + 1),
            None => None,
        }
    }
}

/// The name of the provider to use.
pub open spec fn provider_name(provider: Option<&str>) -> Seq<char> {
    match provider {
        Some(p) => p@,
        None => DEFAULT_PROVIDER@,
    }
}

/// The message for a provider missing from the configuration.
pub open spec fn missing_provider_text(name: Seq<char>) -> Seq<char> {
    "Provider '"@ + name + "' not found in config"@
}

/// What `select_provider` gives for the entries and the provider name.
pub open spec fn selection_matches(
    entries: Seq<(String, Result<ProviderConfig, String>)>,
    name: Seq<char>,
    r: Result<Connection, String>,
) -> bool {
    match key_index(entry_keys(entries), name) {
        Some(i) => match entries[i].1 {
            Ok(c) => r matches Ok(conn) && conn.url@ == c.url@ && conn.model@ == c.model@ && (
            match (conn.api_key, c.api_key) {
                (Some(a), Some(b)) => a@ == b@,
                (None, None) => true,
                _ => false,
            }),
            Err(e) => r matches Err(m) && m@ == e@,
        },
        None => r matches Err(m) && m@ == missing_provider_text(name),
    }
}

proof fn lemma_key_index_step(keys: Seq<Seq<char>>, key: Seq<char>, k: int)
    requires
        0 <= k < keys.len(),
        forall|i: int| 0 <= i < k ==> keys[i] != key,
    ensures
        keys[k] == key ==> key_index(keys, key) == Some(k),
        keys[k] != key ==> key_index(keys, key) == (match key_index(keys.skip(k + 1), key) {
            Some(i) => Some(i + k + 1),
            None => None,
        }),
    decreases k,
{
    if k > 0 {
        assert(keys[0] != key);
        lemma_key_index_step(keys.drop_first(), key, k - 1);
        assert(keys.drop_first().skip(k) =~= keys.skip(k + 1));
    } else {
        assert(keys.drop_first() =~= keys.skip(1));
    }
}

fn copy_key(k: &Option<String>) -> (r: Option<String>)
    ensures
        match (r, *k) {
            (Some(a), Some(b)) => a@ == b@,
            (None, None) => true,
            _ => false,
        },
{
    match k {
        Some(s) => Some(s.clone()),
        None => None,
    }
}

/// The connection settings of the provider asked for (`ollama` when none
/// is): those of the entry with that key; the entry's error when its
/// settings are malformed; an error naming the provider when no entry has
/// that key.
pub fn select_provider(config: &ConfigFile, provider: Option<&str>) -> (r: Result<
    Connection,
    String,
>)
    ensures
        selection_matches(
            config.entries@,
            provider_name(provider),
            r,
        ),
{
    let name = match provider {
        Some(p) => String::from_str(p),
        None => String::from_str(DEFAULT_PROVIDER),
    };
    let ghost wanted = provider_name(provider);
    assert(name@ == wanted);
    let ghost keys = entry_keys(config.entries@);
    let n = config.entries.len();
    let mut k: usize = 0;
    while k < n
        invariant
            n == config.entries@.len(),
            keys == entry_keys(config.entries@),
            name@ == wanted,
            wanted == provider_name(provider),
            k <= n,
            forall|i: int| 0 <= i < k ==> keys[i] != name@,
        decreases n - k,
    {
        let entry = &config.entries[k];
        proof {
            lemma_key_index_step(keys, name@, k as int);
            assert(keys[k as int] == config.entries@[k as int].0@);
        }
        if entry.0 == name {
            assert(key_index(keys, wanted) == Some(k as int));
            let result = match &entry.1 {
                Ok(c) => {
                    let conn = Connection {
                        url: c.url.clone(),
                        model: c.model.clone(),
                        api_key: copy_key(&c.api_key),
                    };
                    assert(config.entries@[k as int].1 == Ok::<ProviderConfig, String>(*c));
                    Ok(conn)
                },
                Err(e) => {
                    assert(config.entries@[k as int].1 == Err::<ProviderConfig, String>(*e));
                    Err(e.clone())
                },
            };
            assert(selection_matches(config.entries@, wanted, result));
            return result;
        }
        k = k + 1;
    }
    proof {
        assert forall|ks: Seq<Seq<char>>| (forall|i: int| 0 <= i < ks.len() ==> ks[i] != name@)
            implies key_index(ks, name@) is None by {
            lemma_no_key(ks, name@);
        }
    }
    let mut m = String::from_str("Provider '");
    m.append(name.as_str());
    m.append("' not found in config");
    Err(m)
}

proof fn lemma_no_key(keys: Seq<Seq<char>>, key: Seq<char>)
    requires
        forall|i: int| 0 <= i < keys.len() ==> keys[i] != key,
    ensures
        key_index(keys, key) is None,
    decreases keys.len(),
{
    if keys.len() > 0 {
        assert(keys[0] != key);
        lemma_no_key(keys.drop_first(), key);
    }
}

} // verus!
