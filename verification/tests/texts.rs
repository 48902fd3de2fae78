use emiko::config::{select_provider, ConfigFile, ProviderConfig, DEFAULT_CONFIG};
use emiko::paths::{emiko_path, home_directory, home_or_placeholder, CONFIG_FILE_NAME};
use emiko::prompt::{authorization, instructions, preamble, request_content};
use emiko::records::{decimal_string, log_line, memory_entry};
use emiko::terminal::{confirmation_prompt, declines_given_lowercase, loading_line, user_declines};
use emiko::text::{chars_of, contains_str, starts_with_str, string_from_chars};

fn provider(name: &str, url: &str, model: &str, key: Option<&str>) -> ProviderConfig {
    ProviderConfig {
        provider: name.to_string(),
        url: url.to_string(),
        model: model.to_string(),
        api_key: key.map(|k| k.to_string()),
    }
}

fn sample_config() -> ConfigFile {
    ConfigFile {
        entries: vec![
            ("ollama".to_string(), Ok(provider("ollama", "http://o", "qwen", None))),
            ("openai".to_string(), Ok(provider("openai", "https://a", "gpt", Some("k")))),
            ("broken".to_string(), Err("missing field `url`".to_string())),
        ],
    }
}

#[test]
fn default_provider_is_ollama() {
    let c = select_provider(&sample_config(), None).ok().unwrap();
    assert_eq!((c.url.as_str(), c.model.as_str(), c.api_key), ("http://o", "qwen", None));
}

#[test]
fn named_provider_is_chosen() {
    let c = select_provider(&sample_config(), Some("openai")).ok().unwrap();
    assert_eq!(c.url, "https://a");
    assert_eq!(c.model, "gpt");
    assert_eq!(c.api_key, Some("k".to_string()));
}

#[test]
fn malformed_provider_reports_its_error() {
    assert_eq!(
        select_provider(&sample_config(), Some("broken")).err().unwrap(),
        "missing field `url`"
    );
}

#[test]
fn missing_provider_is_named() {
    assert_eq!(
        select_provider(&sample_config(), Some("mistral")).err().unwrap(),
        "Provider 'mistral' not found in config"
    );
    let empty = ConfigFile { entries: vec![] };
    assert_eq!(
        select_provider(&empty, None).err().unwrap(),
        "Provider 'ollama' not found in config"
    );
}

#[test]
fn paths_live_under_config_emiko() {
    assert_eq!(emiko_path("/home/u", CONFIG_FILE_NAME, '/'), "/home/u/.config/emiko/emiko.json");
    assert_eq!(emiko_path("/home/u/", "memory.txt", '/'), "/home/u/.config/emiko/memory.txt");
    assert_eq!(emiko_path("", "datasets", '/'), ".config/emiko/datasets");
}

#[test]
fn paths_use_the_platform_separator() {
    assert_eq!(
        emiko_path("C:\\Users\\u", "emiko.json", '\\'),
        "C:\\Users\\u\\.config\\emiko\\emiko.json"
    );
    assert_eq!(emiko_path("C:\\Users\\u\\", "x", '\\'), "C:\\Users\\u\\.config\\emiko\\x");
    assert_eq!(emiko_path("C:/Users/u/", "x", '\\'), "C:/Users/u/.config\\emiko\\x");
    let native = std::path::PathBuf::from("/home/u").join(".config").join("emiko").join("emiko.log");
    assert_eq!(
        emiko_path("/home/u", "emiko.log", std::path::MAIN_SEPARATOR),
        native.to_str().unwrap()
    );
}

#[test]
fn home_prefers_home_then_user_profile() {
    assert_eq!(home_directory(Some("/h".into()), Some("/u".into())), Some("/h".to_string()));
    assert_eq!(home_directory(None, Some("/u".into())), Some("/u".to_string()));
    assert_eq!(home_directory(None, None), None);
    assert_eq!(home_or_placeholder(None, None), "Unable to get your home dir!");
}

#[test]
fn instructions_name_the_machine() {
    let text = instructions("linux", "x86_64", "/bin/zsh");
    assert!(text.starts_with("\n    You are programming and system administration assistant.\n"));
    assert!(text.ends_with(
        "    You are running on linux with x86_64 architecture and /bin/zsh shell.\n  "
    ));
}

#[test]
fn request_has_history_role_instructions_guide_and_prompt() {
    let pre = preamble("user: a\n", "linux", "arm", "sh");
    assert!(pre.starts_with(
        "\n--- History of interactions ---\nuser: a\n--- End of history of interactions ---\n\nYou are emiko.\nAn assistant like J.A.R.V.I.S. in Iron Man.\n\n\n    You are programming"
    ));
    assert!(pre.ends_with("    ```\n  "));
    let content = request_content("user: a\n", "linux", "arm", "sh", "list files");
    assert_eq!(content, format!("{}\n\nlist files", pre));
}

#[test]
fn authorization_uses_bearer() {
    assert_eq!(authorization(Some("abc")), Some("Bearer abc".to_string()));
    assert_eq!(authorization(None), None);
}

#[test]
fn records_have_fixed_layout() {
    assert_eq!(
        memory_entry("list", "ls", "a\n"),
        "user: list\nassistant: ls\nstandard output: a\n\n"
    );
    assert_eq!(log_line(1700000000, "INFO", "Running command."), "[1700000000] INFO: Running command.\n");
    assert_eq!(decimal_string(0), "0");
    assert_eq!(decimal_string(u64::MAX), u64::MAX.to_string());
    assert_eq!(decimal_string(10), "10");
}

#[test]
fn spinner_cycles_through_eight_frames() {
    assert_eq!(loading_line(0), "\rThinking... 🌑");
    assert_eq!(loading_line(9), "\rThinking... 🌒");
    assert_eq!(loading_line(7), "\rThinking... 🌘");
}

#[test]
fn confirmation_highlights_command() {
    assert_eq!(
        confirmation_prompt("ls"),
        "Do you want to execute the following command? [yes/no]\n\x1b[48;5;235m\x1b[91mls\x1b[0m\n> "
    );
}

#[test]
fn answers_with_n_or_nothing_decline() {
    assert!(user_declines("n\n"));
    assert!(user_declines("No\n"));
    assert!(user_declines("NOPE"));
    assert!(user_declines(""));
    assert!(user_declines("\n"));
    assert!(!user_declines("yes\n"));
    assert!(!user_declines("Y\n"));
    assert!(declines_given_lowercase("on", "ON"));
    assert!(!declines_given_lowercase("y", "Y"));
}

#[test]
fn text_helpers() {
    assert_eq!(chars_of("aé"), vec!['a', 'é']);
    assert_eq!(string_from_chars(&vec!['x', '🌑']), "x🌑");
    assert!(contains_str("a```b", "```"));
    assert!(!contains_str("a``b", "```"));
    assert!(contains_str("abc", ""));
    assert!(starts_with_str("Error: x", "Error"));
    assert!(!starts_with_str("Err", "Error"));
}

#[test]
fn default_config_is_the_pretty_printed_provider_table() {
    let mut ollama = serde_json::Map::new();
    ollama.insert("provider".to_string(), serde_json::Value::from("ollama"));
    ollama.insert("model".to_string(), serde_json::Value::from("qwen2.5-coder:14b"));
    ollama.insert("url".to_string(), serde_json::Value::from("http://localhost:11434/api/generate"));
    let mut openai = serde_json::Map::new();
    openai.insert("provider".to_string(), serde_json::Value::from("openai"));
    openai.insert("model".to_string(), serde_json::Value::from("gpt-4o"));
    openai.insert("url".to_string(), serde_json::Value::from("https://api.openai.com/v1/chat/completions"));
    openai.insert("api_key".to_string(), serde_json::Value::from("YOUR_API_KEY"));
    let mut top = serde_json::Map::new();
    top.insert("ollama".to_string(), serde_json::Value::Object(ollama));
    top.insert("openai".to_string(), serde_json::Value::Object(openai));
    let expected = serde_json::to_string_pretty(&serde_json::Value::Object(top)).unwrap();
    assert_eq!(DEFAULT_CONFIG, expected);
}
