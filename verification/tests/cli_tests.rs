use anemone_core::app_state::TranslationEngine;
use anemone_core::cli::{build_credentials, EngineCredentials};
use anemone_core::translation_config::DeepLStrategy;
use anemone_core::cli::needs_translation;
use anemone_core::cli::{accept_secret, check_plain_key, check_secret_key, masks_value, split_reveal_flags};
use anemone_core::cli::{
    classify_command, coerce_value, get_value, is_sensitive_key, json_object, outcome_of,
    parse_config_command, parse_file_trans_args, parse_i64, parse_list_langs_args,
    parse_translate_args, parse_write_type, plan_file_trans, push_decimal, redact_config,
    render_translated_file, resolve_text, split_invocation, write_line, CliCommand, CliOutcome,
    Coerced, ConfigCommand, JsonVal, ValueKind, WriteType,
};
use anemone_core::config::Config;
use anemone_core::translation_config::CustomApiConfig;

fn strings(v: &[&str]) -> Vec<String> {
    v.iter().map(|s| s.to_string()).collect()
}

#[test]
fn sensitive_key_registry_includes_every_credential_field() {
    for key in [
        "translation.deepl_api_key",
        "translation.deepl_keys",
        "translation.papago_client_id",
        "translation.papago_client_secret",
        "translation.llm.api_key",
        "translation.custom.api_key",
        "translation.custom_apis",
        "translation.custom_apis.0.api_key",
    ] {
        assert!(is_sensitive_key(key), "{key}");
    }
    assert!(!is_sensitive_key("translation.llm.model"));
}

#[test]
fn redaction_covers_all_configured_credentials() {
    let mut config = Config::default();
    config.translation.deepl_api_key = "deepl-secret".to_string();
    config.translation.deepl_keys = vec!["secondary-secret".to_string()];
    config.translation.papago_client_id = "client-id".to_string();
    config.translation.papago_client_secret = "papago-secret".to_string();
    config.translation.llm.api_key = "llm-secret".to_string();
    config.translation.custom.api_key = "custom-secret".to_string();
    let mut named_custom = CustomApiConfig::default();
    named_custom.name = "named".to_string();
    named_custom.api_key = "named-custom-secret".to_string();
    config.translation.custom_apis.push(named_custom);

    redact_config(&mut config);
    let shown = format!("{config:?}");

    for secret in [
        "deepl-secret",
        "secondary-secret",
        "client-id",
        "papago-secret",
        "llm-secret",
        "custom-secret",
        "named-custom-secret",
    ] {
        assert!(!shown.contains(secret), "{shown}");
    }
    assert_eq!(config.translation.custom_apis[0].name, "named");
    assert_eq!(config.translation.custom_apis[0].api_key, "***");
    assert_eq!(config.translation.deepl_keys, vec!["***".to_string()]);
}

#[test]
fn sensitive_prefix_needs_the_dot() {
    assert!(!is_sensitive_key("translation.custom_apisX"));
    assert!(!is_sensitive_key("translation.custom"));
    assert!(!is_sensitive_key(""));
}

#[test]
fn invocation_without_arguments_is_gui() {
    assert!(split_invocation(Vec::new()).is_none());
}

#[test]
fn invocation_separates_json_anywhere() {
    let inv = split_invocation(strings(&["translate", "--json", "こんにちは"])).unwrap();
    assert!(inv.json);
    assert_eq!(inv.command, "translate");
    assert_eq!(inv.args, strings(&["こんにちは"]));

    let inv = split_invocation(strings(&["--json", "config-path"])).unwrap();
    assert!(inv.json);
    assert_eq!(inv.command, "config-path");
    assert!(inv.args.is_empty());

    let inv = split_invocation(strings(&["list-engines"])).unwrap();
    assert!(!inv.json);
}

#[test]
fn commands_are_classified() {
    assert_eq!(classify_command("--help"), Ok(CliCommand::Help));
    assert_eq!(classify_command("-h"), Ok(CliCommand::Help));
    assert_eq!(classify_command("file-trans"), Ok(CliCommand::FileTrans));
    assert_eq!(classify_command("config-path"), Ok(CliCommand::ConfigPath));
    assert_eq!(classify_command("bogus"), Err("알 수 없는 명령: bogus".to_string()));
}

#[test]
fn outcome_maps_results_to_exit_codes() {
    assert_eq!(outcome_of(&Ok::<(), String>(())), CliOutcome::Done(0));
    assert_eq!(outcome_of(&Err::<(), String>("x".to_string())), CliOutcome::Done(1));
}

#[test]
fn get_value_takes_the_next_argument() {
    let args = strings(&["--engine", "deepl"]);
    let mut i = 0usize;
    assert_eq!(get_value(&args, &mut i, "--engine"), Ok("deepl".to_string()));
    assert_eq!(i, 2);
    let args = strings(&["--engine"]);
    let mut i = 0usize;
    assert_eq!(
        get_value(&args, &mut i, "--engine"),
        Err("--engine 뒤에 값이 필요합니다.".to_string())
    );
    assert_eq!(i, 0);
}

#[test]
fn translate_arguments_are_read() {
    let t = parse_translate_args(&strings(&["hello", "--engine", "google", "--to", "ko"])).unwrap();
    assert_eq!(t.text.as_deref(), Some("hello"));
    assert_eq!(t.engine.as_deref(), Some("google"));
    assert_eq!(t.from, None);
    assert_eq!(t.to.as_deref(), Some("ko"));
    assert!(!t.use_stdin);

    let t = parse_translate_args(&strings(&["--stdin"])).unwrap();
    assert!(t.use_stdin);
    assert_eq!(t.text, None);
}

#[test]
fn translate_argument_errors() {
    assert_eq!(
        parse_translate_args(&strings(&["--verbose"])).err(),
        Some("알 수 없는 옵션: --verbose".to_string())
    );
    assert_eq!(
        parse_translate_args(&strings(&["a", "b"])).err(),
        Some("translate 는 위치 인자로 텍스트를 하나만 받습니다.".to_string())
    );
    assert_eq!(
        parse_translate_args(&strings(&["a", "--from"])).err(),
        Some("--from 뒤에 값이 필요합니다.".to_string())
    );
}

#[test]
fn file_trans_arguments_are_checked() {
    let args = parse_file_trans_args(&strings(&[
        "--in",
        "a.txt",
        "--out",
        "b.txt",
        "--format",
        "both-nl",
        "--no-trans-linefeed",
    ]))
    .unwrap();
    let plan = plan_file_trans(args).unwrap();
    assert_eq!(plan.input, "a.txt");
    assert_eq!(plan.output, "b.txt");
    assert_eq!(plan.write_type, WriteType::BothNl);
    assert!(plan.no_trans_linefeed);

    let args = parse_file_trans_args(&strings(&["--out", "b.txt"])).unwrap();
    assert_eq!(
        plan_file_trans(args).err(),
        Some("--in <FILE> 이 필요합니다.".to_string())
    );
    let args = parse_file_trans_args(&strings(&["--in", "a.txt"])).unwrap();
    assert_eq!(
        plan_file_trans(args).err(),
        Some("--out <FILE> 이 필요합니다.".to_string())
    );
    let args = parse_file_trans_args(&strings(&["--in", "a", "--out", "b", "--format", "x"])).unwrap();
    assert_eq!(
        plan_file_trans(args).err(),
        Some("알 수 없는 --format: x (only|both|both-nl 중 하나)".to_string())
    );
    assert_eq!(
        parse_file_trans_args(&strings(&["text"])).err(),
        Some("알 수 없는 옵션: text".to_string())
    );
}

#[test]
fn write_type_defaults_to_only() {
    assert_eq!(parse_write_type(None), Ok(WriteType::Only));
    assert_eq!(parse_write_type(Some("both")), Ok(WriteType::Both));
}

#[test]
fn lines_are_written_per_format() {
    let mut out = String::new();
    write_line(&mut out, "原文", "번역", WriteType::Only, false);
    assert_eq!(out, "번역\n");
    let mut out = String::new();
    write_line(&mut out, "原文", "번역", WriteType::Both, true);
    assert_eq!(out, "原文\n번역");
    let mut out = String::new();
    write_line(&mut out, "原文", "번역", WriteType::BothNl, false);
    assert_eq!(out, "原文\n번역\n\n");
}

#[test]
fn translated_file_marks_only_the_last_line() {
    let originals = strings(&["a", "b"]);
    let translations = strings(&["A", "B"]);
    assert_eq!(
        render_translated_file(&originals, &translations, WriteType::Both),
        "a\nA\nb\nB"
    );
    assert_eq!(render_translated_file(&Vec::new(), &Vec::new(), WriteType::Only), "");
}

#[test]
fn json_objects_escape_strings() {
    let s = json_object(&[
        ("key", JsonVal::Str("a\"b\\c\n\u{1}")),
        ("saved", JsonVal::Bool(true)),
        ("lines", JsonVal::Num(-42)),
    ]);
    assert_eq!(s, "{\"key\":\"a\\\"b\\\\c\\n\\u0001\",\"saved\":true,\"lines\":-42}");
    assert_eq!(json_object(&[]), "{}");
}

#[test]
fn decimals_cover_the_extremes() {
    let mut s = String::new();
    push_decimal(&mut s, i64::MIN);
    assert_eq!(s, i64::MIN.to_string());
    let mut s = String::new();
    push_decimal(&mut s, 0);
    assert_eq!(s, "0");
    let mut s = String::new();
    push_decimal(&mut s, 1234567890);
    assert_eq!(s, "1234567890");
}

#[test]
fn integers_parse_as_rust_does() {
    for raw in ["0", "+7", "-7", "9223372036854775807", "-9223372036854775808", "007"] {
        assert_eq!(parse_i64(raw), raw.parse::<i64>().ok(), "{raw}");
    }
    for raw in ["", "-", "+", "1 ", " 1", "9223372036854775808", "-9223372036854775809", "1e3", "--1"] {
        assert_eq!(parse_i64(raw), None, "{raw}");
    }
}

#[test]
fn values_are_coerced_to_the_existing_kind() {
    assert_eq!(coerce_value(ValueKind::Bool, "YES"), Ok(Coerced::Bool(true)));
    assert_eq!(coerce_value(ValueKind::Bool, "off"), Ok(Coerced::Bool(false)));
    assert_eq!(
        coerce_value(ValueKind::Bool, "maybe"),
        Err("bool 값으로 변환할 수 없습니다: maybe".to_string())
    );
    assert_eq!(coerce_value(ValueKind::Integer, "-12"), Ok(Coerced::Integer(-12)));
    assert_eq!(
        coerce_value(ValueKind::Integer, "12.5"),
        Err("정수로 변환할 수 없습니다: 12.5".to_string())
    );
    assert_eq!(
        coerce_value(ValueKind::Null, "x"),
        Ok(Coerced::Text("x".to_string()))
    );
    assert_eq!(
        coerce_value(ValueKind::Compound, "x"),
        Err("배열/객체 필드는 CLI 에서 직접 수정할 수 없습니다. config.toml 을 직접 편집하세요.".to_string())
    );
}

#[test]
fn config_subcommands_are_read() {
    assert!(matches!(parse_config_command(&strings(&["show"])), Ok(ConfigCommand::Show)));
    match parse_config_command(&strings(&["set", "clipboard_watch", "false"])) {
        Ok(ConfigCommand::Update { key, value }) => {
            assert_eq!(key, "clipboard_watch");
            assert_eq!(value, "false");
        }
        _ => panic!("expected an update"),
    }
    assert_eq!(
        parse_config_command(&strings(&["get"])).err(),
        Some("config get <KEY> — 점 경로 키가 필요합니다.".to_string())
    );
    assert_eq!(
        parse_config_command(&strings(&["set", "k"])).err(),
        Some("config set <KEY> <VALUE> — 값이 필요합니다.".to_string())
    );
    assert_eq!(
        parse_config_command(&strings(&["drop"])).err(),
        Some("알 수 없는 config 서브커맨드: drop".to_string())
    );
    assert_eq!(
        parse_config_command(&Vec::new()).err(),
        Some("config <show|get|set> ... 형식으로 호출하세요.".to_string())
    );
}

#[test]
fn list_langs_accepts_only_the_engine() {
    assert_eq!(parse_list_langs_args(&strings(&["--engine", "deepl"])), Ok(Some("deepl".to_string())));
    assert_eq!(parse_list_langs_args(&Vec::new()), Ok(None));
    assert_eq!(
        parse_list_langs_args(&strings(&["--from"])),
        Err("알 수 없는 옵션: --from".to_string())
    );
}

#[test]
fn text_loses_trailing_line_breaks() {
    assert_eq!(resolve_text(Some("こんにちは\r\n\n".to_string())), Ok("こんにちは".to_string()));
    assert_eq!(
        resolve_text(Some("\r\n".to_string())),
        Err("빈 텍스트는 번역할 수 없습니다.".to_string())
    );
    assert_eq!(
        resolve_text(None),
        Err("번역할 텍스트가 필요합니다. (텍스트 인자 또는 --stdin)".to_string())
    );
}

#[test]
fn json_alone_names_no_command() {
    assert!(!anemone_core::cli::has_command(&strings(&["--json", "--json"])));
    assert!(anemone_core::cli::has_command(&strings(&["--json", "help"])));
    assert!(!anemone_core::cli::has_command(&Vec::new()));
}

#[test]
fn blank_lines_are_kept_untranslated() {
    assert!(!needs_translation("", false));
    assert!(needs_translation("  ", false));
    assert!(!needs_translation(" \t", true));
    assert!(needs_translation("本文", true));
}

#[test]
fn secrets_have_their_own_command() {
    assert_eq!(check_secret_key("translation.llm.api_key"), Ok(()));
    assert_eq!(check_secret_key("translation.custom_apis.0.api_key"), Ok(()));
    assert_eq!(
        check_secret_key("translation.deepl_keys"),
        Err("set-secret으로 설정할 수 없는 키입니다: translation.deepl_keys".to_string())
    );
    assert!(check_secret_key("translation.engine").is_err());
    assert_eq!(check_plain_key("translation.engine"), Ok(()));
    assert_eq!(
        check_plain_key("translation.papago_client_secret"),
        Err("비밀값은 명령행 인자에 둘 수 없습니다. `config set-secret <key>`를 사용하세요.".to_string())
    );
    assert!(masks_value("translation.llm.api_key", false));
    assert!(!masks_value("translation.llm.api_key", true));
    assert!(!masks_value("translation.llm.model", false));
}

#[test]
fn piped_secrets_lose_their_line_breaks() {
    assert_eq!(accept_secret("abc\r\n", true), Ok("abc".to_string()));
    assert_eq!(accept_secret("abc\r\n", false), Ok("abc\r\n".to_string()));
    assert_eq!(accept_secret("\n", true), Err("빈 비밀값은 저장하지 않습니다.".to_string()));
    assert_eq!(accept_secret("", false), Err("빈 비밀값은 저장하지 않습니다.".to_string()));
}

#[test]
fn reveal_flags_may_stand_anywhere() {
    let args: Vec<String> =
        ["get", "--reveal-secret", "translation.llm.api_key"].iter().map(|s| s.to_string()).collect();
    let (reveal, rest) = split_reveal_flags(&args);
    assert!(reveal);
    assert_eq!(rest, vec!["get".to_string(), "translation.llm.api_key".to_string()]);
    let (reveal, rest) = split_reveal_flags(&vec!["show".to_string()]);
    assert!(!reveal);
    assert_eq!(rest, vec!["show".to_string()]);
}

#[test]
fn engines_need_their_keys() {
    let mut c = Config::default();
    assert_eq!(build_credentials(TranslationEngine::EzTrans, &c), Ok(EngineCredentials::NoKey));
    assert_eq!(build_credentials(TranslationEngine::Google, &c), Ok(EngineCredentials::NoKey));
    assert_eq!(build_credentials(TranslationEngine::Custom, &c), Ok(EngineCredentials::NoKey));
    assert_eq!(
        build_credentials(TranslationEngine::DeepL, &c),
        Err("DeepL API 키가 설정되지 않았습니다. config set translation.deepl_api_key <KEY>".to_string())
    );
    assert_eq!(
        build_credentials(TranslationEngine::Papago, &c),
        Err("Papago client_id/client_secret 가 설정되지 않았습니다.".to_string())
    );
    assert_eq!(
        build_credentials(TranslationEngine::Llm, &c),
        Err("LLM api_key 가 설정되지 않았습니다.".to_string())
    );
    c.translation.deepl_api_key = "legacy".to_string();
    c.translation.deepl_keys = vec![String::new(), "k2".to_string()];
    c.translation.deepl_strategy = "RR".to_string();
    assert_eq!(
        build_credentials(TranslationEngine::DeepL, &c),
        Ok(EngineCredentials::DeepL { keys: vec!["k2".to_string()], strategy: DeepLStrategy::RoundRobin })
    );
    c.translation.papago_client_id = "id".to_string();
    assert!(build_credentials(TranslationEngine::Papago, &c).is_err());
    c.translation.papago_client_secret = "secret".to_string();
    assert_eq!(
        build_credentials(TranslationEngine::Papago, &c),
        Ok(EngineCredentials::Papago { client_id: "id".to_string(), client_secret: "secret".to_string() })
    );
    c.translation.llm.api_key = "sk".to_string();
    assert_eq!(build_credentials(TranslationEngine::Llm, &c), Ok(EngineCredentials::Llm));
}
