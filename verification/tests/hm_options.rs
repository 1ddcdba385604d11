use mirror_store::backend::hm_options::{
    eval_command, eval_failure_message, parse_option_tree, parse_option_type, OptionCache, OptionType,
    OptionsLookup,
};
use mirror_store::command::CommandOutput;
use mirror_store::json::parse_text;
use std::sync::Arc;

fn output(success: bool, stdout: &str, stderr: &[u8]) -> CommandOutput {
    CommandOutput { success, stdout: stdout.as_bytes().to_vec(), stderr: stderr.to_vec() }
}

#[test]
fn names_of_types() {
    assert!(matches!(parse_option_type("boolean"), OptionType::Bool));
    for name in ["string", "non-empty string", "strings concatenated with \"\\n\""] {
        assert!(matches!(parse_option_type(name), OptionType::String));
    }
    assert!(matches!(parse_option_type("path"), OptionType::Path));
    for name in ["integer", "positive integer", "unsigned integer, meaning >=0"] {
        assert!(matches!(parse_option_type(name), OptionType::Int));
    }
    assert!(matches!(parse_option_type("float"), OptionType::Float));
    assert!(matches!(parse_option_type("lazy attribute set of string"), OptionType::Attrs));
    let OptionType::Unknown(name) = parse_option_type("null or string") else {
        panic!("a known type")
    };
    assert_eq!(name, "null or string");
}

#[test]
fn choices_lose_their_quotes() {
    let OptionType::Enum(choices) = parse_option_type("one of \"a\", \"b\", \"c\"") else {
        panic!("no choice")
    };
    assert_eq!(choices, vec!["a", "b", "c"]);
    let OptionType::Enum(choices) = parse_option_type("one of one of x") else {
        panic!("no choice")
    };
    assert_eq!(choices, vec!["x"]);
}

#[test]
fn lists_hold_a_type() {
    let OptionType::ListOf(item) = parse_option_type("list of one of \"x\", \"y\"") else {
        panic!("no list")
    };
    assert!(matches!(*item, OptionType::Enum(_)));
    let OptionType::ListOf(item) = parse_option_type("list of list of path") else {
        panic!("no list")
    };
    assert!(matches!(*item, OptionType::Path));
    let copy = parse_option_type("list of list of path").clone();
    assert_eq!(format!("{:?}", copy), "ListOf(Path)");
}

#[test]
fn options_of_a_schema() {
    let json = parse_text(
        r#"{
            "_module": {"args": {"_type": "option"}},
            "enable": {"_type": "option", "type": "boolean", "description": "On", "default": false},
            "extra": {
                "list": {"_type": "option", "type": "list of string", "default": ["a", {"b": 1}]}
            },
            "other": 3,
            "bare": {"_type": "option", "description": 7}
        }"#,
    )
    .unwrap();
    let tree = parse_option_tree("programs.vim", &json);
    let found: Vec<(&str, &str, Option<&str>)> = tree
        .options
        .iter()
        .map(|o| (o.path.as_str(), o.description.as_str(), o.default.as_deref()))
        .collect();
    assert_eq!(
        found,
        vec![
            ("programs.vim.bare", "", None),
            ("programs.vim.enable", "On", Some("false")),
            ("programs.vim.extra.list", "", Some(r#"[ "a" { "b" = 1; } ]"#)),
        ]
    );
    assert!(matches!(&tree.options[0].option_type, OptionType::Unknown(t) if t == "unknown"));
    assert!(matches!(tree.options[1].option_type, OptionType::Bool));
    assert!(matches!(tree.options[2].option_type, OptionType::ListOf(_)));
    assert!(tree.options.iter().all(|o| o.current_value.is_none()));
}

#[test]
fn options_at_the_root() {
    let option = parse_text(r#"{"_type": "option", "default": null}"#).unwrap();
    let tree = parse_option_tree("a.b", &option);
    assert_eq!(tree.options.len(), 1);
    assert_eq!(tree.options[0].path, "a.b");
    assert_eq!(tree.options[0].default.as_deref(), Some("null"));
    let nested = parse_text(r#"{"x": {"_type": "option"}}"#).unwrap();
    assert_eq!(parse_option_tree("", &nested).options[0].path, "x");
    assert!(parse_option_tree("a", &parse_text("[1]").unwrap()).options.is_empty());
}

#[test]
fn command_to_evaluate() {
    let command = eval_command("/home/u", Some("me"), "programs.vim");
    assert_eq!(command.program, "nix");
    assert_eq!(
        command.args,
        vec![
            "eval",
            "--json",
            "--extra-experimental-features",
            "nix-command flakes",
            "/home/u/.config/home-manager#homeConfigurations.me.options.programs.vim"
        ]
    );
    assert_eq!(
        eval_command("/h", None, "x").args[4],
        "/h/.config/home-manager#homeConfigurations.user.options.x"
    );
}

#[test]
fn options_are_read_once() {
    let mut cache = OptionCache::new();
    assert!(cache.cached("a").is_none());
    let tree = cache.get_options("a", &output(true, r#"{"o": {"_type": "option"}}"#, b"")).unwrap();
    assert_eq!(tree.options[0].path, "a.o");
    assert!(Arc::ptr_eq(&tree, &cache.cached("a").unwrap()));
    assert!(cache.cached("b").is_none());
}

#[test]
fn failed_evaluations() {
    let mut cache = OptionCache::new();
    assert_eq!(
        cache.get_options("a.b", &output(false, "{}", b"bad \xff")).err(),
        Some("nix eval failed for a.b: bad \u{fffd}".to_string())
    );
    assert_eq!(eval_failure_message("x", "why"), "nix eval failed for x: why");
    let message = serde_json::from_slice::<serde_json::Value>(b"nope").unwrap_err().to_string();
    assert_eq!(cache.get_options("a.b", &output(true, "nope", b"")).err(), Some(message));
    assert!(cache.cached("a.b").is_none());
}

#[test]
fn lookups_come_to_one_of_three_ends() {
    let mut cache = OptionCache::new();
    let OptionsLookup::Evaluate(command) = cache.lookup("a", Some("/h"), Some("me")) else {
        panic!("nothing to evaluate")
    };
    assert_eq!(command, eval_command("/h", Some("me"), "a"));
    assert!(matches!(cache.lookup("a", None, Some("me")), OptionsLookup::NoHome));

    assert!(cache.get_options("a", &output(false, "", b"")).is_err());
    assert!(matches!(cache.lookup("a", Some("/h"), None), OptionsLookup::Evaluate(_)));

    let tree = cache.get_options("a", &output(true, r#"{"o": {"_type": "option"}}"#, b"")).unwrap();
    assert!(cache.get_options("b", &output(true, "{}", b"")).is_ok());
    assert!(cache.get_options("c", &output(true, "nope", b"")).is_err());
    for home in [Some("/h"), Some("/other"), None] {
        let OptionsLookup::Kept(kept) = cache.lookup("a", home, None) else { panic!("not kept") };
        assert!(Arc::ptr_eq(&tree, &kept));
        assert_eq!(kept.options[0].path, "a.o");
    }
    assert!(matches!(cache.lookup("c", Some("/h"), None), OptionsLookup::Evaluate(_)));
}
