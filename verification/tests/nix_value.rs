use mirror_store::backend::nix_value::nix_value;
use mirror_store::json::{parse_text, Json, JsonMember};

fn expression(json: &str) -> String {
    nix_value(&parse_text(json).unwrap())
}

fn literal(text: &str) -> String {
    nix_value(&Json::Text(text.to_string()))
}

#[test]
fn plain_values() {
    assert_eq!(expression("null"), "null");
    assert_eq!(expression("true"), "true");
    assert_eq!(expression("false"), "false");
    assert_eq!(expression("17"), "17");
    assert_eq!(expression("-17"), "-17");
    assert_eq!(expression("2.5"), "2.5");
    assert_eq!(expression(r#""vim""#), r#""vim""#);
}

#[test]
fn exponents_stand_behind_decimals() {
    let number = |text: &str| nix_value(&Json::Number(None, text.to_string()));
    assert_eq!(number("1e-7"), "1.0e-7");
    assert_eq!(number("1.5e300"), "1.5e300");
    assert_eq!(number("-3e+20"), "-3.0e+20");
    assert_eq!(expression("1e-7"), "1.0e-7");
}

#[test]
fn strings_are_escaped() {
    assert_eq!(literal(""), r#""""#);
    assert_eq!(literal(r#"say "hi""#), r#""say \"hi\"""#);
    assert_eq!(literal(r"C:\x"), r#""C:\\x""#);
    assert_eq!(literal("${pkgs.vim}"), r#""\${pkgs.vim}""#);
    assert_eq!(literal("$${x}"), r#""$\${x}""#);
    assert_eq!(literal("$HOME costs 5$"), r#""$HOME costs 5$""#);
    assert_eq!(literal("a\nb\tc"), "\"a\nb\tc\"");
    assert_eq!(literal("a\r\nb"), "\"a\\r\nb\"");
}

#[test]
fn lists() {
    assert_eq!(expression("[]"), "[ ]");
    assert_eq!(expression("[1, 2]"), "[ 1 2 ]");
    assert_eq!(expression(r#"[null, [true], "x y"]"#), r#"[ null [ true ] "x y" ]"#);
    assert_eq!(expression("[-1, -2.5, 3]"), "[ (-1) (-2.5) 3 ]");
}

#[test]
fn attribute_sets() {
    assert_eq!(expression("{}"), "{ }");
    assert_eq!(
        expression(r#"{"enable": true, "a.b": {"n": -1}}"#),
        r#"{ "a.b" = { "n" = -1; }; "enable" = true; }"#
    );
    let member = JsonMember { key: "${k}\"".to_string(), value: Json::Null };
    assert_eq!(nix_value(&Json::Object(vec![member])), r#"{ "\${k}\"" = null; }"#);
}
