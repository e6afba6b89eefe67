use pawkit_desktop::json::{parse, Json, MAX_DEPTH};

fn text(s: &str) -> Json {
    Json::Text(s.to_string())
}

fn number(s: &str) -> Json {
    Json::Number(s.to_string())
}

#[test]
fn literals() {
    assert_eq!(parse("null"), Some(Json::Null));
    assert_eq!(parse("true"), Some(Json::Bool(true)));
    assert_eq!(parse("false"), Some(Json::Bool(false)));
    assert_eq!(parse("nul"), None);
    assert_eq!(parse("True"), None);
    assert_eq!(parse("truefalse"), None);
}

#[test]
fn white_space_around_a_value() {
    assert_eq!(parse(" \t\r\n null \n"), Some(Json::Null));
    assert_eq!(parse(""), None);
    assert_eq!(parse("   "), None);
    assert_eq!(parse("\u{a0}null"), None);
}

#[test]
fn numbers_keep_their_spelling() {
    for ok in ["0", "-0", "7", "-12", "3.25", "1e9", "1E+9", "2.5e-3", "120"] {
        assert_eq!(parse(ok), Some(number(ok)), "{ok}");
    }
    for bad in ["01", "-", "1.", ".5", "1e", "1e+", "+1", "0x10", "1 2", "--1"] {
        assert_eq!(parse(bad), None, "{bad}");
    }
}

#[test]
fn strings_and_escapes() {
    assert_eq!(parse("\"\""), Some(text("")));
    assert_eq!(parse("\"abc\""), Some(text("abc")));
    assert_eq!(parse(r#""a\"b\\c\/d""#), Some(text("a\"b\\c/d")));
    assert_eq!(parse(r#""\b\f\n\r\t""#), Some(text("\u{8}\u{c}\n\r\t")));
    assert_eq!(parse(r#""\u0041\u00e9\u20AC""#), Some(text("Aé€")));
    assert_eq!(parse("\"héllo ✓\""), Some(text("héllo ✓")));
}

#[test]
fn surrogate_pairs_make_one_character() {
    assert_eq!(parse(r#""\ud83d\ude00""#), Some(text("😀")));
    assert_eq!(parse(r#""\uD83D""#), None);
    assert_eq!(parse(r#""\uDE00""#), None);
    assert_eq!(parse(r#""\ud83dx""#), None);
    assert_eq!(parse(r#""\ud83d\u0041""#), None);
}

#[test]
fn broken_strings_are_refused() {
    assert_eq!(parse("\"abc"), None);
    assert_eq!(parse("\"a\nb\""), None);
    assert_eq!(parse("\"a\tb\""), None);
    assert_eq!(parse(r#""\x""#), None);
    assert_eq!(parse(r#""\u12""#), None);
    assert_eq!(parse(r#""\u12g4""#), None);
    assert_eq!(parse("\"a\"b\""), None);
}

#[test]
fn arrays() {
    assert_eq!(parse("[]"), Some(Json::Array(vec![])));
    assert_eq!(parse("[ ]"), Some(Json::Array(vec![])));
    assert_eq!(
        parse("[1, \"a\" ,null,[true]]"),
        Some(Json::Array(vec![
            number("1"),
            text("a"),
            Json::Null,
            Json::Array(vec![Json::Bool(true)]),
        ]))
    );
    for bad in ["[", "[1", "[1,", "[1,]", "[,1]", "[1 2]", "[]]", "[1;2]"] {
        assert_eq!(parse(bad), None, "{bad}");
    }
}

#[test]
fn objects_keep_their_members_in_order() {
    assert_eq!(parse("{}"), Some(Json::Object(vec![])));
    assert_eq!(parse("{ \n}"), Some(Json::Object(vec![])));
    assert_eq!(
        parse("{\"b\": 1, \"a\" :{\"c\":[]} }"),
        Some(Json::Object(vec![
            ("b".to_string(), number("1")),
            ("a".to_string(), Json::Object(vec![("c".to_string(), Json::Array(vec![]))])),
        ]))
    );
    assert_eq!(
        parse("{\"a\":1,\"a\":2}"),
        Some(Json::Object(vec![("a".to_string(), number("1")), ("a".to_string(), number("2"))]))
    );
    for bad in ["{", "{\"a\"}", "{\"a\":}", "{\"a\":1,}", "{a:1}", "{\"a\" 1}", "{\"a\":1 \"b\":2}", "{1:2}"] {
        assert_eq!(parse(bad), None, "{bad}");
    }
}

#[test]
fn nesting_up_to_the_limit() {
    let deepest = format!("{}{}", "[".repeat(MAX_DEPTH), "]".repeat(MAX_DEPTH));
    assert!(parse(&deepest).is_some());
    let too_deep = format!("{}{}", "[".repeat(MAX_DEPTH + 1), "]".repeat(MAX_DEPTH + 1));
    assert_eq!(parse(&too_deep), None);
    let objects = format!("{}1{}", "{\"k\":".repeat(MAX_DEPTH), "}".repeat(MAX_DEPTH));
    assert!(parse(&objects).is_some());
}

#[test]
fn one_value_only() {
    assert_eq!(parse("[] []"), None);
    assert_eq!(parse("null,"), None);
    assert_eq!(parse("{} x"), None);
}
