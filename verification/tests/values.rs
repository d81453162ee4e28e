use commandcode_proxy::float::Double;
use commandcode_proxy::json::{json_string, parse_json, parse_json_bytes, Json};
use commandcode_proxy::table::Table;
use commandcode_proxy::text::{
    contains_text, decimal_i64, decimal_u64, join, lower, parse_i64, parse_u16, remove_char, runs_of, strip_prefix,
    take_chars, trim, upper, Class,
};
use commandcode_proxy::util::{
    data_url_media_type, first_truthy, generate_traceparent, get_api_key, json_bytes, nullish_i64, nullish_num,
    nullish_text, random_hex, random_uuid, sha256_bytes, sha256_hex, short_id, slugify_project_path, string_or_empty,
    summarize_upstream_error, truthy, try_parse_json,
};

fn parsed(s: &str) -> Json {
    parse_json(s).expect("the test's JSON is valid")
}

// ── JSON ───────────────────────────────────────────────────────

#[test]
fn json_keeps_the_order_of_members() {
    let j = parsed(r#"{ "b": 1, "a": [true, null, "x"], "c": {"z": -2, "y": 1.5} }"#);
    assert_eq!(json_string(&j), r#"{"b":1,"a":[true,null,"x"],"c":{"z":-2,"y":1.5}}"#);
}

#[test]
fn json_escapes_and_unescapes() {
    let j = parsed("\"line\\nquote \\\" \\u00e9\"");
    assert_eq!(j.as_str(), Some("line\nquote \" \u{e9}"));
    assert_eq!(json_string(&j), "\"line\\nquote \\\" \u{e9}\"");
}

#[test]
fn json_refuses_what_is_none() {
    assert!(parse_json("{\"a\":}").is_none());
    assert!(parse_json("").is_none());
    assert!(parse_json("1 2").is_none());
    assert!(parse_json_bytes(&[0xff, 0xfe]).is_none());
    assert!(parse_json_bytes(b"{\"a\":1}").is_some());
}

#[test]
fn json_takes_the_last_of_a_repeated_member() {
    let j = parsed(r#"{"a":1,"b":2,"a":3}"#);
    assert_eq!(json_string(&j), r#"{"a":3,"b":2}"#);
}

#[test]
fn json_numbers_keep_their_kind() {
    let j = parsed("[18446744073709551615,-9223372036854775808,0.1,1e3]");
    assert_eq!(json_string(&j), "[18446744073709551615,-9223372036854775808,0.1,1000.0]");
}

#[test]
fn setting_a_member_keeps_its_place() {
    let j = Json::obj().with_int("a", 1).with_int("b", 2).with_int("a", 3);
    assert_eq!(json_string(&j), r#"{"a":3,"b":2}"#);
    let same = j.clone().with_int("a", 3);
    assert_eq!(json_string(&same), json_string(&j));
    assert_eq!(json_string(&Json::Null.with_int("a", 1)), "null");
    assert_eq!(json_string(&Json::obj().with_some("x", None)), "{}");
}

#[test]
fn members_can_be_read_by_kind() {
    let j = parsed(r#"{"s":"t","e":"","n":null,"o":{"k":7},"l":[1,2],"b":true,"neg":-1}"#);
    assert_eq!(j.get_str("s"), Some("t"));
    assert_eq!(j.get_nonempty("e"), None);
    assert!(j.get_nonnull("n").is_none());
    assert_eq!(j.get2("o", "k").and_then(|v| v.as_u64()), Some(7));
    assert_eq!(j.items("l").len(), 2);
    assert_eq!(j.items("s").len(), 0);
    assert_eq!(j.get("b").and_then(|v| v.as_bool()), Some(true));
    assert_eq!(j.get("neg").and_then(|v| v.as_u64()), None);
    assert!(j.get_object("o").is_some());
    assert!(j.get_object("l").is_none());
    assert!(j.or_null("missing").is_null());
}

// ── doubles ────────────────────────────────────────────────────

fn minus(a: f64, b: f64) -> i64 {
    Double::from_bits(a.to_bits()).minus(Double::from_bits(b.to_bits())).to_i64()
}

#[test]
fn doubles_are_subtracted_as_the_machine_does() {
    let values = [
        0.0,
        -0.0,
        1.0,
        -1.0,
        0.5,
        1.5,
        123456789.25,
        9007199254740993.0,
        1e18,
        -1e18,
        1e19,
        -1e19,
        1e300,
        5e-324,
        2.2250738585072014e-308,
        f64::MAX,
        f64::MIN,
        f64::INFINITY,
        f64::NEG_INFINITY,
        f64::NAN,
    ];
    for a in values {
        for b in values {
            assert_eq!(minus(a, b), (a - b) as i64, "{} - {}", a, b);
        }
    }
}

#[test]
fn doubles_are_converted_as_the_machine_does() {
    let values = [0.0, -0.0, 0.9, -0.9, 1e10, 9.3e18, -9.3e18, f64::NAN, f64::INFINITY, 404.0, 404.5, 65535.0, 65536.0];
    for v in values {
        let d = Double::from_bits(v.to_bits());
        assert_eq!(d.to_i64(), v as i64, "{}", v);
        assert_eq!(d.is_zero(), v == 0.0, "{}", v);
        assert_eq!(d.at_least_zero(), v >= 0.0, "{}", v);
    }
    for n in [0u64, 1, 9007199254740993, u64::MAX, u64::MAX - 1024, 1 << 63] {
        assert_eq!(Double::from_u64(n).to_i64(), (n as f64) as i64, "{}", n);
    }
    for n in [0i64, -1, i64::MIN, i64::MAX, -9007199254740993] {
        assert_eq!(Double::from_i64(n).to_i64(), (n as f64) as i64, "{}", n);
    }
}

// ── texts ──────────────────────────────────────────────────────

#[test]
fn texts_are_cut_and_joined() {
    assert_eq!(trim(" \t\u{3000}a b\n"), "a b");
    assert_eq!(decimal_u64(0), "0");
    assert_eq!(decimal_u64(u64::MAX), "18446744073709551615");
    assert_eq!(decimal_i64(i64::MIN), "-9223372036854775808");
    assert_eq!(strip_prefix("Bearer x", "Bearer ").as_deref(), Some("x"));
    assert_eq!(strip_prefix("bearer x", "Bearer "), None);
    assert!(contains_text("text-delta", "delta"));
    assert!(!contains_text("delt", "delta"));
    assert_eq!(join(&vec!["a".to_string(), "b".to_string()], ", "), "a, b");
    assert_eq!(take_chars("h\u{e9}llo", 2), "h\u{e9}");
    assert_eq!(remove_char("a-b-c", '-'), "abc");
    assert_eq!(lower("AbC\u{c9}"), "abc\u{c9}");
    assert_eq!(upper("a1f"), "A1F");
    assert_eq!(runs_of("  two  words ", Class::Word), vec!["two", "words"]);
}

#[test]
fn integers_are_read_as_written() {
    assert_eq!(parse_i64("+7"), Some(7));
    assert_eq!(parse_i64("-9223372036854775808"), Some(i64::MIN));
    assert_eq!(parse_i64("9223372036854775808"), None);
    assert_eq!(parse_i64("1.5"), None);
    assert_eq!(parse_i64(""), None);
    assert_eq!(parse_u16("65535"), Some(65535));
    assert_eq!(parse_u16("65536"), None);
    assert_eq!(parse_u16("-1"), None);
}

#[test]
fn tables_hold_one_value_for_a_key() {
    let mut t: Table<u32> = Table::new();
    t.insert("a", 1);
    t.insert("b", 2);
    t.insert("a", 3);
    assert_eq!(t.len(), 2);
    assert_eq!(t.get("a"), Some(&3));
    t.remove("a");
    assert_eq!(t.get("a"), None);
    assert_eq!(t.keys(), vec!["b"]);
    t.remove("missing");
    assert_eq!(t.len(), 1);
}

// ── readings of JSON values ────────────────────────────────────

#[test]
fn truth_is_that_of_javascript() {
    for (s, want) in [
        ("null", false),
        ("false", false),
        ("0", false),
        ("-0.0", false),
        ("\"\"", false),
        ("true", true),
        ("0.1", true),
        ("-1", true),
        ("\"0\"", true),
        ("[]", true),
        ("{}", true),
    ] {
        assert_eq!(truthy(&parsed(s)), want, "{}", s);
    }
    let picked = first_truthy(&[Json::Null, Json::of_str(""), Json::of_int(4)], Json::of_str("d"));
    assert_eq!(json_string(&picked), "4");
    assert_eq!(json_string(&first_truthy(&[Json::Null], Json::of_str("d"))), "\"d\"");
}

#[test]
fn numbers_are_read_from_numbers_and_texts() {
    assert_eq!(nullish_num(Some(&parsed("3.9"))), Some(3));
    assert_eq!(nullish_num(Some(&parsed("-3.9"))), Some(-3));
    assert_eq!(nullish_num(Some(&parsed("\" 12 \""))), Some(12));
    assert_eq!(nullish_num(Some(&parsed("\"1e3\""))), Some(1000));
    assert_eq!(nullish_num(Some(&parsed("\"x\""))), None);
    assert_eq!(nullish_num(Some(&Json::Null)), None);
    assert_eq!(nullish_num(Some(&parsed("true"))), None);
    assert_eq!(nullish_num(Some(&parsed("1e300"))), Some(i64::MAX));
    assert_eq!(nullish_i64(None, 5), 5);
    assert_eq!(nullish_i64(Some(&parsed("\"nan\"")), 5), 0);
}

#[test]
fn texts_are_read_from_any_value() {
    assert_eq!(string_or_empty(None), "");
    assert_eq!(string_or_empty(Some(&Json::Null)), "");
    assert_eq!(string_or_empty(Some(&parsed("\"t\""))), "t");
    assert_eq!(string_or_empty(Some(&parsed("1.5"))), "1.5");
    assert_eq!(string_or_empty(Some(&parsed("{\"a\":1}"))), "{\"a\":1}");
    assert_eq!(nullish_text(&parsed(r#"{"text":null,"content":"c"}"#)), "c");
    assert_eq!(nullish_text(&parsed(r#"{"text":"","content":"c"}"#)), "");
    assert_eq!(nullish_text(&parsed("{}")), "");
    assert_eq!(json_string(&try_parse_json("{bad")), "{}");
    assert_eq!(json_string(&try_parse_json("[1]")), "[1]");
    assert_eq!(json_bytes(&parsed("{\"a\": 1}")), b"{\"a\":1}".to_vec());
}

#[test]
fn media_types_are_found_in_data_urls() {
    assert_eq!(data_url_media_type("data:image/png;base64,AA==").as_deref(), Some("image/png"));
    assert_eq!(data_url_media_type("data:text/plain,x").as_deref(), Some("text/plain"));
    assert_eq!(data_url_media_type("data:;base64,AA"), None);
    assert_eq!(data_url_media_type("data:image/png"), None);
    assert_eq!(data_url_media_type("https://x/y.png"), None);
}

#[test]
fn upstream_errors_are_summed_up_on_one_line() {
    assert_eq!(summarize_upstream_error("", 10), "");
    assert_eq!(summarize_upstream_error(" a \n\t b ", 10), "a b");
    assert_eq!(summarize_upstream_error("abcdef ghij", 4), "abcd\u{2026}(7 more)");
}

// ── identifiers ────────────────────────────────────────────────

#[test]
fn api_keys_are_found_in_their_headers() {
    assert_eq!(get_api_key(Some("Bearer user_ab-C_9"), None).as_deref(), Some("user_ab-C_9"));
    assert_eq!(get_api_key(Some("Bearer xx user_a!b"), Some("user_z")).as_deref(), Some("user_a"));
    assert_eq!(get_api_key(Some("bearer user_a"), Some("key user_z")).as_deref(), Some("user_z"));
    assert_eq!(get_api_key(Some("Bearer user_"), None), None);
    assert_eq!(get_api_key(Some("Bearer user_ user_ok"), None).as_deref(), Some("user_ok"));
    assert_eq!(get_api_key(Some("Bearer sk-123"), Some("sk-123")), None);
    assert_eq!(get_api_key(None, None), None);
}

#[test]
fn slugs_are_made_of_paths() {
    assert_eq!(slugify_project_path("C:\\Users\\dev\\projects\\app"), "c-users-dev-projects-app");
    assert_eq!(slugify_project_path("/home/User Name/My_App/"), "home-user-name-my-app");
    assert_eq!(slugify_project_path("---"), "root");
    assert_eq!(slugify_project_path(""), "root");
    assert_eq!(slugify_project_path("\u{c9}t\u{e9}1"), "t-1");
}

#[test]
fn a_slug_is_its_own_slug() {
    for p in ["C:\\Users\\dev", "a--b__C9", "", "---", "\u{c9}t\u{e9}1", "\u{130}x"] {
        let slug = slugify_project_path(p);
        assert_eq!(slugify_project_path(&slug), slug);
        let letters: String =
            p.to_lowercase().chars().filter(|c| c.is_ascii_lowercase() || c.is_ascii_digit()).collect();
        let want = if letters.is_empty() { "root".to_string() } else { letters };
        assert_eq!(slug.replace('-', ""), want);
    }
}

#[test]
fn hashes_are_sha256() {
    assert_eq!(
        sha256_hex(b"abc"),
        "ba7816bf8f01cfea414140de5dae2223b00361a396177a9cb410ff61f20015ad"
    );
    assert_eq!(sha256_bytes(b"")[..4], [0xe3, 0xb0, 0xc4, 0x42]);
}

#[test]
fn random_identifiers_have_their_form() {
    let a = random_uuid();
    let b = random_uuid();
    assert_ne!(a, b);
    assert_eq!(a.len(), 36);
    assert_eq!(a.as_bytes()[14], b'4');
    assert_eq!(random_hex(8).len(), 16);
    assert!(random_hex(16).chars().all(|c| c.is_ascii_digit() || ('a'..='f').contains(&c)));
    assert_eq!(short_id("01234567-89ab-4def-8123-456789abcdef", 12), "0123456789ab");
    assert_eq!(short_id("01234567-89ab-4def-8123-456789abcdef", 24), "0123456789ab4def81234567");
    let t = generate_traceparent();
    assert_eq!(t.len(), 55);
    assert!(t.starts_with("00-") && t.ends_with("-01"));
    assert_eq!(t.as_bytes()[35], b'-');
    assert_ne!(generate_traceparent(), t);
}
