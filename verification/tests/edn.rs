use kami_data::edn::{kw_key, map_table, mget, parse_edn, root_map, vector_table, EdnValue, TableError};

fn s(t: &str) -> String {
    t.to_string()
}

#[test]
fn edn_scalars() {
    assert_eq!(parse_edn("nil"), Some(EdnValue::Nil));
    assert_eq!(parse_edn(" true "), Some(EdnValue::Bool(true)));
    assert_eq!(parse_edn("false"), Some(EdnValue::Bool(false)));
    assert_eq!(parse_edn("42"), Some(EdnValue::Int(42)));
    assert_eq!(parse_edn("-7"), Some(EdnValue::Int(-7)));
    assert_eq!(parse_edn("+7"), Some(EdnValue::Int(7)));
    assert_eq!(parse_edn("0.05"), Some(EdnValue::Float(s("0.05"))));
    assert_eq!(parse_edn("1e3"), Some(EdnValue::Float(s("1e3"))));
    assert_eq!(parse_edn(":io-multiplayer"), Some(EdnValue::Keyword(s("io-multiplayer"))));
    assert_eq!(parse_edn(":game/catalog"), Some(EdnValue::Keyword(s("game/catalog"))));
    assert_eq!(parse_edn("foo-bar"), Some(EdnValue::Symbol(s("foo-bar"))));
    assert_eq!(parse_edn("-"), Some(EdnValue::Symbol(s("-"))));
}

#[test]
fn edn_integer_limits() {
    assert_eq!(parse_edn("9223372036854775807"), Some(EdnValue::Int(i64::MAX)));
    assert_eq!(parse_edn("-9223372036854775808"), Some(EdnValue::Int(i64::MIN)));
    assert_eq!(parse_edn("9223372036854775808"), None);
    assert_eq!(parse_edn("123456789012345678901234567890"), None);
}

#[test]
fn edn_strings_and_escapes() {
    assert_eq!(parse_edn(r#""Agar""#), Some(EdnValue::Str(s("Agar"))));
    assert_eq!(parse_edn(r#""a\"b\\c\nd\te""#), Some(EdnValue::Str(s("a\"b\\c\nd\te"))));
    assert_eq!(parse_edn(r#""Ω — 修行""#), Some(EdnValue::Str(s("Ω — 修行"))));
    assert_eq!(parse_edn(r#""unterminated"#), None);
    assert_eq!(parse_edn(r#""bad \q escape""#), None);
}

#[test]
fn edn_collections() {
    assert_eq!(
        parse_edn("[1, 2 ,3]"),
        Some(EdnValue::Vector(vec![EdnValue::Int(1), EdnValue::Int(2), EdnValue::Int(3)]))
    );
    assert_eq!(parse_edn("(a b)"), Some(EdnValue::List(vec![EdnValue::Symbol(s("a")), EdnValue::Symbol(s("b"))])));
    assert_eq!(
        parse_edn("{:a 1 :b [true]}"),
        Some(EdnValue::Mapping(vec![
            (EdnValue::Keyword(s("a")), EdnValue::Int(1)),
            (EdnValue::Keyword(s("b")), EdnValue::Vector(vec![EdnValue::Bool(true)])),
        ]))
    );
    assert_eq!(parse_edn("{}"), Some(EdnValue::Mapping(vec![])));
    assert_eq!(parse_edn("[]"), Some(EdnValue::Vector(vec![])));
}

#[test]
fn edn_comments_and_whitespace() {
    let src = ";; header comment\n{:a 1 ; trailing comment\n :b 2}\n; done";
    assert_eq!(
        parse_edn(src),
        Some(EdnValue::Mapping(vec![
            (EdnValue::Keyword(s("a")), EdnValue::Int(1)),
            (EdnValue::Keyword(s("b")), EdnValue::Int(2)),
        ]))
    );
}

#[test]
fn edn_malformed_inputs() {
    assert_eq!(parse_edn(""), None);
    assert_eq!(parse_edn("   "), None);
    assert_eq!(parse_edn("[1 2"), None);
    assert_eq!(parse_edn("{:a}"), None);
    assert_eq!(parse_edn("{:a 1 :b}"), None);
    assert_eq!(parse_edn("]"), None);
    assert_eq!(parse_edn("1 2"), None);
    assert_eq!(parse_edn("#{1}"), None);
    assert_eq!(parse_edn("12abc"), None);
    assert_eq!(parse_edn(":"), None);
}

#[test]
fn edn_root_map_and_lookup() {
    assert!(root_map("42").is_none());
    assert!(root_map("[1]").is_none());
    let m = root_map("{:x 1 \"x\" 2 :y 3 :x 4}").unwrap();
    assert_eq!(mget(&m, "x"), Some(&EdnValue::Int(4)), "the last entry for a key wins");
    assert_eq!(mget(&m, "y"), Some(&EdnValue::Int(3)));
    assert_eq!(mget(&m, "z"), None);
    assert_eq!(kw_key(&EdnValue::Keyword(s("rpg"))), Some(s("rpg")));
    assert_eq!(kw_key(&EdnValue::Str(s("rpg"))), None);
}

#[test]
fn edn_accessors() {
    let v = parse_edn("[\"t\" 3 [1] {:k 2}]").unwrap();
    let xs = v.as_vector().unwrap();
    assert_eq!(xs[0].as_str(), Some("t"));
    assert_eq!(xs[1].as_integer(), Some(3));
    assert_eq!(xs[2].as_vector().map(|v| v.len()), Some(1));
    assert_eq!(xs[3].as_map().map(|m| m.len()), Some(1));
    assert_eq!(xs[0].as_integer(), None);
    assert!(xs[1].as_map().is_none());
}

#[test]
fn edn_tables() {
    assert_eq!(vector_table("42", "t"), Err(TableError::NotAMap));
    assert_eq!(vector_table("{:u [1]}", "t"), Err(TableError::Missing));
    assert_eq!(vector_table("{:t {:a 1}}", "t"), Err(TableError::Missing));
    assert_eq!(vector_table("{:t [1 2]}", "t"), Ok(vec![EdnValue::Int(1), EdnValue::Int(2)]));
    assert_eq!(map_table("{:t [1 2]}", "t"), Err(TableError::Missing));
    assert_eq!(
        map_table("{:t {:a 1}}", "t"),
        Ok(vec![(EdnValue::Keyword(s("a")), EdnValue::Int(1))])
    );
}
