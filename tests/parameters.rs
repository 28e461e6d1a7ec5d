use parameterx::{IntVec, IntegerBehavior, JsonValue, ParameterError, Parameters, ParametersBuilder};

#[test]
fn test_builder_pattern() {
    let params = ParametersBuilder::new()
        .add("name", "Bob")
        .add("scores", IntVec::<i32>(vec![85, 92, 78]))
        .build();

    assert_eq!(params.get::<&str>("name"), Some("Bob").as_ref());
    assert_eq!(params.get::<IntVec<i32>>("scores").map(|v| v.0.clone()), Some(vec![85, 92, 78]));
}

#[test]
fn test_macro() {
    let params = Parameters::new().with("name", "Charlie").with("age", "25");

    assert_eq!(params.get_string("name"), Some("Charlie".to_string()));
    assert_eq!(params.get_string("age"), Some("25".to_string()));
}

#[test]
fn basic_usage_without_floats() {
    let mut params = Parameters::new();
    params.insert("name", "Alice");
    params.insert("age", 30);
    params.insert("deceased", false);

    assert_eq!(params.get::<&str>("name"), Some("Alice").as_ref());
    assert_eq!(params.get::<i32>("age"), Some(&30));
    assert_eq!(params.get::<bool>("deceased"), Some(&false));
}

#[test]
fn insert_then_get_returns_value() {
    let mut params = Parameters::new();
    params.insert("n", 7i64);
    params.insert("s", "seven".to_string());
    params.insert("c", 'x');
    assert_eq!(params.get::<i64>("n"), Some(&7));
    assert_eq!(params.get::<String>("s"), Some(&"seven".to_string()));
    assert_eq!(params.get::<char>("c"), Some(&'x'));
}

#[test]
fn get_with_other_type_is_empty() {
    let mut params = Parameters::new();
    params.insert("age", 30i32);
    params.insert("name", "Alice".to_string());
    assert_eq!(params.get::<i64>("age"), None);
    assert_eq!(params.get::<u32>("age"), None);
    assert_eq!(params.get::<String>("age"), None);
    assert_eq!(params.get::<&str>("name"), None);
    assert!(params.get_required::<bool>("age").is_err());
}

#[test]
fn absent_key_is_not_found() {
    let params = Parameters::new().with("a", 1i32);
    assert_eq!(params.get::<i32>("b"), None);
    match params.get_required::<i32>("b") {
        Err(ParameterError::KeyNotFound(k)) => assert_eq!(k, "b"),
        _ => panic!("expected KeyNotFound"),
    }
    assert_eq!(params.get_string("b"), None);
    assert!(!params.contains_key("b"));
    assert!(params.contains_key("a"));
}

#[test]
fn get_required_found() {
    let params = Parameters::new().with("a", 1u64);
    assert_eq!(*params.get_required::<u64>("a").unwrap(), 1);
}

#[test]
fn contains_type_matches_exact_type() {
    let params = Parameters::new().with("age", 30i32).with("flag", true);
    assert!(params.contains_type::<i32>("age"));
    assert!(!params.contains_type::<i64>("age"));
    assert!(params.contains_type::<bool>("flag"));
    assert!(!params.contains_type::<bool>("missing"));
}

#[test]
fn clone_is_independent() {
    let mut original = Parameters::new().with("a", 1i32);
    let mut copy = original.clone();
    copy.insert("b", 2i32);
    assert!(copy.contains_key("b"));
    assert!(!original.contains_key("b"));
    original.insert("c", 3i32);
    assert!(original.contains_key("c"));
    assert!(!copy.contains_key("c"));
    assert_eq!(copy.get::<i32>("a"), Some(&1));
}

#[test]
fn merge_prefers_right() {
    let mut a = Parameters::new().with("x", 1i32);
    let b = Parameters::new().with("x", 2i32).with("y", 3i32);
    a.merge(b);
    assert_eq!(a.get::<i32>("x"), Some(&2));
    assert_eq!(a.get::<i32>("y"), Some(&3));
    assert_eq!(a.keys(), vec!["x".to_string(), "y".to_string()]);
}

#[test]
fn builder_merge() {
    let other = Parameters::new().with("k", "v");
    let params = ParametersBuilder::new().add("k", 1i32).add("j", 2i32).merge(other).build();
    assert_eq!(params.get::<&str>("k"), Some(&"v"));
    assert_eq!(params.get::<i32>("j"), Some(&2));
}

#[test]
fn get_string_renders_primitives() {
    let params = Parameters::new()
        .with("age", 30)
        .with("neg", -1234i64)
        .with("zero", 0u32)
        .with("big", u64::MAX)
        .with("min", i64::MIN)
        .with("yes", true)
        .with("no", false)
        .with("ch", 'q')
        .with("list", IntVec::<i64>(vec![-1, 0, 25]))
        .with("empty", IntVec::<u32>(vec![]))
        .with("one", IntVec::<u64>(vec![9]));
    assert_eq!(params.get_string("age"), Some("30".to_string()));
    assert_eq!(params.get_string("neg"), Some("-1234".to_string()));
    assert_eq!(params.get_string("zero"), Some("0".to_string()));
    assert_eq!(params.get_string("big"), Some("18446744073709551615".to_string()));
    assert_eq!(params.get_string("min"), Some("-9223372036854775808".to_string()));
    assert_eq!(params.get_string("yes"), Some("true".to_string()));
    assert_eq!(params.get_string("no"), Some("false".to_string()));
    assert_eq!(params.get_string("ch"), Some("q".to_string()));
    assert_eq!(params.get_string("list"), Some("[-1, 0, 25]".to_string()));
    assert_eq!(params.get_string("empty"), Some("[]".to_string()));
    assert_eq!(params.get_string("one"), Some("[9]".to_string()));
}

#[test]
fn int_vec_text() {
    let v = IntVec::<i32>(vec![85, 92, 78]);
    assert_eq!(v.to_string(), "[85, 92, 78]");
    let plain: Vec<i32> = Vec::from(v);
    assert_eq!(plain, vec![85, 92, 78]);
}

#[test]
fn from_pairs_inserts_text() {
    let params = Parameters::from_pairs(vec![
        ("name".to_string(), "Charlie".to_string()),
        ("age".to_string(), "25".to_string()),
    ]);
    assert_eq!(params.get_string("name"), Some("Charlie".to_string()));
    assert_eq!(params.get_string("age"), Some("25".to_string()));
    assert_eq!(params.get::<String>("age"), Some(&"25".to_string()));
}

#[test]
fn from_pairs_later_pair_wins() {
    let params = Parameters::from_pairs(vec![
        ("k".to_string(), "first".to_string()),
        ("k".to_string(), "second".to_string()),
    ]);
    assert_eq!(params.get_string("k"), Some("second".to_string()));
    assert_eq!(params.keys().len(), 1);
}

#[test]
fn from_text_uses_text_key() {
    let params = Parameters::from_text("hello".to_string());
    assert_eq!(params.get::<String>("text"), Some(&"hello".to_string()));
    assert_eq!(params.keys(), vec!["text".to_string()]);
}

#[test]
fn try_get_parses_text() {
    let params = Parameters::new().with("age", "25").with("name", "Dave").with("flag", "true");
    assert_eq!(params.try_get::<i32>("age").unwrap(), 25);
    assert_eq!(params.try_get::<u64>("age").unwrap(), 25);
    assert_eq!(params.try_get::<String>("name").unwrap(), "Dave");
    assert_eq!(params.try_get::<bool>("flag").unwrap(), true);
    match params.try_get::<i32>("name") {
        Err(ParameterError::ConversionFailed(_)) => {}
        _ => panic!("expected ConversionFailed"),
    }
    match params.try_get::<i32>("missing") {
        Err(ParameterError::KeyNotFound(k)) => assert_eq!(k, "missing"),
        _ => panic!("expected KeyNotFound"),
    }
}

#[test]
fn try_get_integer_edges() {
    let params = Parameters::new()
        .with("plus", "+5")
        .with("minus", "-17")
        .with("sign", "-")
        .with("empty", "")
        .with("max", "2147483647")
        .with("over", "2147483648")
        .with("huge", "99999999999999999999999999999")
        .with("lead", "007")
        .with("space", " 1");
    assert_eq!(params.try_get::<i32>("plus").unwrap(), 5);
    assert_eq!(params.try_get::<i32>("minus").unwrap(), -17);
    assert!(params.try_get::<u32>("minus").is_err());
    assert!(params.try_get::<i32>("sign").is_err());
    assert!(params.try_get::<i32>("empty").is_err());
    assert_eq!(params.try_get::<i32>("max").unwrap(), i32::MAX);
    assert!(params.try_get::<i32>("over").is_err());
    assert_eq!(params.try_get::<i64>("over").unwrap(), 2147483648);
    assert!(params.try_get::<u64>("huge").is_err());
    assert_eq!(params.try_get::<i32>("lead").unwrap(), 7);
    assert!(params.try_get::<i32>("space").is_err());
}

#[test]
fn try_get_reads_rendered_number() {
    let params = Parameters::new().with("n", -42i64);
    assert_eq!(params.try_get::<i32>("n").unwrap(), -42);
    assert_eq!(params.try_get::<String>("n").unwrap(), "-42");
}

#[test]
fn keys_ascend() {
    let params = Parameters::new().with("b", 1i32).with("a", 2i32).with("ab", 3i32).with("B", 4i32);
    assert_eq!(
        params.keys(),
        vec!["B".to_string(), "a".to_string(), "ab".to_string(), "b".to_string()]
    );
    let seen: Vec<String> = params.iter().iter().map(|e| e.0.clone()).collect();
    assert_eq!(seen, params.keys());
}

#[test]
fn insert_overwrites() {
    let mut params = Parameters::new();
    params.insert("k", 1i32);
    params.insert("k", "now text");
    assert_eq!(params.get::<i32>("k"), None);
    assert_eq!(params.get::<&str>("k"), Some(&"now text"));
    assert_eq!(params.keys().len(), 1);
}

#[test]
fn to_json_projects_each_value() {
    let params = Parameters::new()
        .with("name", "Eve")
        .with("age", 41u32)
        .with("ok", true)
        .with("list", IntVec::<i32>(vec![1, -2]));
    let o = params.to_json().unwrap();
    assert_eq!(o.len(), 4);
    assert_eq!(o[0].0, "age");
    assert!(matches!(o[0].1, JsonValue::Number(41)));
    assert_eq!(o[1].0, "list");
    match &o[1].1 {
        JsonValue::Numbers(v) => assert_eq!(v, &vec![1i128, -2]),
        _ => panic!("expected an array"),
    }
    assert_eq!(o[2].0, "name");
    match &o[2].1 {
        JsonValue::String(s) => assert_eq!(s, "Eve"),
        _ => panic!("expected a string"),
    }
    assert!(matches!(o[3].1, JsonValue::Bool(true)));
}

#[test]
fn to_json_empty() {
    assert!(Parameters::new().to_json().unwrap().is_empty());
}

#[test]
fn within_range() {
    assert!(5i32.is_within_range(1, 5));
    assert!(!0u8.is_within_range(1, 5));
    assert!((-3i64).is_within_range(-3, -3));
}

#[test]
fn kind_names_and_copies() {
    let params = Parameters::new().with("a", 1i32).with("b", IntVec::<u64>(vec![2])).with("c", "t");
    let entries = params.iter();
    assert_eq!(entries[0].1.kind_name(), "i32");
    assert_eq!(entries[1].1.kind_name(), "IntVec<u64>");
    assert_eq!(entries[2].1.kind_name(), "&str");
    let copy = entries[1].1.clone_value();
    assert_eq!(copy.render(), "[2]");
}

#[test]
fn defaults_are_empty() {
    let params = Parameters::default();
    assert!(params.keys().is_empty());
    let built = ParametersBuilder::default().build();
    assert!(built.keys().is_empty());
}
