use keycase::case_kind_of;
use keycase::convert_key;
use keycase::transform;
use keycase::transform_keys;
use keycase::CaseKind;
use keycase::ConversionCache;
use keycase::TransformTask;
use keycase::Value;

fn s(x: &str) -> String {
    x.to_string()
}

#[test]
fn scenario_flat_object_camel() {
    let cache = ConversionCache::new();
    let input = Value::Object(vec![
        (s("user_id"), Value::Number(1)),
        (s("first-name"), Value::Text(s("Ann"))),
    ]);
    let expected = Value::Object(vec![
        (s("userId"), Value::Number(1)),
        (s("firstName"), Value::Text(s("Ann"))),
    ]);
    assert_eq!(transform(&input, "camel", &cache), expected);
}

#[test]
fn scenario_nested_object_snake() {
    let cache = ConversionCache::new();
    let input = Value::Object(vec![(
        s("MyKey"),
        Value::Object(vec![(
            s("innerValue"),
            Value::Array(vec![Value::Number(1), Value::Number(2), Value::Number(3)]),
        )]),
    )]);
    let expected = Value::Object(vec![(
        s("my_key"),
        Value::Object(vec![(
            s("inner_value"),
            Value::Array(vec![Value::Number(1), Value::Number(2), Value::Number(3)]),
        )]),
    )]);
    assert_eq!(transform(&input, "snake", &cache), expected);
}

#[test]
fn scenario_large_array_pascal() {
    let cache = ConversionCache::new();
    let mut items = Vec::new();
    for _ in 0..150 {
        items.push(Value::Object(vec![(s("a_b"), Value::Number(1))]));
    }
    let input = Value::Array(items);
    let out = transform(&input, "pascal", &cache);
    match out {
        Value::Array(outs) => {
            assert_eq!(outs.len(), 150);
            for element in &outs {
                let expected = Value::Object(vec![(s("AB"), Value::Number(1))]);
                assert_eq!(element, &expected);
            }
        }
        _ => panic!("array in, array out"),
    }
}

#[test]
fn large_array_keeps_order() {
    let cache = ConversionCache::new();
    let mut items = Vec::new();
    for i in 0..150 {
        items.push(Value::Object(vec![(s("a_b"), Value::Number(i))]));
    }
    let input = Value::Array(items);
    let out = transform(&input, "camel", &cache);
    match out {
        Value::Array(outs) => {
            assert_eq!(outs.len(), 150);
            for (i, element) in outs.iter().enumerate() {
                let expected = Value::Object(vec![(s("aB"), Value::Number(i as i64))]);
                assert_eq!(element, &expected);
            }
        }
        _ => panic!("array in, array out"),
    }
}

#[test]
fn large_object_keeps_order() {
    let cache = ConversionCache::new();
    let mut entries = Vec::new();
    for i in 0..501 {
        entries.push((s("some_key"), Value::Number(i)));
    }
    let input = Value::Object(entries);
    let out = transform(&input, "camel", &cache);
    match out {
        Value::Object(outs) => {
            assert_eq!(outs.len(), 501);
            for (i, entry) in outs.iter().enumerate() {
                assert_eq!(entry.0, s("someKey"));
                assert_eq!(entry.1, Value::Number(i as i64));
            }
        }
        _ => panic!("object in, object out"),
    }
}

#[test]
fn scenario_scalars_unchanged() {
    let cache = ConversionCache::new();
    assert_eq!(transform(&Value::Number(42), "camel", &cache), Value::Number(42));
    assert_eq!(transform(&Value::Number(42), "kebab", &cache), Value::Number(42));
    assert_eq!(transform(&Value::Null, "snake", &cache), Value::Null);
    assert_eq!(transform(&Value::Bool(true), "pascal", &cache), Value::Bool(true));
    assert_eq!(
        transform(&Value::Text(s("no_change")), "camel", &cache),
        Value::Text(s("no_change"))
    );
}

#[test]
fn scenario_repeated_calls_byte_identical() {
    let cache = ConversionCache::new();
    let first = convert_key("repeated_key", CaseKind::Kebab, &cache);
    let second = convert_key("repeated_key", CaseKind::Kebab, &cache);
    let third = convert_key("repeated_key", CaseKind::Kebab, &cache);
    assert_eq!(first.as_bytes(), second.as_bytes());
    assert_eq!(second.as_bytes(), third.as_bytes());
    assert_eq!(first, s("repeated-key"));
}

#[test]
fn warm_cache_matches_cold_cache() {
    let cold = ConversionCache::new();
    let warm = ConversionCache::new();
    let _ = convert_key("warmUpKey", CaseKind::Snake, &warm);
    let from_warm = convert_key("warmUpKey", CaseKind::Snake, &warm);
    let from_cold = convert_key("warmUpKey", CaseKind::Snake, &cold);
    assert_eq!(from_warm, from_cold);
    assert_eq!(from_cold, s("warm_up_key"));
}

#[test]
fn fast_path_camel_flips_first_only() {
    let cache = ConversionCache::new();
    assert_eq!(convert_key("simpleKey", CaseKind::Camel, &cache), s("simpleKey"));
    assert_eq!(convert_key("MyKey", CaseKind::Camel, &cache), s("myKey"));
    assert_eq!(convert_key("URL", CaseKind::Camel, &cache), s("uRL"));
    assert_eq!(convert_key("", CaseKind::Camel, &cache), s(""));
}

#[test]
fn fast_path_pascal_flips_first_only() {
    let cache = ConversionCache::new();
    assert_eq!(convert_key("simpleKey", CaseKind::Pascal, &cache), s("SimpleKey"));
    assert_eq!(convert_key("already", CaseKind::Pascal, &cache), s("Already"));
    assert_eq!(convert_key("", CaseKind::Pascal, &cache), s(""));
}

#[test]
fn snake_and_kebab_skip_the_fast_path() {
    let cache = ConversionCache::new();
    assert_eq!(convert_key("myKey", CaseKind::Snake, &cache), s("my_key"));
    assert_eq!(convert_key("MyKey", CaseKind::Kebab, &cache), s("my-key"));
}

#[test]
fn full_conversion_per_case() {
    let cache = ConversionCache::new();
    assert_eq!(convert_key("first-name", CaseKind::Camel, &cache), s("firstName"));
    assert_eq!(convert_key("a_b", CaseKind::Pascal, &cache), s("AB"));
    assert_eq!(convert_key("innerValue", CaseKind::Snake, &cache), s("inner_value"));
    assert_eq!(convert_key("user_id", CaseKind::Kebab, &cache), s("user-id"));
}

#[test]
fn unrecognized_selector_falls_back_to_camel() {
    let cache = ConversionCache::new();
    let input = Value::Object(vec![(s("user_id"), Value::Number(7))]);
    let odd = transform(&input, "anything-unrecognized", &cache);
    let input_again = Value::Object(vec![(s("user_id"), Value::Number(7))]);
    let camel = transform(&input_again, "camel", &cache);
    assert_eq!(odd, camel);
    assert_eq!(camel, Value::Object(vec![(s("userId"), Value::Number(7))]));
}

#[test]
fn selector_strings_name_their_case() {
    assert_eq!(case_kind_of("camel"), CaseKind::Camel);
    assert_eq!(case_kind_of("snake"), CaseKind::Snake);
    assert_eq!(case_kind_of("pascal"), CaseKind::Pascal);
    assert_eq!(case_kind_of("kebab"), CaseKind::Kebab);
    assert_eq!(case_kind_of("SNAKE"), CaseKind::Camel);
    assert_eq!(case_kind_of(""), CaseKind::Camel);
}

#[test]
fn empty_containers_transform_to_empty() {
    let cache = ConversionCache::new();
    assert_eq!(
        transform(&Value::Array(Vec::new()), "snake", &cache),
        Value::Array(Vec::new())
    );
    assert_eq!(
        transform(&Value::Object(Vec::new()), "snake", &cache),
        Value::Object(Vec::new())
    );
}

#[test]
fn task_compute_matches_synchronous_transform() {
    let cache = ConversionCache::new();
    let task = TransformTask::new(
        Value::Object(vec![(s("first-name"), Value::Text(s("Ann")))]),
        CaseKind::Snake,
    );
    let computed = task.compute(&cache);
    let direct = transform_keys(
        &Value::Object(vec![(s("first-name"), Value::Text(s("Ann")))]),
        CaseKind::Snake,
        &cache,
    );
    assert_eq!(computed, direct);
    assert_eq!(direct, Value::Object(vec![(s("first_name"), Value::Text(s("Ann")))]));
}

#[test]
fn shared_cache_across_trees() {
    let cache = ConversionCache::new();
    let first = transform(
        &Value::Object(vec![(s("shared_key"), Value::Null)]),
        "kebab",
        &cache,
    );
    let second = transform(
        &Value::Object(vec![(s("shared_key"), Value::Bool(false))]),
        "kebab",
        &cache,
    );
    assert_eq!(first, Value::Object(vec![(s("shared-key"), Value::Null)]));
    assert_eq!(second, Value::Object(vec![(s("shared-key"), Value::Bool(false))]));
}
