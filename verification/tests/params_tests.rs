use gpui_router::keyed::StringMap;
use gpui_router::params::{decode_uri_component, encode_uri_component, QueryParams, RouteParams};

#[test]
fn test_route_params_basic() {
    let mut params = RouteParams::new();
    params.insert("id".to_string(), "123".to_string());

    assert_eq!(params.get("id"), Some(&"123".to_string()));
    assert!(params.contains("id"));
    assert!(!params.contains("missing"));
}

#[test]
fn test_route_params_get_as() {
    let mut params = RouteParams::new();
    params.insert("id".to_string(), "123".to_string());
    params.insert("active".to_string(), "true".to_string());

    assert_eq!(params.get_as::<i32>("id"), Some(123));
    assert_eq!(params.get_as::<u32>("id"), Some(123));
    assert_eq!(params.get_as::<bool>("active"), Some(true));
    assert_eq!(params.get_as::<i32>("missing"), None);
}

#[test]
fn test_route_params_from_map() {
    let mut map = StringMap::new();
    map.insert("name".to_string(), "John".to_string());
    map.insert("age".to_string(), "30".to_string());

    let params = RouteParams::from_map(map);

    assert_eq!(params.get("name"), Some(&"John".to_string()));
    assert_eq!(params.get_as::<i32>("age"), Some(30));
}

#[test]
fn test_route_params_set() {
    let mut params = RouteParams::new();
    params.set("key".to_string(), "value".to_string());

    assert_eq!(params.get("key"), Some(&"value".to_string()));
}

#[test]
fn test_route_params_all() {
    let mut params = RouteParams::new();
    params.insert("a".to_string(), "1".to_string());
    params.insert("b".to_string(), "2".to_string());

    let all = params.all();
    assert_eq!(all.len(), 2);
    assert_eq!(all.get("a"), Some(&"1".to_string()));
}

#[test]
fn test_route_params_iter() {
    let mut params = RouteParams::new();
    params.insert("x".to_string(), "1".to_string());
    params.insert("y".to_string(), "2".to_string());

    let count = params.iter().len();
    assert_eq!(count, 2);
}

#[test]
fn test_route_params_empty() {
    let params = RouteParams::new();
    assert!(params.is_empty());
    assert_eq!(params.len(), 0);

    let mut params = RouteParams::new();
    params.insert("key".to_string(), "value".to_string());
    assert!(!params.is_empty());
    assert_eq!(params.len(), 1);
}

#[test]
fn test_route_params_type_conversion() {
    let mut params = RouteParams::new();
    params.insert("id".to_string(), "123".to_string());
    params.insert("active".to_string(), "true".to_string());
    params.insert("invalid".to_string(), "not_a_number".to_string());

    assert_eq!(params.get_as::<i32>("id"), Some(123));
    assert_eq!(params.get_as::<bool>("active"), Some(true));
    assert_eq!(params.get_as::<i32>("invalid"), None);
    assert_eq!(params.get_as::<i32>("missing"), None);
}

#[test]
fn test_query_params_basic() {
    let query = QueryParams::from_query_string("page=1&sort=name&filter=active");

    assert_eq!(query.get("page"), Some(&"1".to_string()));
    assert_eq!(query.get("sort"), Some(&"name".to_string()));
    assert_eq!(query.get("filter"), Some(&"active".to_string()));
    assert_eq!(query.get("missing"), None);
}

#[test]
fn test_query_params_get_as() {
    let query = QueryParams::from_query_string("page=1&limit=50&active=true");

    assert_eq!(query.get_as::<i32>("page"), Some(1));
    assert_eq!(query.get_as::<usize>("limit"), Some(50));
    assert_eq!(query.get_as::<bool>("active"), Some(true));
    assert_eq!(query.get_as::<i32>("missing"), None);
}

#[test]
fn params_test_query_params_multiple_values() {
    let query = QueryParams::from_query_string("tag=rust&tag=gpui&tag=ui");

    let tags = query.get_all("tag").unwrap();
    assert_eq!(tags.len(), 3);
    assert!(tags.contains(&"rust".to_string()));
    assert!(tags.contains(&"gpui".to_string()));
    assert!(tags.contains(&"ui".to_string()));

    assert_eq!(query.get("tag"), Some(&"rust".to_string()));
}

#[test]
fn integration_tests_test_query_params_multiple_values() {
    let query = QueryParams::from_query_string("tag=rust&tag=gpui&tag=router");

    let tags = query.get_all("tag").unwrap();
    assert_eq!(tags.len(), 3);
    assert!(tags.contains(&"rust".to_string()));
    assert!(tags.contains(&"gpui".to_string()));
    assert!(tags.contains(&"router".to_string()));
}

#[test]
fn test_query_params_parsing() {
    let query = QueryParams::from_query_string("page=1&sort=name&active=true");

    assert_eq!(query.get("page"), Some(&"1".to_string()));
    assert_eq!(query.get("sort"), Some(&"name".to_string()));
    assert_eq!(query.get_as::<i32>("page"), Some(1));
    assert_eq!(query.get_as::<bool>("active"), Some(true));
}

#[test]
fn test_query_params_insert() {
    let mut query = QueryParams::new();
    query.insert("key".to_string(), "value1".to_string());
    query.insert("key".to_string(), "value2".to_string());

    let values = query.get_all("key").unwrap();
    assert_eq!(values.len(), 2);
    assert_eq!(values[0], "value1");
    assert_eq!(values[1], "value2");
}

#[test]
fn test_uri_encoding() {
    let encoded = encode_uri_component("hello world");
    assert_eq!(encoded, "hello%20world");

    let encoded = encode_uri_component("test@example.com");
    assert!(encoded.contains("%40"));
}

#[test]
fn test_uri_decoding() {
    let decoded = decode_uri_component("hello%20world");
    assert_eq!(decoded, "hello world");

    let decoded = decode_uri_component("hello+world");
    assert_eq!(decoded, "hello world");
}

#[test]
fn test_to_query_string() {
    let mut query = QueryParams::new();
    query.insert("page".to_string(), "1".to_string());
    query.insert("sort".to_string(), "name".to_string());

    let s = query.to_query_string();
    assert!(s.contains("page=1"));
    assert!(s.contains("sort=name"));
}

#[test]
fn test_query_params_empty() {
    let query = QueryParams::new();
    assert!(query.is_empty());
    assert_eq!(query.len(), 0);

    let mut query = QueryParams::new();
    query.insert("key".to_string(), "value".to_string());
    assert!(!query.is_empty());
    assert_eq!(query.len(), 1);
}

#[test]
fn test_empty_query_string() {
    let query = QueryParams::from_query_string("");
    assert!(query.is_empty());
}

#[test]
fn test_encoding_exact_values() {
    assert_eq!(encode_uri_component(""), "");
    assert_eq!(encode_uri_component("AZaz09-_.~"), "AZaz09-_.~");
    assert_eq!(encode_uri_component("a/b?c=d&e"), "a%2Fb%3Fc%3Dd%26e");
    assert_eq!(encode_uri_component("\n"), "%0A");
    assert_eq!(encode_uri_component("\u{ff}"), "%FF");
    assert_eq!(encode_uri_component("\u{141}"), "%41");
}

#[test]
fn test_decoding_exact_values() {
    assert_eq!(decode_uri_component(""), "");
    assert_eq!(decode_uri_component("%41%62"), "Ab");
    assert_eq!(decode_uri_component("%e9"), "\u{e9}");
    assert_eq!(decode_uri_component("100%"), "100%");
    assert_eq!(decode_uri_component("%zz!"), "%zz!");
    assert_eq!(decode_uri_component("%4"), "\u{4}");
    assert_eq!(decode_uri_component("%+4x"), "\u{4}x");
    assert_eq!(decode_uri_component("%-4x"), "%-4x");
    assert_eq!(decode_uri_component("%+"), "%+");
    assert_eq!(decode_uri_component("%%41"), "%%41");
    assert_eq!(decode_uri_component("a+b%2Bc"), "a b+c");
}

#[test]
fn test_decoding_agrees_with_radix_parsing() {
    let alphabet = ['0', '9', 'a', 'F', 'g', '+', '-', ' ', '%'];
    for first in alphabet {
        for second in alphabet {
            let hex: String = [first, second].iter().collect();
            let text = format!("%{}", hex);
            let expected = match u8::from_str_radix(&hex, 16) {
                Ok(byte) => (byte as char).to_string(),
                Err(_) => text.clone(),
            };
            assert_eq!(decode_uri_component(&text), expected);
        }
        let hex = first.to_string();
        let text = format!("%{}", hex);
        let expected = match u8::from_str_radix(&hex, 16) {
            Ok(byte) => (byte as char).to_string(),
            Err(_) => text.clone(),
        };
        assert_eq!(decode_uri_component(&text), expected);
    }
}

#[test]
fn test_query_string_round_trip_in_order() {
    let mut query = QueryParams::new();
    query.insert("tag".to_string(), "a b".to_string());
    query.insert("page".to_string(), "1".to_string());
    query.insert("tag".to_string(), "c&d".to_string());
    assert_eq!(query.to_query_string(), "tag=a%20b&tag=c%26d&page=1");
    assert_eq!(QueryParams::new().to_query_string(), "");

    let parsed = QueryParams::from_query_string("tag=a%20b&tag=c%26d&page=1&flag&=x");
    assert_eq!(parsed.len(), 3);
    assert_eq!(parsed.get_all("tag").unwrap(), &vec!["a b".to_string(), "c&d".to_string()]);
    assert!(parsed.contains("page"));
    assert!(!parsed.contains("flag"));
    assert_eq!(parsed.get(""), Some(&"x".to_string()));
    assert_eq!(parsed.get_all("none"), None);
}

#[test]
fn test_query_value_may_hold_equal_signs() {
    let parsed = QueryParams::from_query_string("a=b=c");
    assert_eq!(parsed.get("a"), Some(&"b=c".to_string()));
    assert_eq!(QueryParams::default().len(), 0);
}

#[test]
fn test_route_params_keep_insertion_order() {
    let mut params = RouteParams::new();
    params.insert("b".to_string(), "1".to_string());
    params.insert("a".to_string(), "2".to_string());
    params.insert("b".to_string(), "3".to_string());
    let pairs = params.iter();
    assert_eq!(
        pairs,
        vec![
            ("b".to_string(), "3".to_string()),
            ("a".to_string(), "2".to_string())
        ]
    );
    let copy = params.clone();
    assert_eq!(copy.iter(), pairs);
    assert_eq!(RouteParams::default().len(), 0);
}

#[test]
fn test_route_params_all_mut() {
    let mut params = RouteParams::new();
    params.insert("a".to_string(), "1".to_string());
    params.all_mut().insert("b".to_string(), "2".to_string());
    params.all_mut().clear();
    params.all_mut().insert("c".to_string(), "3".to_string());
    assert_eq!(params.len(), 1);
    assert_eq!(params.get("c"), Some(&"3".to_string()));
    assert!(!params.contains("a"));
}

#[test]
fn test_decoding_gives_back_what_was_encoded() {
    let mut text = String::new();
    for code in 0u32..256 {
        text.push(char::from_u32(code).unwrap());
    }
    assert_eq!(decode_uri_component(&encode_uri_component(&text)), text);
    assert_eq!(
        decode_uri_component(&encode_uri_component("a b+c%41&d=e/\u{e9}")),
        "a b+c%41&d=e/\u{e9}"
    );
    assert_eq!(encode_uri_component("\u{4e2d}"), "%2D");
    assert_eq!(decode_uri_component("%2D"), "-");
}

#[test]
fn test_query_string_gives_back_the_parameters() {
    let mut query = QueryParams::new();
    query.insert("a".to_string(), "b c".to_string());
    query.insert("k=1".to_string(), "\u{e9}".to_string());
    query.insert("a".to_string(), "x&y=z".to_string());
    query.insert("".to_string(), "+".to_string());
    let text = query.to_query_string();
    assert_eq!(text, "a=b%20c&a=x%26y%3Dz&k%3D1=%E9&=%2B");

    let read = QueryParams::from_query_string(&text);
    assert_eq!(read.len(), 3);
    assert_eq!(
        read.get_all("a"),
        Some(&vec!["b c".to_string(), "x&y=z".to_string()])
    );
    assert_eq!(read.get_all("k=1"), Some(&vec!["\u{e9}".to_string()]));
    assert_eq!(read.get_all(""), Some(&vec!["+".to_string()]));
    assert_eq!(read.to_query_string(), text);
}
