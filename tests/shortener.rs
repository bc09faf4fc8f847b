use shortlink::code::{generate_rand_code, CODE_LEN};
use shortlink::payload::{decode_link, link_or_empty, PayloadError};
use shortlink::service::{get_short_link, post_link, ShortLinkReply};
use shortlink::table::{LinkEntry, LinkTable};

fn is_code(s: &str) -> bool {
    s.chars().count() == 4 && s.chars().all(|c| c.is_ascii_alphanumeric())
}

fn redirect_target(table: &LinkTable, code: &str) -> Option<String> {
    match get_short_link(Some(table), code) {
        ShortLinkReply::Redirect(l) => Some(l),
        ShortLinkReply::NotFound => None,
    }
}

fn entry(long: &str, short: &str) -> LinkEntry {
    LinkEntry { long_link: long.to_string(), short_link: short.to_string() }
}

#[test]
fn generated_codes_are_four_alphanumerics() {
    assert_eq!(CODE_LEN, 4);
    for _ in 0..200 {
        let c = generate_rand_code(CODE_LEN);
        assert!(is_code(&c), "bad code {:?}", c);
    }
}

#[test]
fn generated_code_length_follows_argument() {
    assert_eq!(generate_rand_code(0), "");
    let c = generate_rand_code(12);
    assert_eq!(c.len(), 12);
    assert!(c.chars().all(|ch| ch.is_ascii_alphanumeric()));
}

#[test]
fn generated_codes_vary() {
    let codes: Vec<String> = (0..20).map(|_| generate_rand_code(CODE_LEN)).collect();
    assert!(codes.iter().any(|c| c != &codes[0]));
}

#[test]
fn create_and_redirect() {
    let mut t = LinkTable::new();
    let code = post_link(&mut t, br#"{"link":"https://example.com"}"#).unwrap();
    assert!(is_code(&code));
    assert_eq!(t.len(), 1);
    assert_eq!(redirect_target(&t, &code), Some("https://example.com".to_string()));
}

#[test]
fn round_trip_of_non_url_text() {
    let mut t = LinkTable::new();
    let code = post_link(&mut t, r#"{"link":"not a url é \"q\""}"#.as_bytes()).unwrap();
    assert_eq!(redirect_target(&t, &code), Some("not a url é \"q\"".to_string()));
}

#[test]
fn unknown_code_on_empty_table() {
    let t = LinkTable::new();
    assert!(matches!(get_short_link(Some(&t), "abcd"), ShortLinkReply::NotFound));
}

#[test]
fn unissued_code_not_found() {
    let mut t = LinkTable::new();
    t.append(entry("https://a", "AAAA"));
    t.append(entry("https://b", "BBBB"));
    assert!(matches!(get_short_link(Some(&t), "CCCC"), ShortLinkReply::NotFound));
    assert!(matches!(get_short_link(Some(&t), ""), ShortLinkReply::NotFound));
}

#[test]
fn unusable_table_answers_not_found() {
    assert!(matches!(get_short_link(None, "AAAA"), ShortLinkReply::NotFound));
}

#[test]
fn empty_object_stores_empty_link() {
    let mut t = LinkTable::new();
    let code = post_link(&mut t, b"{}").unwrap();
    assert!(is_code(&code));
    assert_eq!(t.len(), 1);
    assert_eq!(redirect_target(&t, &code), Some(String::new()));
}

#[test]
fn numeric_link_stores_empty_link() {
    let mut t = LinkTable::new();
    let code = post_link(&mut t, br#"{"link": 42}"#).unwrap();
    assert!(is_code(&code));
    assert_eq!(redirect_target(&t, &code), Some(String::new()));
}

#[test]
fn malformed_json_is_refused() {
    let mut t = LinkTable::new();
    assert_eq!(post_link(&mut t, br#"{"link": "#), Err(PayloadError::MalformedJson));
    assert_eq!(post_link(&mut t, b""), Err(PayloadError::MalformedJson));
    assert_eq!(t.len(), 0);
}

#[test]
fn same_link_twice_gives_two_entries() {
    let mut t = LinkTable::new();
    let c1 = post_link(&mut t, br#"{"link":"https://same"}"#).unwrap();
    let c2 = post_link(&mut t, br#"{"link":"https://same"}"#).unwrap();
    assert_eq!(t.len(), 2);
    assert_eq!(redirect_target(&t, &c1), Some("https://same".to_string()));
    assert_eq!(redirect_target(&t, &c2), Some("https://same".to_string()));
}

#[test]
fn hundred_posts_each_resolve() {
    let mut t = LinkTable::new();
    let mut issued: Vec<(String, String)> = Vec::new();
    for i in 0..100 {
        let link = format!("https://example.com/{}", i);
        let body = format!("{{\"link\":\"{}\"}}", link);
        let code = post_link(&mut t, body.as_bytes()).unwrap();
        issued.push((code, link));
    }
    assert_eq!(t.len(), 100);
    for (code, _) in &issued {
        // Where two posts drew one code, the older entry answers.
        let first = issued.iter().find(|(c, _)| c == code).unwrap();
        assert_eq!(redirect_target(&t, code), Some(first.1.clone()));
    }
}

#[test]
fn lookup_is_case_sensitive() {
    let mut t = LinkTable::new();
    t.append(entry("https://example.com", "Ab12"));
    assert!(matches!(get_short_link(Some(&t), "ab12"), ShortLinkReply::NotFound));
    assert_eq!(redirect_target(&t, "Ab12"), Some("https://example.com".to_string()));
}

#[test]
fn first_entry_of_a_code_wins() {
    let mut t = LinkTable::new();
    t.append(entry("https://old", "Zz99"));
    t.append(entry("https://new", "Zz99"));
    assert_eq!(t.find("Zz99"), Some("https://old".to_string()));
    assert_eq!(t.len(), 2);
}

#[test]
fn find_on_empty_and_filled_table() {
    let mut t = LinkTable::new();
    assert_eq!(t.find("AAAA"), None);
    t.append(entry("x", "AAAA"));
    t.append(entry("y", "BBBB"));
    assert_eq!(t.find("BBBB"), Some("y".to_string()));
    assert_eq!(t.find("AAAA"), Some("x".to_string()));
    assert_eq!(t.find("AAA"), None);
}

#[test]
fn decode_reads_link_member() {
    assert_eq!(decode_link(br#"{"link":"https://a.b/c"}"#), Ok("https://a.b/c".to_string()));
    assert_eq!(decode_link(br#"{"other":1,"link":"k"}"#), Ok("k".to_string()));
}

#[test]
fn decode_treats_other_shapes_as_empty() {
    assert_eq!(decode_link(br#"{"link":null}"#), Ok(String::new()));
    assert_eq!(decode_link(br#"{"link":["x"]}"#), Ok(String::new()));
    assert_eq!(decode_link(br#"{"Link":"x"}"#), Ok(String::new()));
    assert_eq!(decode_link(br#"["link"]"#), Ok(String::new()));
    assert_eq!(decode_link(br#""link""#), Ok(String::new()));
}

#[test]
fn decode_refuses_non_json() {
    assert_eq!(decode_link(b"link=x"), Err(PayloadError::MalformedJson));
    assert_eq!(decode_link(br#"{"link":"x"} trailing"#), Err(PayloadError::MalformedJson));
}

#[test]
fn link_or_empty_cases() {
    assert_eq!(link_or_empty(None), "");
    assert_eq!(link_or_empty(Some("abc".to_string())), "abc");
}
