use age_env::codec::{parse, serialize, str_eq, EnvMap};
use age_env::error::EnvError;

fn map_of(pairs: &[(&str, &str)]) -> EnvMap {
    let mut m = EnvMap::new();
    for (k, v) in pairs {
        m.insert(k.to_string(), v.to_string());
    }
    m
}

fn pairs_of(m: &EnvMap) -> Vec<(String, String)> {
    m.to_pairs()
}

fn owned(pairs: &[(&str, &str)]) -> Vec<(String, String)> {
    pairs.iter().map(|(k, v)| (k.to_string(), v.to_string())).collect()
}

#[test]
fn serialize_quotes_each_value_one_line_per_entry() {
    let m = map_of(&[("A", "1"), ("B", "two words")]);
    assert_eq!(serialize(&m), "A=\"1\"\nB=\"two words\"");
}

#[test]
fn serialize_empty_map_is_empty_text() {
    assert_eq!(serialize(&EnvMap::new()), "");
}

#[test]
fn parse_reads_all_value_forms() {
    let text = "# comment\n\nPLAIN=value\nexport EXP=x\nSQ='a b'\nDQ=\"c d\" # trailing\nEMPTY=\"\"\n";
    let m = parse(text).unwrap();
    assert_eq!(
        pairs_of(&m),
        owned(&[("DQ", "c d"), ("EMPTY", ""), ("EXP", "x"), ("PLAIN", "value"), ("SQ", "a b")])
    );
}

#[test]
fn parse_orders_entries_by_key() {
    let m = parse("B=2\nA=1").unwrap();
    assert_eq!(pairs_of(&m), owned(&[("A", "1"), ("B", "2")]));
}

#[test]
fn parse_rejects_text_after_a_quoted_value() {
    assert_eq!(parse("A=\"x\" y\n").err(), Some(EnvError::Format));
}

#[test]
fn parse_rejects_a_line_without_equals() {
    assert_eq!(parse("A=1\nNOVALUE\n").err(), Some(EnvError::Format));
}

#[test]
fn parse_reads_an_unterminated_quote_as_a_bare_value() {
    let m = parse("A=\"open\n").unwrap();
    assert_eq!(pairs_of(&m), owned(&[("A", "\"open")]));
}

#[test]
fn parse_rejects_invalid_identifier() {
    assert_eq!(parse("1A=x").err(), Some(EnvError::Format));
}

#[test]
fn parse_empty_text_is_empty_map() {
    assert_eq!(parse("").unwrap().len(), 0);
}

#[test]
fn parse_of_serialize_gives_back_the_mapping() {
    let m = map_of(&[("A", "1"), ("B_2", "x y=z"), ("_c", ""), ("URL", "https://h/a?b=c#d")]);
    let back = parse(&serialize(&m)).unwrap();
    let mut expected = pairs_of(&m);
    expected.sort();
    assert_eq!(pairs_of(&back), expected);
}

#[test]
fn insert_replaces_value_of_existing_key() {
    let mut m = map_of(&[("A", "1"), ("B", "2")]);
    m.insert("A".to_string(), "3".to_string());
    assert_eq!(pairs_of(&m), owned(&[("A", "3"), ("B", "2")]));
    assert_eq!(m.get("A"), Some("3".to_string()));
    assert_eq!(m.get("C"), None);
    assert_eq!(m.find("B"), Some(1));
}

#[test]
fn str_eq_compares_characters() {
    assert!(str_eq("ab", "ab"));
    assert!(!str_eq("ab", "abc"));
    assert!(!str_eq("ab", "ac"));
    assert!(str_eq("", ""));
}
