use age_env::codec::EnvMap;
use age_env::session::{
    add_contents_to_preload_data, decode_name_from_preload_data, find_record, passthrough_key,
    PASSTHROUGH_ENV_PREFIX,
};

fn map_of(pairs: &[(&str, &str)]) -> EnvMap {
    let mut m = EnvMap::new();
    for (k, v) in pairs {
        m.insert(k.to_string(), v.to_string());
    }
    m
}

#[test]
fn append_to_empty_carrier_writes_one_base64_record() {
    let c = add_contents_to_preload_data("", &map_of(&[("A", "1")]), "a");
    assert_eq!(c, "a:QT0iMSI=");
}

#[test]
fn append_joins_records_with_semicolons() {
    let c = add_contents_to_preload_data("a:QT0iMSI=", &map_of(&[("B", "2")]), "b");
    assert_eq!(c, "a:QT0iMSI=;b:Qj0iMiI=");
}

#[test]
fn first_writer_wins() {
    let first = add_contents_to_preload_data("", &map_of(&[("A", "1")]), "a");
    let second = add_contents_to_preload_data(&first, &map_of(&[("X", "9")]), "a");
    assert_eq!(second, first);
    assert_eq!(decode_name_from_preload_data(&second, "a"), Some("A=\"1\"".to_string()));
}

#[test]
fn lookup_decodes_the_named_record() {
    let carrier = "a:QT0iMSI=;b:QT0iMSIKQj0iMiI=";
    assert_eq!(
        decode_name_from_preload_data(carrier, "b"),
        Some("A=\"1\"\nB=\"2\"".to_string())
    );
    assert_eq!(find_record(carrier, "a"), Some("QT0iMSI=".to_string()));
}

#[test]
fn lookup_matches_whole_names_only() {
    let carrier = "ab:QT0iMSI=";
    assert_eq!(decode_name_from_preload_data(carrier, "a"), None);
    assert_eq!(decode_name_from_preload_data(carrier, "abc"), None);
}

#[test]
fn absent_or_malformed_records_are_misses() {
    assert_eq!(decode_name_from_preload_data("", "a"), None);
    assert_eq!(decode_name_from_preload_data("a", "a"), None);
    assert_eq!(decode_name_from_preload_data("a:!!notbase64", "a"), None);
    assert_eq!(decode_name_from_preload_data("a:/w==", "a"), None);
}

#[test]
fn marker_name_normalizes_non_alphanumerics() {
    assert_eq!(passthrough_key("my-db.prod"), "__passthrough_age_env_my_db_prod");
    assert_eq!(passthrough_key("Db2"), format!("{}Db2", PASSTHROUGH_ENV_PREFIX));
}
