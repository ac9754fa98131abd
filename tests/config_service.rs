use rustlab::config::{parse_entry, Config, ConfigReader, ConfigWriter, KeyValueConfigService, ValueGetter};
use std::io::Cursor;

#[test]
fn config_get_value() {
    let config = Config::new(vec![("hello".to_string(), "world".to_string())]);

    assert_eq!(config.get("hello"), Some("world".to_string()));
    assert_eq!(config.get("HELLO"), None);
}

#[test]
fn keyvalueservice_write_config() {
    let config = Config::new(vec![
        ("hello".to_string(), "world".to_string()),
        ("foo".to_string(), "bar".to_string()),
    ]);

    let service = KeyValueConfigService::new();
    let mut target = vec![];
    assert!(service.write(config, &mut target).is_ok());
    assert_eq!(
        String::from_utf8(target).unwrap(),
        "hello=world\nfoo=bar\n".to_string()
    );
}

#[test]
fn keyvalueservice_read_config() {
    let input = "hello=world\nfoo=bar\n";
    let mut source = Cursor::new(input);

    let service = KeyValueConfigService::new();
    let config = service.read(&mut source).unwrap();

    assert_eq!(config.get("hello"), Some("world".to_string()));
    assert_eq!(config.get("foo"), Some("bar".to_string()));
}

#[test]
fn config_first_pair_wins() {
    let config = Config::new(vec![
        ("a".to_string(), "1".to_string()),
        ("a".to_string(), "2".to_string()),
    ]);
    assert_eq!(config.get("a"), Some("1".to_string()));
}

#[test]
fn parse_trims_and_skips_bad_lines() {
    let config = Config::parse("  key = v1  \n=x\ny=\nnoequals\n\nk=a=b\nlast=1");
    assert_eq!(config.get("key "), Some(" v1".to_string()));
    assert_eq!(config.get("k"), Some("a".to_string()));
    assert_eq!(config.get("last"), Some("1".to_string()));
    assert_eq!(config.get("y"), None);
    assert_eq!(config.get(""), None);
    assert_eq!(config.render(), b"key = v1\nk=a\nlast=1\n".to_vec());
}

#[test]
fn parse_entry_needs_inner_equals() {
    assert_eq!(parse_entry("a=b"), Some(("a".to_string(), "b".to_string())));
    assert_eq!(parse_entry("=b"), None);
    assert_eq!(parse_entry("a="), None);
    assert_eq!(parse_entry("ab"), None);
}
