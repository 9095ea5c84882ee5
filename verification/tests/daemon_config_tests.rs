use xcp_lite::daemon_config::DaemonConfig;
use xcp_lite::process_config::{ProcessConfig, Sections};

// Text of the test configuration file
fn dummy_config_text() -> &'static str {
    "\
    # Test config file
    key1 = value1
    [section1]
    key2 = value2
    key3 = value3
    [section2]
    key4 = value4"
}

#[test]
fn test_get_config_value() {
    let config = DaemonConfig::new(dummy_config_text());

    assert_eq!(config.get_value("default", "key1"), Some(&String::from("value1")));
    assert_eq!(config.get_value("section1", "key2"), Some(&String::from("value2")));
    assert_eq!(config.get_value("section1", "key3"), Some(&String::from("value3")));
    assert_eq!(config.get_value("section2", "key4"), Some(&String::from("value4")));
    assert_eq!(config.get_value("default", "nonexistent"), None);
    assert_eq!(config.get_value("nonexistent_section", "key1"), None);
}

#[test]
fn test_section_iterator() {
    let config = DaemonConfig::new(dummy_config_text());

    let mut section_count = 0;
    let mut item_count = 0;
    let mut sections = config.sections();
    while let Some(section) = sections.next() {
        section_count += 1;
        for _ in section.items.iter() {
            item_count += 1;
        }
    }
    assert_eq!(section_count, 3);
    assert_eq!(item_count, 4);
}

#[test]
fn daemon_config_defaults() {
    let config = DaemonConfig::new("");
    assert_eq!(config.runtime_dir(), "/var/run");
    assert_eq!(config.data_dir(), "/var/lib");
    assert_eq!(config.user(), "daemon");
    assert_eq!(config.group(), "daemon");
    assert!(config.sections().next().is_none());
}

#[test]
fn daemon_config_later_value_replaces_earlier() {
    let config = DaemonConfig::new("[s]\na = 1\nb = 2\na = 3\n");
    assert_eq!(config.get_value("s", "a"), Some(&String::from("3")));
    let mut items = config.section_items("s").unwrap();
    assert_eq!(items.next(), Some((&String::from("a"), &String::from("3"))));
    assert_eq!(items.next(), Some((&String::from("b"), &String::from("2"))));
    assert_eq!(items.next(), None);
    assert!(config.section_items("t").is_none());
}

#[test]
fn daemon_config_repeated_section_keeps_items() {
    let config = DaemonConfig::new("[s]\na=1\n[t]\n[s]\nb=2\n");
    assert_eq!(config.get_value("s", "a"), Some(&String::from("1")));
    assert_eq!(config.get_value("s", "b"), Some(&String::from("2")));
    let mut count = 0;
    let mut sections = config.sections();
    while sections.next().is_some() {
        count += 1;
    }
    assert_eq!(count, 2);
}

#[test]
fn daemon_config_line_forms() {
    // comments, lines without '=', CRLF line ends, values holding '=', empty keys and section names
    let config = DaemonConfig::new("  # comment\r\nno equals sign\r\n k = v = w \r\n[]\n= x\n");
    assert_eq!(config.get_value("default", "k"), Some(&String::from("v = w")));
    assert_eq!(config.get_value("default", "no equals sign"), None);
    assert_eq!(config.get_value("", ""), Some(&String::from("x")));
}

#[test]
fn sections_ignore_keys_before_first_section() {
    let sections = Sections::from_text("key0 = value0\n[a]\nkey1 = value1\n");
    assert_eq!(sections.get_value("default", "key0"), None);
    assert_eq!(sections.get_value("a", "key1"), Some(&String::from("value1")));
}

#[test]
fn sections_repeated_header_starts_anew() {
    let sections = Sections::from_text("[a]\nx = 1\n[b]\ny = 2\n[a]\nz = 3\n");
    assert_eq!(sections.get_value("a", "x"), None);
    assert_eq!(sections.get_value("a", "z"), Some(&String::from("3")));
    assert_eq!(sections.get_value("b", "y"), Some(&String::from("2")));
    let mut it = sections.iterate();
    assert_eq!(it.next().unwrap().name, "a");
    assert_eq!(it.next().unwrap().name, "b");
    assert!(it.next().is_none());
}

#[test]
fn process_config_fields() {
    let c = ProcessConfig::new("xcpd", "/tmp/xcpd.pid", "[server]\nport = 5555\n", "/", "/dev/null");
    assert_eq!(c.name(), "xcpd");
    assert_eq!(c.pid_fpath(), "/tmp/xcpd.pid");
    assert_eq!(c.cwd(), "/");
    assert_eq!(c.stdio(), "/dev/null");
    assert_eq!(c.sections().get_value("server", "port"), Some(&String::from("5555")));

    let d = ProcessConfig::default();
    assert_eq!(d.name(), "xcpd");
    assert_eq!(d.cwd(), "/");
    assert_eq!(d.stdio(), "/dev/null");
    assert_eq!(d.pid_fpath(), "/var/run/xcpd.pid");
    assert!(d.sections().iterate().next().is_none());
}
