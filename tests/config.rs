use static_httpd::config::{parse_config, MyConfig};

const SAMPLE: &str = "# server settings\n\
static_resource_path = \"/srv/www\"\n\
thread_pool_size = 4 # workers\n\
timezone = -5\n\
ip = \"127.0.0.1\"\n\
port = 8080\n\
page404_path = \"404.html\"\n";

#[test]
fn test_parse_config() {
    let config = MyConfig::new(&parse_config(SAMPLE).ok().unwrap()).ok().unwrap();
    println!("{}", config.static_resource_path);
    println!("{}", config.thread_pool_size);
    println!("{}", config.timezone);
    println!("{}", config.ip);
    println!("{}", config.port);
    assert_eq!(config.static_resource_path, "/srv/www");
    assert_eq!(config.index_page_path, "index.html");
    assert_eq!(config.page404_path, Some("404.html".to_string()));
    assert_eq!(config.page500_path, None);
    assert_eq!(config.thread_pool_size, 4);
    assert_eq!(config.timezone, -5);
    assert_eq!(config.ip, "127.0.0.1");
    assert_eq!(config.port, 8080);
}

#[test]
fn config_reads_texts_numbers_and_skips_the_rest() {
    let c = parse_config("  a = \"x y\"  \n#b = 1\n= 3\nnothing\n\nc=+12\r\nd = \"open\nc = -7").ok().unwrap();
    assert_eq!(c.get_text("a"), Some("x y".to_string()));
    assert_eq!(c.get_num("b"), None);
    assert_eq!(c.get_num("c"), Some(-7));
    assert_eq!(c.get_text("d"), Some("open".to_string()));
    assert_eq!(c.get_num("a"), None);
    assert_eq!(c.get_text("c"), None);
    let c = parse_config("\u{3000}key\u{a0}= \"v\"\n").ok().unwrap();
    assert_eq!(c.get_text("key"), Some("v".to_string()));
}

#[test]
fn config_rejects_a_malformed_value() {
    let e = parse_config("port = 80x\n").err().unwrap();
    assert_eq!(e.key, "port");
    assert!(parse_config("n = \n").is_err());
    assert!(parse_config("n = 99999999999999999999\n").is_err());
    assert!(parse_config("n = -\n").is_err());
    assert_eq!(parse_config("n = -9223372036854775808").ok().unwrap().get_num("n"), Some(isize::MIN));
}

#[test]
fn settings_need_every_required_key_in_range() {
    let ok = "static_resource_path = \"r\"\nthread_pool_size = 1\ntimezone = 0\nip = \"0.0.0.0\"\nport = 1\n";
    assert!(MyConfig::new(&parse_config(ok).ok().unwrap()).is_ok());
    let missing = "thread_pool_size = 1\ntimezone = 0\nip = \"0.0.0.0\"\nport = 1\n";
    let e = MyConfig::new(&parse_config(missing).ok().unwrap()).err().unwrap();
    assert_eq!(e.key, "static_resource_path");
    let port = format!("{}port = 70000\n", ok);
    assert_eq!(MyConfig::new(&parse_config(&port).ok().unwrap()).err().unwrap().key, "port");
    let size = format!("{}thread_pool_size = -1\n", ok);
    assert_eq!(MyConfig::new(&parse_config(&size).ok().unwrap()).err().unwrap().key, "thread_pool_size");
    let tz = format!("{}timezone = \"UTC\"\n", ok);
    assert_eq!(MyConfig::new(&parse_config(&tz).ok().unwrap()).err().unwrap().key, "timezone");
}
