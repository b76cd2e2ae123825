use prossimo::config::{CommandLineParameters, Config, LoggingConfig, OutputMode, ProxiesConfig, ServerConfig};
use prossimo::error::ProssimoError;
use prossimo::proxy::manager::ProxyManager;
use prossimo::proxy::types::{Proxy, ProxyParseError, ProxyProtocol, UrlParts};
use prossimo::proxy::validator::{check_proxy_list, is_live, CheckOutcome, ValidationTally};
use prossimo::text::{chars_of, contains, join_with_newlines, push_decimal, split_lines, trim};

fn sample_config() -> Config {
    Config {
        server: ServerConfig {
            listen_addr: "127.0.0.1".to_string(),
            listen_port: 8080,
            rotate_every_requests: 5,
        },
        logging: LoggingConfig { level: "info".to_string() },
        proxies: ProxiesConfig {
            source_file: "proxies.txt".to_string(),
            live_output_file: "live.txt".to_string(),
            validation_url: "https://api.ipify.org".to_string(),
            timeout_seconds: 10,
            validate_on_startup: true,
        },
    }
}

fn no_parameters() -> CommandLineParameters {
    CommandLineParameters {
        proxies: "none".to_string(),
        config: "none".to_string(),
        output: OutputMode::Unspecified,
        ipaddress: "none".to_string(),
        lport: 0,
        rotate_every: 0,
        skip_validation: false,
        validate_only: false,
        sample_proxy_file: false,
        dump_config_file: false,
        no_banner: false,
    }
}

fn lines(s: &str) -> Vec<String> {
    split_lines(s)
}

#[test]
fn split_lines_follows_str_lines() {
    let cases = [
        "",
        "a",
        "a\n",
        "a\nb",
        "a\r\nb\r\n",
        "a\n\nb",
        "\n",
        "\n\n",
        "x\r",
        "one\rtwo\nthree",
        "é\nü\r\n",
    ];
    for case in cases.iter() {
        let expected: Vec<String> = case.lines().map(|l| l.to_string()).collect();
        assert_eq!(lines(case), expected, "case {:?}", case);
    }
}

#[test]
fn split_lines_concrete() {
    assert_eq!(lines("a\r\nb\n\nc"), vec!["a".to_string(), "b".to_string(), "".to_string(), "c".to_string()]);
    assert!(lines("").is_empty());
    assert_eq!(lines("x\r"), vec!["x\r".to_string()]);
}

#[test]
fn chars_of_keeps_every_char() {
    assert_eq!(chars_of("aé\n"), vec!['a', 'é', '\n']);
}

#[test]
fn trim_follows_str_trim() {
    for case in ["", "  ", " 1.2.3.4\n", "\t a b \r\n", "\u{3000}x\u{a0}", "x"].iter() {
        assert_eq!(trim(case), case.trim().to_string());
    }
}

#[test]
fn contains_follows_str_contains() {
    let cases = [("abc", "b"), ("abc", ""), ("", ""), ("", "a"), ("abc", "abcd"), ("abcabd", "abd"), ("aab", "ab"), ("abc", "c"), ("abc", "ac")];
    for (hay, needle) in cases.iter() {
        assert_eq!(contains(hay, needle), hay.contains(needle), "{:?} {:?}", hay, needle);
    }
}

#[test]
fn decimal_rendering() {
    for n in [0u16, 7, 10, 99, 100, 8080, 65535].iter() {
        let mut s = String::from("port ");
        push_decimal(&mut s, *n);
        assert_eq!(s, format!("port {}", n));
    }
}

#[test]
fn join_lines_with_newlines() {
    assert_eq!(join_with_newlines(&vec![]), "");
    assert_eq!(join_with_newlines(&vec!["a".to_string()]), "a");
    assert_eq!(join_with_newlines(&vec!["a".to_string(), "".to_string(), "c".to_string()]), "a\n\nc");
}

#[test]
fn proxy_from_http_url() {
    let p = Proxy::from_str("http://10.0.1.0:8080").unwrap();
    assert_eq!(p.protocol, ProxyProtocol::Http);
    assert_eq!(p.host, "10.0.1.0");
    assert_eq!(p.port, 8080);
}

#[test]
fn proxy_from_sample_lines() {
    let p = Proxy::from_str("socks5://192.168.0.1:8080").unwrap();
    assert_eq!((p.protocol, p.host.as_str(), p.port), (ProxyProtocol::Socks5, "192.168.0.1", 8080));
    let p = Proxy::from_str("socks4://192.168.1.1:9000").unwrap();
    assert_eq!((p.protocol, p.host.as_str(), p.port), (ProxyProtocol::Socks4, "192.168.1.1", 9000));
    let p = Proxy::from_str("https://10.0.0.1:8000").unwrap();
    assert_eq!((p.protocol, p.host.as_str(), p.port), (ProxyProtocol::Https, "10.0.0.1", 8000));
}

#[test]
fn proxy_known_default_port() {
    let p = Proxy::from_str("https://example.com").unwrap();
    assert_eq!(p.port, 443);
    let p = Proxy::from_str("HTTP://Example.COM/path").unwrap();
    assert_eq!(p.protocol, ProxyProtocol::Http);
    assert_eq!(p.host, "example.com");
    assert_eq!(p.port, 80);
}

#[test]
fn proxy_errors() {
    assert_eq!(Proxy::from_str("ftp://10.0.0.1:21").unwrap_err(), ProxyParseError::UnsupportedProtocol);
    assert_eq!(Proxy::from_str("not a proxy").unwrap_err(), ProxyParseError::InvalidUrl);
    assert_eq!(Proxy::from_str("").unwrap_err(), ProxyParseError::InvalidUrl);
}

#[test]
fn proxy_parse_flags_missing_port() {
    assert!(Proxy::parse("socks5://192.168.0.1").is_none());
    assert!(Proxy::parse("socks4:nohost").is_none());
    assert!(Proxy::parse("socks5://192.168.0.1:1080").unwrap().is_ok());
    assert_eq!(Proxy::parse("gopher://x:70").unwrap().unwrap_err(), ProxyParseError::UnsupportedProtocol);
}

#[test]
fn proxy_from_url_parts_directly() {
    let parts = UrlParts { scheme: "socks4".to_string(), host: Some("h".to_string()), port: Some(1) };
    let p = Proxy::from_url_parts(Some(parts)).unwrap();
    assert_eq!((p.protocol, p.host.as_str(), p.port), (ProxyProtocol::Socks4, "h", 1));
    let parts = UrlParts { scheme: "file".to_string(), host: None, port: None };
    assert_eq!(Proxy::from_url_parts(Some(parts)).unwrap_err(), ProxyParseError::UnsupportedProtocol);
    assert_eq!(Proxy::from_url_parts(None).unwrap_err(), ProxyParseError::InvalidUrl);
}

#[test]
fn proxy_to_string() {
    let p = Proxy { protocol: ProxyProtocol::Socks5, host: "10.0.0.1".to_string(), port: 1080 };
    assert_eq!(p.to_string(), "socks5://10.0.0.1:1080");
    let p = Proxy { protocol: ProxyProtocol::Http, host: "h".to_string(), port: 0 };
    assert_eq!(p.to_string(), "http://h:0");
    let p = Proxy { protocol: ProxyProtocol::Https, host: "h".to_string(), port: 65535 };
    assert_eq!(p.to_string(), "https://h:65535");
}

#[test]
fn proxy_text_round_trip() {
    for text in ["http://10.0.1.0:8080", "socks4://192.168.1.1:9000", "socks5://1.2.3.4:1", "https://10.0.0.1:8000"].iter() {
        let p = Proxy::from_str(text).unwrap();
        assert_eq!(p.to_string(), text.to_string());
    }
}

#[test]
fn manager_from_list_file() {
    let contents = "socks5://192.168.0.1:8080\nsocks4://192.168.1.1:9000\nbogus line\nftp://1.1.1.1:21\nhttps://10.0.0.1:8000\r\nhttp://10.0.1.0:8080\n\n\n";
    let m = ProxyManager::from_contents(contents).unwrap();
    let texts: Vec<String> = m.proxies().iter().map(|p| p.to_string()).collect();
    assert_eq!(
        texts,
        vec![
            "socks5://192.168.0.1:8080".to_string(),
            "socks4://192.168.1.1:9000".to_string(),
            "https://10.0.0.1:8000".to_string(),
            "http://10.0.1.0:8080".to_string(),
        ]
    );
}

#[test]
fn manager_final_newline_changes_nothing() {
    let a = ProxyManager::from_contents("http://a:1\nhttp://b:2").unwrap();
    let b = ProxyManager::from_contents("http://a:1\nhttp://b:2\n").unwrap();
    let ta: Vec<String> = a.proxies().iter().map(|p| p.to_string()).collect();
    let tb: Vec<String> = b.proxies().iter().map(|p| p.to_string()).collect();
    assert_eq!(ta, tb);
}

#[test]
fn manager_empty_list() {
    let m = ProxyManager::from_contents("").unwrap();
    assert!(m.proxies().is_empty());
    let m = ProxyManager::from_contents("\n\n").unwrap();
    assert!(m.proxies().is_empty());
}

#[test]
fn manager_refuses_proxy_without_port() {
    assert!(ProxyManager::from_contents("http://a:1\nsocks5://10.0.0.1\n").is_none());
}

#[test]
fn manager_rotates_round_robin() {
    let m = ProxyManager::from_contents("http://a:1\nhttp://b:2\nhttp://c:3").unwrap();
    let got: Vec<String> = (0..7).map(|_| m.next().host).collect();
    assert_eq!(got, vec!["a", "b", "c", "a", "b", "c", "a"]);
}

#[test]
fn manager_tickets() {
    let m = ProxyManager::from_contents("http://a:1\nhttp://b:2\nhttp://c:3").unwrap();
    assert_eq!(m.proxy_for_ticket(0).host, "a");
    assert_eq!(m.proxy_for_ticket(4).host, "b");
    assert_eq!(m.proxy_for_ticket(3 + 3).host, m.proxy_for_ticket(3).host);
    assert_eq!(m.proxy_for_ticket(usize::MAX).host, ["a", "b", "c"][usize::MAX % 3]);
}

#[test]
fn manager_clone_keeps_proxies_and_turn() {
    let m = ProxyManager::from_contents("http://a:1\nhttp://b:2").unwrap();
    assert_eq!(m.next().host, "a");
    let c = m.clone();
    assert_eq!(c.proxies().len(), 2);
    assert_eq!(c.next().host, "b");
    assert_eq!(m.next().host, "b");
}

#[test]
fn parameters_override_config() {
    let mut c = sample_config();
    let mut a = no_parameters();
    a.ipaddress = "0.0.0.0".to_string();
    a.lport = 9090;
    a.proxies = "other.txt".to_string();
    a.rotate_every = 3;
    a.output = OutputMode::Trace;
    a.no_banner = true;
    let back = c.get_command_line_parameters(a);
    assert!(back.no_banner);
    assert_eq!(back.lport, 9090);
    assert_eq!(c.server.listen_addr, "0.0.0.0");
    assert_eq!(c.server.listen_port, 9090);
    assert_eq!(c.server.rotate_every_requests, 3);
    assert_eq!(c.proxies.source_file, "other.txt");
    assert_eq!(c.logging.level, "trace");
    assert_eq!(c.proxies.live_output_file, "live.txt");
}

#[test]
fn empty_parameters_change_nothing() {
    let mut c = sample_config();
    c.get_command_line_parameters(no_parameters());
    assert_eq!(c.server.listen_addr, "127.0.0.1");
    assert_eq!(c.server.listen_port, 8080);
    assert_eq!(c.server.rotate_every_requests, 5);
    assert_eq!(c.proxies.source_file, "proxies.txt");
    assert_eq!(c.logging.level, "info");
}

#[test]
fn parameters_applied_twice() {
    let mut once = sample_config();
    let mut twice = sample_config();
    let mut a = no_parameters();
    a.output = OutputMode::Warn;
    a.lport = 1;
    let a = once.get_command_line_parameters(a);
    let a = twice.get_command_line_parameters(a);
    twice.get_command_line_parameters(a);
    assert_eq!(format!("{:?}", once), format!("{:?}", twice));
}

#[test]
fn output_modes_set_levels() {
    for (mode, level) in [
        (OutputMode::Debug, "debug"),
        (OutputMode::Error, "error"),
        (OutputMode::Info, "info"),
        (OutputMode::Trace, "trace"),
        (OutputMode::Warn, "warn"),
    ]
    .iter()
    {
        let mut c = sample_config();
        let mut a = no_parameters();
        a.output = *mode;
        c.get_command_line_parameters(a);
        assert_eq!(c.logging.level, *level);
    }
}

#[test]
fn setters() {
    let mut c = sample_config();
    c.server.set_listen_addr("1.1.1.1".to_string());
    c.server.set_listen_port(1);
    c.server.set_rotate_every_requests(2);
    c.logging.set_level("warn".to_string());
    c.proxies.set_source_file("s".to_string());
    c.proxies.set_validate_on_startup(false);
    assert_eq!((c.server.listen_addr.as_str(), c.server.listen_port, c.server.rotate_every_requests), ("1.1.1.1", 1, 2));
    assert_eq!(c.logging.level, "warn");
    assert_eq!(c.proxies.source_file, "s");
    assert!(!c.proxies.validate_on_startup);
    let other = sample_config();
    c.set_server(other.server.clone());
    c.set_logging(other.logging.clone());
    c.set_proxies(other.proxies.clone());
    assert_eq!(format!("{:?}", c), format!("{:?}", other));
}

#[test]
fn empty_proxy_list_is_refused() {
    match check_proxy_list("list.txt", "") {
        Err(ProssimoError::ConfigInvalid(m)) => assert_eq!(m, "the proxy list: list.txt can not be empty."),
        other => panic!("unexpected {:?}", other),
    }
    assert_eq!(check_proxy_list("l", "http://a:1").unwrap(), 1);
    assert_eq!(check_proxy_list("l", "http://a:1\nhttp://b:2\n").unwrap(), 2);
}

#[test]
fn liveness_of_answers() {
    assert!(is_live("http://10.0.0.1:8080", "10.0.0.1\n"));
    assert!(!is_live("http://10.0.0.1:8080", "10.0.0.2"));
    assert!(is_live("http://10.0.0.1:8080", "  \n"));
}

#[test]
fn tally_records_checks() {
    let mut t = ValidationTally::new();
    assert!(t.record("http://10.0.0.1:8080", &CheckOutcome::Answered(" 10.0.0.1 ".to_string())));
    assert!(!t.record("http://10.0.0.2:8080", &CheckOutcome::Answered("192.0.2.7".to_string())));
    assert!(!t.record("http://10.0.0.3:8080", &CheckOutcome::NoAnswer));
    assert!(t.record("http://10.0.0.4:8080", &CheckOutcome::Answered("10.0.0.4".to_string())));
    assert_eq!(t.valid_count, 3);
    assert_eq!(t.invalid_count, 1);
    assert_eq!(t.live, vec!["http://10.0.0.1:8080".to_string(), "http://10.0.0.4:8080".to_string()]);
    assert_eq!(t.live_file_contents(), "http://10.0.0.1:8080\nhttp://10.0.0.4:8080");
}

#[test]
fn io_error_converts() {
    let e: ProssimoError = std::io::Error::new(std::io::ErrorKind::NotFound, "x").into();
    assert!(matches!(e, ProssimoError::Io(_)));
    let e: ProssimoError = anyhow::Error::msg("boom").into();
    assert!(matches!(e, ProssimoError::Other { .. }));
}

#[test]
fn rotation_after_every_n_requests() {
    let m = ProxyManager::from_contents("http://a:1\nhttp://b:2\nhttp://c:3").unwrap();
    let got: Vec<String> = (0..8).map(|_| m.next_rotating(2).host).collect();
    assert_eq!(got, vec!["a", "a", "b", "b", "c", "c", "a", "a"]);
}

#[test]
fn rotation_for_request_numbers() {
    let m = ProxyManager::from_contents("http://a:1\nhttp://b:2").unwrap();
    assert_eq!(m.proxy_for_request(0, 3).host, "a");
    assert_eq!(m.proxy_for_request(2, 3).host, "a");
    assert_eq!(m.proxy_for_request(3, 3).host, "b");
    assert_eq!(m.proxy_for_request(5, 3).host, "b");
    assert_eq!(m.proxy_for_request(6, 3).host, "a");
    for t in 0..10usize {
        assert_eq!(m.proxy_for_request(t, 1).host, m.proxy_for_ticket(t).host);
        assert_eq!(m.proxy_for_request(t, 0).host, m.proxy_for_ticket(t).host);
    }
}

#[test]
fn whitespace_matches_std() {
    for u in 0u32..0x3100 {
        if let Some(c) = char::from_u32(u) {
            assert_eq!(prossimo::text::is_whitespace(c), c.is_whitespace(), "{:x}", u);
        }
    }
    for c in ['\u{feff}', '\u{10ffff}', '\u{e000}'].iter() {
        assert_eq!(prossimo::text::is_whitespace(*c), c.is_whitespace());
    }
    assert_eq!(trim("1.2.3.4\n"), "1.2.3.4");
}

#[test]
fn alternate_config_file_named() {
    let mut a = no_parameters();
    assert!(a.alternate_config_file().is_none());
    a.config = "other.yaml".to_string();
    assert_eq!(a.alternate_config_file().unwrap(), "other.yaml");
}
