use socket_access_verifier::addr::{Ipv4Address, SocketAddressV4};
use socket_access_verifier::config::{Config, ConfigError, RawConfig};
use socket_access_verifier::net::sort_addrs;
use socket_access_verifier::parse::parse_socket_addr;

fn addr(o0: u8, o1: u8, o2: u8, o3: u8) -> Ipv4Address {
    Ipv4Address::new(o0, o1, o2, o3)
}

fn sock(o0: u8, o1: u8, o2: u8, o3: u8, port: u16) -> SocketAddressV4 {
    SocketAddressV4::new(addr(o0, o1, o2, o3), port)
}

fn raw(
    port: Option<i64>,
    self_addr: Option<SocketAddressV4>,
    near: Option<Vec<Option<SocketAddressV4>>>,
) -> RawConfig {
    RawConfig { port_listen: port, self_node_addr: self_addr, near_node_addrs: near }
}

#[test]
fn test_sort() {
    let mut v = vec![addr(191, 168, 0, 3), addr(192, 168, 0, 2), addr(192, 168, 0, 1)];
    sort_addrs(&mut v);
    assert_eq!(v, vec![addr(191, 168, 0, 3), addr(192, 168, 0, 1), addr(192, 168, 0, 2)]);
}

#[test]
fn sort_keeps_duplicates() {
    let mut v = vec![addr(9, 9, 9, 9), addr(1, 2, 3, 4), addr(9, 9, 9, 9)];
    sort_addrs(&mut v);
    assert_eq!(v, vec![addr(1, 2, 3, 4), addr(9, 9, 9, 9), addr(9, 9, 9, 9)]);
}

#[test]
fn sort_empty_is_empty() {
    let mut v: Vec<Ipv4Address> = vec![];
    sort_addrs(&mut v);
    assert!(v.is_empty());
}

#[test]
fn local_addresses_are_recognized() {
    assert!(addr(127, 0, 0, 1).is_local());
    assert!(addr(127, 255, 0, 9).is_local());
    assert!(addr(10, 0, 0, 1).is_local());
    assert!(addr(172, 16, 0, 1).is_local());
    assert!(addr(172, 31, 255, 255).is_local());
    assert!(addr(192, 168, 1, 1).is_local());
    assert!(addr(169, 254, 0, 1).is_local());
}

#[test]
fn public_addresses_are_not_local() {
    assert!(!addr(8, 8, 8, 8).is_local());
    assert!(!addr(172, 15, 0, 1).is_local());
    assert!(!addr(172, 32, 0, 1).is_local());
    assert!(!addr(192, 0, 2, 1).is_local());
    assert!(!addr(169, 253, 0, 1).is_local());
    assert!(!addr(11, 0, 0, 0).is_local());
}

#[test]
fn address_text_renders_dotted_decimal() {
    assert_eq!(addr(192, 0, 2, 1).to_text(), "192.0.2.1");
    assert_eq!(addr(0, 0, 0, 0).to_text(), "0.0.0.0");
    assert_eq!(addr(255, 255, 255, 255).to_text(), "255.255.255.255");
    assert_eq!(sock(192, 0, 2, 1, 23).to_text(), "192.0.2.1:23");
    assert_eq!(sock(127, 0, 0, 1, 65535).to_text(), "127.0.0.1:65535");
    assert_eq!(sock(1, 2, 3, 4, 0).to_text(), "1.2.3.4:0");
}

#[test]
fn parse_reads_back_rendered_endpoints() {
    assert_eq!(parse_socket_addr("192.0.2.1:23"), Some(sock(192, 0, 2, 1, 23)));
    assert_eq!(parse_socket_addr("0.0.0.0:0"), Some(sock(0, 0, 0, 0, 0)));
    assert_eq!(
        parse_socket_addr("255.255.255.255:65535"),
        Some(sock(255, 255, 255, 255, 65535))
    );
    let endpoints = [sock(10, 0, 0, 1, 8080), sock(203, 0, 113, 5, 1), sock(1, 2, 3, 4, 65000)];
    for e in endpoints {
        assert_eq!(parse_socket_addr(&e.to_text()), Some(e));
    }
}

#[test]
fn parse_rejects_malformed_text() {
    assert_eq!(parse_socket_addr(""), None);
    assert_eq!(parse_socket_addr("192.0.2.1"), None);
    assert_eq!(parse_socket_addr("192.0.2.1:"), None);
    assert_eq!(parse_socket_addr(":80"), None);
    assert_eq!(parse_socket_addr("256.0.0.1:80"), None);
    assert_eq!(parse_socket_addr("01.2.3.4:80"), None);
    assert_eq!(parse_socket_addr("1.2.3.4:65536"), None);
    assert_eq!(parse_socket_addr("1.2.3.4:070"), None);
    assert_eq!(parse_socket_addr("1.2.3:80"), None);
    assert_eq!(parse_socket_addr("1.2.3.4.5:80"), None);
    assert_eq!(parse_socket_addr("a.b.c.d:e"), None);
    assert_eq!(parse_socket_addr("1.2.3.4:80x"), None);
    assert_eq!(parse_socket_addr(" 1.2.3.4:80"), None);
    assert_eq!(parse_socket_addr("1.2.3.4:80 "), None);
    assert_eq!(parse_socket_addr("1,2,3,4:80"), None);
}

#[test]
fn it_works() {
    let self_addr = sock(192, 0, 2, 1, 23);
    let config = Config::from_raw(&raw(Some(23), Some(self_addr), Some(vec![])))
        .expect("complete raw values must yield a config");
    assert_eq!(config.self_node_addr, self_addr);
    assert!(config.validate().is_ok());
}

#[test]
fn from_raw_fills_all_fields() {
    let near = vec![Some(sock(198, 51, 100, 7, 9000)), Some(sock(203, 0, 113, 5, 9001))];
    let config = Config::from_raw(&raw(Some(8080), Some(sock(198, 51, 100, 1, 8080)), Some(near)))
        .expect("complete raw values must yield a config");
    assert_eq!(config.port_listen, 8080);
    assert_eq!(config.self_node_addr, sock(198, 51, 100, 1, 8080));
    assert_eq!(
        config.near_node_addrs,
        vec![sock(198, 51, 100, 7, 9000), sock(203, 0, 113, 5, 9001)]
    );
}

#[test]
fn from_raw_reports_missing_port() {
    let r = Config::from_raw(&raw(None, Some(sock(192, 0, 2, 1, 23)), Some(vec![])));
    assert_eq!(r, Err(ConfigError::PortMissing));
}

#[test]
fn from_raw_reports_missing_self_addr() {
    let r = Config::from_raw(&raw(Some(23), None, Some(vec![])));
    assert_eq!(r, Err(ConfigError::SelfAddrMissing));
}

#[test]
fn from_raw_reports_missing_near_list() {
    let r = Config::from_raw(&raw(Some(23), Some(sock(192, 0, 2, 1, 23)), None));
    assert_eq!(r, Err(ConfigError::NearAddrsMissing));
}

#[test]
fn from_raw_reports_bad_near_entry() {
    let near = vec![Some(sock(198, 51, 100, 7, 9000)), None];
    let r = Config::from_raw(&raw(Some(23), Some(sock(192, 0, 2, 1, 23)), Some(near)));
    assert_eq!(r, Err(ConfigError::NearAddrInvalid));
}

#[test]
fn from_raw_truncates_wide_port() {
    let config = Config::from_raw(&raw(Some(70000), Some(sock(192, 0, 2, 1, 23)), Some(vec![])))
        .expect("complete raw values must yield a config");
    assert_eq!(config.port_listen, 4464);
}

#[test]
fn validate_rejects_local_self_addr() {
    let config = Config::from_raw(&raw(Some(23), Some(sock(127, 0, 0, 1, 23)), Some(vec![])))
        .expect("complete raw values must yield a config");
    assert_eq!(config.validate(), Err(ConfigError::SelfAddrLocal));
}

#[test]
fn validate_accepts_public_self_addr() {
    let config = Config::from_raw(&raw(Some(23), Some(sock(203, 0, 113, 5, 23)), Some(vec![])))
        .expect("complete raw values must yield a config");
    assert_eq!(config.validate(), Ok(()));
}
