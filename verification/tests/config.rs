use icap_respmod::listen::{
    IpAddress, ListenConfigError, SockAddr, TcpKeepAliveConfig, TcpListenConfig,
};

fn addr(port: u16) -> SockAddr {
    SockAddr { ip: IpAddress::V4(0x7f000001), port }
}

#[test]
fn default_listen_config_has_no_port() {
    let c = TcpListenConfig::default();
    assert_eq!(c.address().port, 0);
    assert_eq!(c.backlog(), 4096);
    assert_eq!(c.instance(), 1);
    assert_eq!(c.check(), Err(ListenConfigError::NoListenPort));
}

#[test]
fn check_accepts_a_set_port() {
    let mut c = TcpListenConfig::new(addr(0));
    assert!(c.check().is_err());
    c.set_port(8443);
    assert_eq!(c.address().port, 8443);
    assert!(c.check().is_ok());
}

#[test]
fn backlog_below_minimum_is_ignored() {
    let mut c = TcpListenConfig::new(addr(443));
    c.set_backlog(7);
    assert_eq!(c.backlog(), 4096);
    c.set_backlog(8);
    assert_eq!(c.backlog(), 8);
    c.set_backlog(1024);
    assert_eq!(c.backlog(), 1024);
}

#[test]
fn instance_is_the_larger_of_count_and_scale() {
    let mut c = TcpListenConfig::new(addr(443));
    c.set_instance(0);
    assert_eq!(c.instance(), 1);
    c.set_instance(3);
    assert_eq!(c.instance(), 3);
    c.set_scale(8);
    assert_eq!(c.instance(), 8);
    c.set_instance(12);
    assert_eq!(c.instance(), 12);
}

#[test]
fn fraction_scale_divides_parallelism() {
    let mut c = TcpListenConfig::new(addr(443));
    c.set_fraction_scale(3, 4, 16);
    assert_eq!(c.instance(), 12);
    c.set_fraction_scale(1, 3, 8);
    assert_eq!(c.instance(), 2);
}

#[test]
fn socket_options_round_trip() {
    let mut c = TcpListenConfig::new(addr(443));
    assert!(c.is_ipv6only().is_none());
    c.set_ipv6_only(true);
    assert_eq!(c.is_ipv6only(), Some(true));
    assert!(!c.transparent());
    c.set_transparent();
    assert!(c.transparent());
    assert!(c.mark().is_none());
    c.set_mark(7);
    assert_eq!(c.mark(), Some(7));
    assert!(!c.follow_cpu_affinity());
    c.set_follow_cpu_affinity(true);
    assert!(c.follow_cpu_affinity());
    let ka = TcpKeepAliveConfig { idle_time_secs: 60, probe_interval_secs: 10, probe_count: 3 };
    c.set_keepalive(ka);
    assert_eq!(c.keepalive(), Some(&ka));
    c.set_socket_address(addr(80));
    assert_eq!(c.address(), addr(80));
}
