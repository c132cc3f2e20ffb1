use ift::routes::{parse_linux_ip_cmd, parse_mac_ip_cmd};

#[test]
fn test_parse_mac() {
    let out = "\
           route to: default
destination: default
       mask: default
    gateway: 192.168.86.1
  interface: en0
      flags: <UP,GATEWAY,DONE,STATIC,PRCLONING>
 recvpipe  sendpipe  ssthresh  rtt,msec    rttvar  hopcount      mtu     expire
       0         0         0         0         0         0      1500         0";
    assert_eq!("en0", parse_mac_ip_cmd(out))
}

#[test]
fn test_parse_linux() {
    let out = "\
        default via 172.17.0.1 dev eth0
        172.17.0.0/16 dev eth0 scope link  src 172.17.0.16";
    assert_eq!("eth0", parse_linux_ip_cmd(out))
}

#[test]
fn mac_output_without_interface_line_names_nothing() {
    assert_eq!("", parse_mac_ip_cmd(""));
    assert_eq!("", parse_mac_ip_cmd("route to: default\n gateway: 10.0.0.1\n"));
    assert_eq!("", parse_mac_ip_cmd("my interface: en0"));
}

#[test]
fn mac_first_interface_line_wins_and_is_trimmed() {
    assert_eq!("en0", parse_mac_ip_cmd("interface:en0"));
    assert_eq!("en1", parse_mac_ip_cmd("x\n\t interface: \t en1 \r\ninterface: en2\n"));
    assert_eq!("", parse_mac_ip_cmd("interface:   \ninterface: en2"));
    assert_eq!("a b", parse_mac_ip_cmd("interface: a b"));
}

#[test]
fn linux_output_without_default_line_names_nothing() {
    assert_eq!("", parse_linux_ip_cmd(""));
    assert_eq!("", parse_linux_ip_cmd("172.17.0.0/16 dev eth0 scope link"));
    assert_eq!("", parse_linux_ip_cmd("default"));
    assert_eq!("", parse_linux_ip_cmd("defaults via 1.2.3.4 dev eth0"));
}

#[test]
fn linux_last_field_of_first_default_line() {
    assert_eq!("wlan0", parse_linux_ip_cmd("default via 10.0.0.1 dev wlan0 \n"));
    assert_eq!(
        "100",
        parse_linux_ip_cmd("10.0.0.0/8 dev eth1\ndefault via 10.0.0.1 dev eth0 metric 100\ndefault dev eth9")
    );
    assert_eq!("x", parse_linux_ip_cmd("default x"));
    assert_eq!("eth0\tup", parse_linux_ip_cmd("default dev eth0\tup"));
}
