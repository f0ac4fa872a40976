use kttools::linux::{
    enhance_ports_with_process_info, extract_name_from_process_info,
    extract_pid_from_process_info, extract_user_from_process_info, get_username_from_uid,
    hex_to_ip, parse_decimal_port, parse_hex_addr, parse_hex_port, parse_local_remote_addr,
    parse_proc_net_tcp, parse_proc_net_udp, parse_socket_tables, parse_ss_output, parse_tcp_state, passwd_lookup,
    try_ss_command, username_from, LinuxScanner, UserName,
};
use kttools::types::{PortError, PortInfo, PortScanner, SystemAccess};

const HEADER: &str = "  sl  local_address rem_address   st tx_queue rx_queue tr tm->when retrnsmt   uid  timeout inode\n";

fn users() -> Vec<UserName> {
    vec![UserName { uid: 1000, name: "alice".to_string() }]
}

fn record(port: u16, pid: u32, name: &str, user: &str) -> PortInfo {
    PortInfo {
        port,
        protocol: "tcp".to_string(),
        pid,
        process_name: name.to_string(),
        status: "LISTEN".to_string(),
        process_name_unknown: false,
        local_addr: String::new(),
        remote_addr: String::new(),
        user: user.to_string(),
    }
}

#[test]
fn hex_to_ip_ipv4_loopback() {
    assert_eq!(hex_to_ip("0100007F"), Some("127.0.0.1".to_string()));
}

#[test]
fn hex_to_ip_ipv4_any_and_lowercase() {
    assert_eq!(hex_to_ip("00000000"), Some("0.0.0.0".to_string()));
    assert_eq!(hex_to_ip("0101a8c0"), Some("192.168.1.1".to_string()));
}

#[test]
fn hex_to_ip_ipv6_loopback() {
    assert_eq!(
        hex_to_ip("00000000000000000000000001000000"),
        Some("::1".to_string())
    );
    assert_eq!(hex_to_ip("00000000000000000000000000000000"), Some("::".to_string()));
}

#[test]
fn hex_to_ip_ipv6_first_longest_zero_run() {
    assert_eq!(
        hex_to_ip("00000100010000000000000001000100"),
        Some("1::1:0:0:1:1".to_string())
    );
    assert_eq!(
        hex_to_ip("0000000000000000FFFF00000100007F"),
        Some("::ffff:127.0.0.1".to_string())
    );
}

#[test]
fn hex_to_ip_ipv6_groups() {
    assert_eq!(
        hex_to_ip("B80D01200000000000000000FFFF0000"),
        Some("2001:db8::ffff".to_string())
    );
}

#[test]
fn hex_to_ip_rejects_bad_input() {
    assert_eq!(hex_to_ip("0100007G"), None);
    assert_eq!(hex_to_ip("0100007"), None);
    assert_eq!(hex_to_ip(""), None);
    assert_eq!(hex_to_ip("01000"), None);
}

#[test]
fn hex_port_and_addr() {
    assert_eq!(parse_hex_port("0100007F:1F90"), Some(8080));
    assert_eq!(parse_hex_port("0100007F"), None);
    assert_eq!(parse_hex_port("0100007F:XYZ"), None);
    assert_eq!(parse_hex_addr("0100007F:1F90"), "127.0.0.1:8080");
    assert_eq!(parse_hex_addr("00000000:0000"), "0.0.0.0:0");
    assert_eq!(parse_hex_addr("garbage"), "garbage");
    assert_eq!(parse_hex_addr("0100007Z:0050"), "0100007Z:0050");
    let (l, r) = parse_local_remote_addr("0100007F:0050", "0100007F:D431");
    assert_eq!(l, "127.0.0.1:80");
    assert_eq!(r, "127.0.0.1:54321");
}

#[test]
fn tcp_states() {
    assert_eq!(parse_tcp_state("01"), Some("ESTABLISHED".to_string()));
    assert_eq!(parse_tcp_state("06"), Some("TIME_WAIT".to_string()));
    assert_eq!(parse_tcp_state("0A"), Some("LISTEN".to_string()));
    assert_eq!(parse_tcp_state("0C"), Some("NEW_SYN_RECV".to_string()));
    assert_eq!(parse_tcp_state("0D"), None);
    assert_eq!(parse_tcp_state("0a"), None);
}

#[test]
fn decimal_ports() {
    assert_eq!(parse_decimal_port("127.0.0.1:53"), Some(53));
    assert_eq!(parse_decimal_port("[::1]:631"), Some(631));
    assert_eq!(parse_decimal_port("[::]:22"), Some(22));
    assert_eq!(parse_decimal_port("*:*"), None);
    assert_eq!(parse_decimal_port("0.0.0.0:70000"), None);
    assert_eq!(parse_decimal_port("noport"), None);
}

#[test]
fn linux_tcp_listen_line() {
    let content = format!(
        "{}   0: 0100007F:1F90 00000000:0000 0A 00000000:00000000 00:00000000 00000000  1000        0 12345 1 0000000000000000 100 0 0 10 0\n",
        HEADER
    );
    let ports = parse_proc_net_tcp(&content, "tcp", &users());
    assert_eq!(ports.len(), 1);
    let p = &ports[0];
    assert_eq!(p.port, 8080);
    assert_eq!(p.local_addr, "127.0.0.1:8080");
    assert_eq!(p.remote_addr, "0.0.0.0:0");
    assert_eq!(p.status, "LISTEN");
    assert_eq!(p.protocol, "tcp");
    assert_eq!(p.pid, 0);
    assert_eq!(p.process_name, "");
    assert_eq!(p.user, "alice");
}

#[test]
fn linux_unknown_uid_is_decimal() {
    let content = format!(
        "{}   0: 0100007F:0016 00000000:0000 01 00000000:00000000 00:00000000 00000000  42        0 1 1 0 100 0 0 10 0\n",
        HEADER
    );
    let ports = parse_proc_net_tcp(&content, "tcp", &users());
    assert_eq!(ports.len(), 1);
    assert_eq!(ports[0].user, "42");
    assert_eq!(ports[0].status, "ESTABLISHED");
}

#[test]
fn linux_rows_without_port_are_dropped() {
    let content = format!(
        "{}   0: 0100007F 00000000:0000 0A 0:0 0:0 0 1000 0 1 1 0 100\n   1: 0100007F:ZZZZ 00000000:0000 0A 0:0 0:0 0 1000 0 1 1 0 100\n",
        HEADER
    );
    assert!(parse_proc_net_tcp(&content, "tcp", &users()).is_empty());
    assert!(parse_proc_net_udp(&content, "udp", &users()).is_empty());
}

#[test]
fn linux_unknown_state_dropped_for_tcp_only() {
    let content = format!(
        "{}   0: 0100007F:0035 00000000:0000 0D 0:0 0:0 0 1000 0 1 1 0 100\n",
        HEADER
    );
    assert!(parse_proc_net_tcp(&content, "tcp", &users()).is_empty());
    let udp = parse_proc_net_udp(&content, "udp", &users());
    assert_eq!(udp.len(), 1);
    assert_eq!(udp[0].port, 53);
    assert_eq!(udp[0].status, "-");
    assert_eq!(udp[0].protocol, "udp");
}

#[test]
fn linux_short_rows_and_header_skipped() {
    let content = "  0: 0100007F:1F90 00000000:0000 0A 0:0 0:0 0 1000 0 1 1 0 100\n  1: 0100007F:1F90 0A\n";
    assert!(parse_proc_net_tcp(content, "tcp", &users()).is_empty());
    assert!(parse_proc_net_tcp("", "tcp", &users()).is_empty());
}

#[test]
fn ss_process_info_fields() {
    let info = "users:((\"sshd\",pid=812,fd=3))";
    assert_eq!(extract_pid_from_process_info(info), Some(812));
    assert_eq!(extract_name_from_process_info(info), "sshd");
    assert_eq!(extract_user_from_process_info(info, &users()), "");
    let with_uid = "users:((\"nginx\",pid=77,fd=6)),uid=1000,ino=1";
    assert_eq!(extract_user_from_process_info(with_uid, &users()), "alice");
    assert_eq!(extract_pid_from_process_info("users:(())"), None);
    assert_eq!(extract_name_from_process_info("users:(())"), "");
}

#[test]
fn ss_output_owners() {
    let out = "Netid State  Recv-Q Send-Q Local Address:Port Peer Address:Port Process\n\
tcp   LISTEN 0      128    127.0.0.1:631      0.0.0.0:*    users:((\"cupsd\",pid=123,fd=7))\n\
udp   UNCONN 0      0      0.0.0.0:5353       0.0.0.0:*\n\
tcp   LISTEN 0      128    [::1]:8080         [::]:*       users:((\"java\",pid=900,fd=12))\n";
    let owners = parse_ss_output(out, &users());
    assert_eq!(owners.len(), 2);
    assert_eq!(owners[0].port, 631);
    assert_eq!(owners[0].pid, 123);
    assert_eq!(owners[0].name, "cupsd");
    assert_eq!(owners[0].user, "");
    assert_eq!(owners[1].port, 8080);
    assert_eq!(owners[1].pid, 900);
}

#[test]
fn ss_enrichment_fills_owner_and_unknown() {
    let out = "header\ntcp LISTEN 0 128 127.0.0.1:631 0.0.0.0:* users:((\"cupsd\",pid=123,fd=7))\n";
    let owners = parse_ss_output(out, &users());
    let mut ports = vec![record(631, 0, "", "alice"), record(22, 0, "", "root")];
    try_ss_command(&mut ports, &owners);
    assert_eq!(ports[0].pid, 123);
    assert_eq!(ports[0].process_name, "cupsd");
    assert_eq!(ports[1].pid, 0);
    enhance_ports_with_process_info(&mut ports, Some(&owners));
    assert_eq!(ports[1].process_name, "unknown");
    assert!(ports[1].process_name_unknown);
    assert!(!ports[0].process_name_unknown);
    let mut alone = vec![record(80, 0, "", "")];
    enhance_ports_with_process_info(&mut alone, None);
    assert_eq!(alone[0].process_name, "unknown");
    assert!(alone[0].process_name_unknown);
}

#[test]
fn passwd_and_user_names() {
    let passwd = "root:x:0:0:root:/root:/bin/bash\nalice:x:1000:1000::/home/alice:/bin/sh\n";
    assert_eq!(passwd_lookup(passwd, 1000), Some("alice".to_string()));
    assert_eq!(passwd_lookup(passwd, 0), Some("root".to_string()));
    assert_eq!(passwd_lookup(passwd, 5), None);
    assert_eq!(username_from(Some(" bob\n"), None, 5), "bob");
    assert_eq!(username_from(None, Some(passwd), 1000), "alice");
    assert_eq!(username_from(None, Some(passwd), 7), "7");
    assert_eq!(username_from(None, None, 42), "42");
}

struct Canned {
    tcp: Option<String>,
    ss: Option<String>,
}

impl SystemAccess for Canned {
    fn read_file(&self, path: &str) -> Option<String> {
        if path == "/proc/net/tcp" {
            self.tcp.clone()
        } else {
            None
        }
    }

    fn run_command(&self, cmd: &str, _args: &Vec<String>) -> Result<String, PortError> {
        if cmd == "ss" {
            if let Some(s) = &self.ss {
                return Ok(s.clone());
            }
        }
        Err(PortError::CommandFailed { cmd: cmd.to_string(), reason: "not here".to_string() })
    }
}

#[test]
fn linux_scanner_with_canned_system() {
    let sys = Canned {
        tcp: Some(format!(
            "{}   0: 0100007F:1F90 00000000:0000 0A 0:0 0:0 0 1000 0 1 1 0 100\n",
            HEADER
        )),
        ss: Some("h\ntcp LISTEN 0 1 127.0.0.1:8080 0.0.0.0:* users:((\"web\",pid=55,fd=3))\n".to_string()),
    };
    let ports = LinuxScanner.scan(&sys).unwrap();
    assert_eq!(ports.len(), 1);
    assert_eq!(ports[0].pid, 55);
    assert_eq!(ports[0].process_name, "web");
    assert_eq!(ports[0].user, "1000");
    assert_eq!(get_username_from_uid(&sys, 3), "3");
}

#[test]
fn linux_scanner_without_ss() {
    let sys = Canned {
        tcp: Some(format!(
            "{}   0: 0100007F:1F90 00000000:0000 0A 0:0 0:0 0 1000 0 1 1 0 100\n",
            HEADER
        )),
        ss: None,
    };
    let ports = LinuxScanner.scan(&sys).unwrap();
    assert_eq!(ports.len(), 1);
    assert_eq!(ports[0].pid, 0);
    assert_eq!(ports[0].process_name, "unknown");
    assert!(ports[0].process_name_unknown);
}

#[test]
fn socket_tables_in_order() {
    let row = |addr: &str, st: &str| format!("{}   0: {} 00000000:0000 {} 0:0 0:0 0 1000 0 1 1 0 100\n", HEADER, addr, st);
    let tcp = Some(row("0100007F:0050", "0A"));
    let udp6 = Some(row("00000000000000000000000001000000:0035", "07"));
    let ports = parse_socket_tables(&tcp, &None, &None, &udp6, &users());
    assert_eq!(ports.len(), 2);
    assert_eq!(ports[0].protocol, "tcp");
    assert_eq!(ports[0].port, 80);
    assert_eq!(ports[1].protocol, "udp6");
    assert_eq!(ports[1].port, 53);
    assert_eq!(ports[1].local_addr, "::1:53");
    assert!(parse_socket_tables(&None, &None, &None, &None, &users()).is_empty());
}
