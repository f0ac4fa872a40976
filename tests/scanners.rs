use kttools::color::parse_hex_color;
use kttools::image::{ImageInfo, OriginalImageResult, OutputFormat, ProcessResult};
use kttools::macos::{extract_addresses, extract_port, MacOSScanner, ParseState};
use kttools::scan::{
    get_platform_scanner, get_port_list, kill_outcome, kill_process, Platform, Scanner,
};
use kttools::types::{
    dedup_ports, fill_sentinels, Enhance, PortError, PortInfo, PortScanner, SystemAccess,
};
use kttools::windows::{netstat_record, parse_netstat_output, parse_port_from_addr};

fn record(port: u16, protocol: &str, pid: u32, name: &str, user: &str, status: &str) -> PortInfo {
    PortInfo {
        port,
        protocol: protocol.to_string(),
        pid,
        process_name: name.to_string(),
        status: status.to_string(),
        process_name_unknown: false,
        local_addr: String::new(),
        remote_addr: String::new(),
        user: user.to_string(),
    }
}

#[test]
fn macos_accumulator_sequence() {
    let out = "p123\ncchrome\nuuser1\nf5\nn127.0.0.1:443->93.184.216.34:80\n";
    let ports = MacOSScanner.parse_lsof_output(out, "TCP");
    assert_eq!(ports.len(), 1);
    let p = &ports[0];
    assert_eq!(p.pid, 123);
    assert_eq!(p.process_name, "chrome");
    assert_eq!(p.port, 443);
    assert_eq!(p.status, "ESTABLISHED");
    assert_eq!(p.local_addr, "127.0.0.1:443");
    assert_eq!(p.remote_addr, "93.184.216.34:80");
    assert_eq!(p.user, "user1");
    assert_eq!(p.protocol, "TCP");
}

#[test]
fn macos_several_descriptors_and_processes() {
    let out = "p10\ncnode\nf3\nn*:3000\nTST=LISTEN\nf4\nn[::1]:9229\np20\ncdns\nf7\nn*:*\nf8\nn*:5353\n";
    let tcp = MacOSScanner.parse_lsof_output(out, "TCP");
    assert_eq!(tcp.len(), 3);
    assert_eq!(tcp[0].port, 3000);
    assert_eq!(tcp[0].status, "LISTEN");
    assert_eq!(tcp[1].port, 9229);
    assert_eq!(tcp[1].status, "LISTEN");
    assert_eq!(tcp[1].pid, 10);
    assert_eq!(tcp[2].port, 5353);
    assert_eq!(tcp[2].pid, 20);
    assert_eq!(tcp[2].user, "");
    let udp = MacOSScanner.parse_lsof_output("p5\ncmdns\nf1\nn*:5353\n", "UDP");
    assert_eq!(udp.len(), 1);
    assert_eq!(udp[0].status, "*");
}

#[test]
fn macos_incomplete_record_is_not_emitted() {
    assert!(MacOSScanner.parse_lsof_output("p1\nf2\nn*:80\n", "TCP").is_empty());
    assert!(MacOSScanner.parse_lsof_output("", "TCP").is_empty());
}

#[test]
fn macos_ports_and_addresses() {
    assert_eq!(extract_port("127.0.0.1:443->1.2.3.4:80"), Some(443));
    assert_eq!(extract_port("[::1]:8080"), Some(8080));
    assert_eq!(extract_port("*:*"), None);
    assert_eq!(extract_port("localhost"), None);
    assert_eq!(extract_port("*:http"), None);
    assert_eq!(
        extract_addresses("127.0.0.1:443->1.2.3.4:80"),
        ("127.0.0.1:443".to_string(), "1.2.3.4:80".to_string())
    );
    assert_eq!(extract_addresses("*:22"), ("*:22".to_string(), String::new()));
    assert_eq!(
        extract_addresses("a->b->c"),
        ("a->b->c".to_string(), String::new())
    );
}

#[test]
fn parse_state_transitions() {
    let mut s = ParseState::new();
    assert!(!s.is_complete());
    s.pid = Some(1);
    s.process_name = Some("x".to_string());
    s.user = Some("u".to_string());
    s.fd = Some(3);
    s.address = Some("*:80".to_string());
    assert!(s.is_complete());
    let p = s.try_create_port("TCP").unwrap();
    assert_eq!(p.port, 80);
    assert_eq!(p.status, "LISTEN");
    assert!(s.fd.is_none() && s.address.is_none());
    assert_eq!(s.pid, Some(1));
    s.reset_process();
    assert!(s.pid.is_none() && s.process_name.is_none());
    assert_eq!(s.user, Some("u".to_string()));
}

#[test]
fn windows_listening_is_listen() {
    let out = "\r\nActive Connections\r\n\r\n  Proto  Local Address          Foreign Address        State           PID\r\n  TCP    0.0.0.0:135            0.0.0.0:0              LISTENING       1234\r\n  TCP    10.0.0.2:50000         1.2.3.4:443            ESTABLISHED     88\r\n";
    let ports = parse_netstat_output(out);
    assert_eq!(ports.len(), 2);
    assert_eq!(ports[0].status, "LISTEN");
    assert_eq!(ports[0].port, 135);
    assert_eq!(ports[0].pid, 1234);
    assert_eq!(ports[0].protocol, "TCP");
    assert_eq!(ports[0].local_addr, "");
    assert_eq!(ports[1].status, "ESTABLISHED");
    assert_eq!(ports[1].pid, 88);
}

#[test]
fn windows_rows_before_header_and_short_rows_skipped() {
    let out = "  TCP 0.0.0.0:1 0.0.0.0:0 LISTENING 9\n  Proto Local\n  UDP    0.0.0.0:5353           *:*                                    4321\n  ICMP a:1 b c 5\n  TCP 0.0.0.0:x 0.0.0.0:0 LISTENING 9\n";
    assert!(parse_netstat_output(out).is_empty());
}

#[test]
fn windows_protocol_is_upper_cased() {
    let out = "Proto\n  tcp6   [::]:445   [::]:0   LISTENING   4\n";
    let ports = parse_netstat_output(out);
    assert_eq!(ports.len(), 1);
    assert_eq!(ports[0].protocol, "TCP6");
    assert_eq!(ports[0].port, 445);
}

#[test]
fn windows_single_rows() {
    let p = netstat_record("  UDP  0.0.0.0:53  *:*  x  77", "UDP").unwrap();
    assert_eq!(p.status, "-");
    assert_eq!(p.pid, 0);
    assert_eq!(p.port, 53);
    let q = netstat_record("  TCP  [::]:445  [::]:0  LISTENING  4", "TCP").unwrap();
    assert_eq!(q.status, "LISTEN");
    assert_eq!(q.pid, 4);
    assert!(netstat_record("  RAW  0.0.0.0:1  *:*  x  7", "RAW").is_none());
    assert_eq!(parse_port_from_addr("[::1]:8080"), Some(8080));
    assert_eq!(parse_port_from_addr("0.0.0.0:135"), Some(135));
    assert_eq!(parse_port_from_addr("[::1]"), None);
    assert_eq!(parse_port_from_addr("*:*"), None);
}

#[test]
fn dedup_keeps_later_record() {
    let a = record(80, "tcp", 7, "old", "u", "LISTEN");
    let b = record(80, "tcp", 7, "new", "u", "ESTABLISHED");
    let out = dedup_ports(vec![a, b]);
    assert_eq!(out.len(), 1);
    assert_eq!(out[0].process_name, "new");
    assert_eq!(out[0].status, "ESTABLISHED");
}

#[test]
fn dedup_distinct_keys_kept() {
    let out = dedup_ports(vec![
        record(80, "tcp", 7, "a", "u", "LISTEN"),
        record(80, "udp", 7, "a", "u", "-"),
        record(80, "tcp", 8, "a", "u", "LISTEN"),
        record(81, "tcp", 7, "a", "u", "LISTEN"),
    ]);
    assert_eq!(out.len(), 4);
}

#[test]
fn dedup_fills_sentinels() {
    let out = dedup_ports(vec![record(22, "TCP", 0, "sshd", "", "LISTEN")]);
    assert_eq!(out[0].process_name, "unknown");
    assert!(out[0].process_name_unknown);
    assert_eq!(out[0].user, "unknown");
    let mut p = record(1, "tcp", 3, "", "", "-");
    fill_sentinels(&mut p);
    assert_eq!(p.process_name, "unknown");
    assert!(p.process_name_unknown);
    let mut q = record(1, "tcp", 3, "named", "u", "-");
    fill_sentinels(&mut q);
    assert_eq!(q.process_name, "named");
    assert!(!q.process_name_unknown);
    assert_eq!(p.user, "unknown");
}

#[test]
fn dedup_is_idempotent() {
    let input = vec![
        record(80, "tcp", 0, "", "", "LISTEN"),
        record(80, "tcp", 0, "", "", "LISTEN"),
        record(443, "tcp", 5, "web", "www", "LISTEN"),
    ];
    let once = dedup_ports(input);
    let twice = dedup_ports(once.clone());
    assert_eq!(once.len(), 2);
    assert_eq!(twice.len(), once.len());
    for (x, y) in once.iter().zip(twice.iter()) {
        assert_eq!(x.port, y.port);
        assert_eq!(x.pid, y.pid);
        assert_eq!(x.process_name, y.process_name);
        assert_eq!(x.user, y.user);
    }
    let via_trait = vec![record(1, "udp", 0, "", "", "-")].enhance().unwrap();
    assert_eq!(via_trait[0].user, "unknown");
}

#[test]
fn kill_port_not_in_list() {
    let ports = vec![record(80, "tcp", 0, "", "", "LISTEN")];
    match kill_process(81, &ports) {
        Err(PortError::ProcessNotFound(p)) => assert_eq!(p, 81),
        _ => panic!("expected ProcessNotFound"),
    }
    match kill_process(5, &[]) {
        Err(PortError::ProcessNotFound(p)) => assert_eq!(p, 5),
        _ => panic!("expected ProcessNotFound"),
    }
}

#[test]
fn kill_record_without_pid() {
    let ports = vec![record(80, "tcp", 0, "", "", "LISTEN"), record(80, "tcp", 9, "x", "", "LISTEN")];
    match kill_process(80, &ports) {
        Err(PortError::ProcessKillFailed(pid)) => assert_eq!(pid, 0),
        _ => panic!("expected ProcessKillFailed"),
    }
}

#[test]
fn kill_outcomes() {
    assert_eq!(
        kill_outcome(8080, 42, Some(true)).unwrap(),
        "Successfully killed process 42 on port 8080"
    );
    assert!(matches!(kill_outcome(8080, 42, Some(false)), Err(PortError::ProcessKillFailed(42))));
    assert!(matches!(kill_outcome(8080, 42, None), Err(PortError::ProcessKillFailed(42))));
}

#[test]
fn error_messages() {
    assert_eq!(PortError::ProcessNotFound(80).message(), "Port 80 not found");
    assert_eq!(PortError::ProcessKillFailed(12).message(), "Failed to kill process 12");
    assert_eq!(PortError::UnsupportedPlatform.message(), "Unsupported operating system");
    let e = PortError::CommandFailed { cmd: "ss".to_string(), reason: "gone".to_string() };
    assert_eq!(e.message(), "Command 'ss' failed: gone");
}

struct NoSystem;

impl SystemAccess for NoSystem {
    fn read_file(&self, _path: &str) -> Option<String> {
        None
    }

    fn run_command(&self, cmd: &str, _args: &Vec<String>) -> Result<String, PortError> {
        if cmd == "netstat" {
            Ok("Proto\n  TCP 0.0.0.0:80 0.0.0.0:0 LISTENING 7\n  TCP 0.0.0.0:80 0.0.0.0:0 LISTENING 7\n".to_string())
        } else {
            Err(PortError::CommandFailed { cmd: cmd.to_string(), reason: "missing".to_string() })
        }
    }
}

#[test]
fn platform_dispatch() {
    assert!(matches!(get_platform_scanner(Platform::Other), Err(PortError::UnsupportedPlatform)));
    assert!(matches!(get_platform_scanner(Platform::Linux), Ok(Scanner::Linux(_))));
    assert!(matches!(get_port_list(Platform::Other, &NoSystem), Err(PortError::UnsupportedPlatform)));
    let win = get_port_list(Platform::Windows, &NoSystem).unwrap();
    assert_eq!(win.len(), 1);
    assert_eq!(win[0].process_name, "unknown");
    assert_eq!(win[0].user, "unknown");
    assert!(matches!(
        get_port_list(Platform::MacOS, &NoSystem),
        Err(PortError::CommandFailed { .. })
    ));
    assert!(matches!(get_port_list(Platform::Linux, &NoSystem), Err(PortError::CommandFailed { .. })));
}

#[test]
fn hex_colors() {
    assert_eq!(parse_hex_color("#FF8000"), Ok((255, 128, 0)));
    assert_eq!(parse_hex_color("00ff7f"), Ok((0, 255, 127)));
    assert_eq!(parse_hex_color("##0a0b0c99"), Ok((10, 11, 12)));
    assert_eq!(parse_hex_color("#FFF"), Err("Invalid color format".to_string()));
    assert_eq!(parse_hex_color("#GG0000"), Err("invalid digit found in string".to_string()));
}

#[test]
fn output_formats() {
    assert_eq!(OutputFormat::Png.to_str(), "png");
    assert_eq!(OutputFormat::Jpg.to_str(), "jpg");
    assert_eq!(OutputFormat::WebP.to_str(), "webp");
    assert_eq!(OutputFormat::default(), OutputFormat::Png);
    let info = ImageInfo { path: "/a.png".to_string(), name: "a.png".to_string(), size: 3, width: 1, height: 2 };
    assert_eq!(info.clone().height, 2);
    let r = ProcessResult { data: vec![1, 2], width: 1, height: 1, original_size: 9, processed_size: 2 };
    assert_eq!(r.data.len(), r.processed_size);
    let o = OriginalImageResult { image_data: vec![], original_size: 0, width: 0, height: 0 };
    assert_eq!(o.image_data.len(), 0);
}

#[test]
fn macos_tcp_then_udp() {
    let ports = MacOSScanner.parse_lsof_pair("p1\nca\nf3\nn*:80\n", "p2\ncb\nf4\nn*:53\n");
    assert_eq!(ports.len(), 2);
    assert_eq!(ports[0].protocol, "TCP");
    assert_eq!(ports[0].status, "LISTEN");
    assert_eq!(ports[1].protocol, "UDP");
    assert_eq!(ports[1].status, "*");
}

#[test]
fn kill_vanished_process() {
    let ports = vec![record(9999, "tcp", 4_294_967_000, "gone", "u", "LISTEN")];
    match kill_process(9999, &ports) {
        Err(PortError::ProcessKillFailed(pid)) => assert_eq!(pid, 4_294_967_000),
        _ => panic!("expected ProcessKillFailed"),
    }
}

#[test]
fn enhance_keeps_later_fields_and_fills_sentinels() {
    let mut a = record(80, "tcp", 7, "old", "root", "LISTEN");
    a.local_addr = "0.0.0.0:80".to_string();
    let mut b = record(80, "tcp", 7, "nginx", "", "ESTABLISHED");
    b.local_addr = "0.0.0.0:80".to_string();
    let out = vec![a, b].enhance().unwrap();
    assert_eq!(out.len(), 1);
    assert_eq!(out[0].process_name, "nginx");
    assert_eq!(out[0].status, "ESTABLISHED");
    assert_eq!(out[0].user, "unknown");
    assert_eq!(out[0].local_addr, "0.0.0.0:80");
    assert!(!out[0].process_name_unknown);
}

struct Failing;

impl SystemAccess for Failing {
    fn read_file(&self, _path: &str) -> Option<String> {
        None
    }

    fn run_command(&self, cmd: &str, _args: &Vec<String>) -> Result<String, PortError> {
        Err(PortError::CommandFailed { cmd: cmd.to_string(), reason: "gone".to_string() })
    }
}

#[test]
fn windows_scan_passes_tool_error_back() {
    match kttools::windows::WindowsScanner.scan(&Failing) {
        Err(PortError::CommandFailed { cmd, .. }) => assert_eq!(cmd, "netstat"),
        _ => panic!("expected CommandFailed"),
    }
    match get_port_list(Platform::Linux, &Failing) {
        Err(PortError::CommandFailed { cmd, .. }) => assert_eq!(cmd, "/proc/net"),
        _ => panic!("expected CommandFailed"),
    }
}

#[test]
fn windows_scan_of_canned_output() {
    let out = "Active Connections\n  Proto  Local Address  Foreign Address  State  PID\n  TCP  0.0.0.0:135  0.0.0.0:0  LISTENING  1044\n";
    let ports = kttools::windows::netstat_result(Ok(out.to_string())).unwrap();
    assert_eq!(ports.len(), 1);
    assert_eq!(ports[0].port, 135);
    assert_eq!(ports[0].pid, 1044);
    assert_eq!(ports[0].status, "LISTEN");
    assert_eq!(ports[0].protocol, "TCP");
}
