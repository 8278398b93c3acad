use pwatch::platform::macos::{parse_lsof_line, MacosScanner};
use pwatch::port::{lookup, sort_by_port, PortInfo};
use std::collections::HashMap;

fn info(port: u16, pid: u32, name: &str) -> PortInfo {
    PortInfo {
        port,
        protocol: "tcp".to_string(),
        pid,
        process_name: name.to_string(),
        command: String::new(),
    }
}

#[test]
fn lsof_line_with_port_last() {
    let r = parse_lsof_line("node      12345 alice   23u  IPv4 0x1234abcd      0t0  TCP *:3000");
    assert_eq!(r, Some((12345, "node".to_string(), 3000)));
}

#[test]
fn lsof_line_ipv6_and_tabs() {
    let r = parse_lsof_line("python3\t77 bob 4u IPv6 0xdead 0t0 TCP [::1]:8080");
    assert_eq!(r, Some((77, "python3".to_string(), 8080)));
}

#[test]
fn lsof_line_with_state_suffix_is_skipped() {
    // The last field is "(LISTEN)", which holds no port number.
    let r = parse_lsof_line("node 1 a 23u IPv4 0x1 0t0 TCP *:3000 (LISTEN)");
    assert_eq!(r, None);
}

#[test]
fn lsof_line_too_short_or_bad() {
    assert_eq!(parse_lsof_line("COMMAND PID USER FD TYPE DEVICE SIZE/OFF NODE"), None);
    assert_eq!(parse_lsof_line("COMMAND PID USER FD TYPE DEVICE SIZE/OFF NODE NAME"), None);
    assert_eq!(parse_lsof_line("node x a 23u IPv4 0x1 0t0 TCP *:3000"), None);
    assert_eq!(parse_lsof_line("node 1 a 23u IPv4 0x1 0t0 TCP *:70000"), None);
    assert_eq!(parse_lsof_line("node 4294967296 a 23u IPv4 0x1 0t0 TCP *:80"), None);
    assert_eq!(parse_lsof_line(""), None);
}

#[test]
fn lsof_line_number_forms() {
    assert_eq!(
        parse_lsof_line("a +4294967295 u f t d s n 127.0.0.1:+080"),
        Some((4294967295, "a".to_string(), 80))
    );
    assert_eq!(parse_lsof_line("a -1 u f t d s n x:80"), None);
    assert_eq!(parse_lsof_line("a 1 u f t d s n x:"), None);
    assert_eq!(parse_lsof_line("a 1 u f t d s n 65535"), Some((1, "a".to_string(), 65535)));
}

#[test]
fn listing_skips_header_and_bad_lines() {
    let out = "COMMAND PID USER FD TYPE DEVICE SIZE/OFF NODE NAME\n\
               node 10 a 1u IPv4 0x1 0t0 TCP *:5173\r\n\
               garbage\n\
               redis 20 a 2u IPv4 0x2 0t0 TCP 127.0.0.1:6379\n";
    let r = MacosScanner::listening_entries(out);
    assert_eq!(
        r,
        vec![(10, "node".to_string(), 5173), (20, "redis".to_string(), 6379)]
    );
    assert_eq!(MacosScanner::listening_entries(""), vec![]);
    assert_eq!(MacosScanner::listening_entries("node 10 a 1u IPv4 0x1 0t0 TCP *:5173"), vec![]);
}

#[test]
fn pids_and_argument() {
    let entries = vec![(3, "a".to_string(), 1), (22, "b".to_string(), 2), (333, "c".to_string(), 3)];
    let pids = MacosScanner::pids(&entries);
    assert_eq!(pids, vec![3, 22, 333]);
    assert_eq!(MacosScanner::pid_argument(&pids), "3,22,333");
    assert_eq!(MacosScanner::pid_argument(&vec![]), "");
    assert_eq!(MacosScanner::pid_argument(&vec![0]), "0");
}

#[test]
fn ps_listing_later_line_wins() {
    let out = "  123 /usr/local/bin/node  server.js\n\
               456 python3 -m http.server\n\
               nospace\n\
               abc def\n\
               123 node again\n";
    let m = MacosScanner::parse_ps_output(out);
    assert_eq!(m.len(), 2);
    assert_eq!(m.get(&123).unwrap(), "node again");
    assert_eq!(m.get(&456).unwrap(), "python3 -m http.server");
}

#[test]
fn ps_listing_keeps_inner_spacing() {
    let m = MacosScanner::parse_ps_output("7    a  b ");
    assert_eq!(m.get(&7).unwrap(), "a  b ");
}

#[test]
fn assemble_sorts_stably_and_fills_commands() {
    let entries = vec![
        (5, "e".to_string(), 8080),
        (1, "a".to_string(), 22),
        (6, "f".to_string(), 8080),
        (2, "b".to_string(), 80),
    ];
    let mut cmds = HashMap::new();
    cmds.insert(1u32, "sshd -D".to_string());
    cmds.insert(6u32, "java -jar app.jar".to_string());
    let r = MacosScanner::assemble(entries, &cmds);
    let ports: Vec<(u16, u32)> = r.iter().map(|p| (p.port, p.pid)).collect();
    assert_eq!(ports, vec![(22, 1), (80, 2), (8080, 5), (8080, 6)]);
    assert!(r.iter().all(|p| p.protocol == "tcp"));
    assert_eq!(r[0].command, "sshd -D");
    assert_eq!(r[1].command, "");
    assert_eq!(r[3].command, "java -jar app.jar");
    assert_eq!(r[2].process_name, "e");
}

#[test]
fn sort_by_port_is_stable() {
    let v = vec![info(9, 1, "x"), info(3, 2, "y"), info(9, 3, "z"), info(3, 4, "w"), info(1, 5, "v")];
    let r = sort_by_port(v);
    let got: Vec<(u16, u32)> = r.iter().map(|p| (p.port, p.pid)).collect();
    assert_eq!(got, vec![(1, 5), (3, 2), (3, 4), (9, 1), (9, 3)]);
    assert!(sort_by_port(vec![]).is_empty());
}

#[test]
fn lookup_finds_first_on_port() {
    let v = vec![info(80, 1, "a"), info(443, 2, "b"), info(443, 3, "c")];
    assert_eq!(lookup(&v, 443).unwrap().pid, 2);
    assert!(lookup(&v, 22).is_none());
}
