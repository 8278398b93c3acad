use pwatch::cli::shows_banner;
use pwatch::config::Config;
use pwatch::display::{
    banner, port_listing, PortListing, check_result_lines, kill_result_notice, no_ports_notice, port_table_header,
    port_table_row, port_unused_text, rainbow_lines, rainbow_tone, Span, Tone,
};
use pwatch::i18n::Lang;
use pwatch::port::PortInfo;

fn text(spans: &[Span]) -> String {
    spans.iter().map(|s| s.text.as_str()).collect()
}

fn info() -> PortInfo {
    PortInfo {
        port: 3000,
        protocol: "tcp".to_string(),
        pid: 4242,
        process_name: "node".to_string(),
        command: "node server.js".to_string(),
    }
}

#[test]
fn table_header_and_row() {
    let h = port_table_header();
    assert_eq!(
        h.iter().map(|s| s.text.as_str()).collect::<Vec<_>>(),
        vec!["PORT", "PROTO", "PID", "PROCESS", "COMMAND"]
    );
    assert_eq!(h[0].tone, Tone::CyanBold);
    assert_eq!(h[4].tone, Tone::WhiteBold);
    let r = port_table_row(&info());
    assert_eq!(
        r.iter().map(|s| s.text.as_str()).collect::<Vec<_>>(),
        vec!["3000", "tcp", "4242", "node", "node server.js"]
    );
    assert_eq!(r[2].tone, Tone::Yellow);
    assert_eq!(r[4].tone, Tone::Plain);
}

#[test]
fn no_ports() {
    assert_eq!(no_ports_notice(Lang::En).text, "No listening ports found");
    assert_eq!(no_ports_notice(Lang::Ja).text, "リスニング中のポートが見つかりません");
    assert_eq!(no_ports_notice(Lang::En).tone, Tone::Yellow);
}

#[test]
fn check_used_port() {
    let i = info();
    let ls = check_result_lines(3000, Some(&i), Lang::En);
    assert_eq!(ls.len(), 2);
    assert_eq!(text(&ls[0]), "Port 3000 is used by node (PID: 4242)");
    assert_eq!(ls[0][1].tone, Tone::RedBold);
    assert_eq!(text(&ls[1]), "  Command: node server.js");
    let ls = check_result_lines(3000, Some(&i), Lang::Ja);
    assert_eq!(text(&ls[0]), "ポート 3000 は node (PID: 4242) が使用中");
    assert_eq!(text(&ls[1]), "  コマンド: node server.js");
}

#[test]
fn check_free_port() {
    let ls = check_result_lines(8081, None, Lang::En);
    assert_eq!(ls.len(), 1);
    assert_eq!(text(&ls[0]), "Port 8081 is free");
    assert_eq!(ls[0][3].tone, Tone::Green);
    let ls = check_result_lines(0, None, Lang::Ja);
    assert_eq!(text(&ls[0]), "ポート 0 は未使用");
}

#[test]
fn kill_notices() {
    let i = info();
    let n = kill_result_notice(3000, &i, &Ok(()), false, Lang::En);
    assert!(!n.to_stderr);
    assert_eq!(text(&n.spans), "✓ Sent SIGTERM to process node (PID: 4242) on port 3000");
    let n = kill_result_notice(3000, &i, &Ok(()), true, Lang::Ja);
    assert_eq!(text(&n.spans), "✓ ポート 3000 のプロセス node (PID: 4242) に SIGKILL を送信しました");
    let n = kill_result_notice(3000, &i, &Err("permission denied".to_string()), true, Lang::En);
    assert!(n.to_stderr);
    assert_eq!(text(&n.spans), "✗ permission denied");
    assert_eq!(n.spans[0].tone, Tone::Red);
}

#[test]
fn unused_port_text() {
    assert_eq!(port_unused_text(9, Lang::En), "Port 9 is not in use");
    assert_eq!(port_unused_text(65535, Lang::Ja), "ポート 65535 は未使用です");
}

#[test]
fn rainbow_cycles_six_colors() {
    assert_eq!(rainbow_tone(0), Tone::Red);
    assert_eq!(rainbow_tone(5), Tone::Magenta);
    assert_eq!(rainbow_tone(6), Tone::Red);
    assert_eq!(rainbow_tone(9), Tone::Cyan);
    let ls = rainbow_lines("ab\ncdefghi\n");
    assert_eq!(ls.len(), 2);
    assert_eq!(ls[1].len(), 7);
    assert_eq!(ls[1][6].text, "i");
    assert_eq!(ls[1][6].tone, Tone::Red);
    assert_eq!(ls[0][1].tone, Tone::Yellow);
}

#[test]
fn banner_is_a_figure() {
    let b = banner().expect("the standard font renders");
    assert!(b.len() > 1);
    let flat: String = b.iter().map(|l| text(l)).collect::<Vec<_>>().join("\n");
    assert_ne!(flat, "pwatch");
    assert!(b.iter().any(|l| l.len() > "pwatch".len()));
}

#[test]
fn banner_shown_only_without_json() {
    let on = Config { show_banner: true, language: Lang::En };
    let off = Config { show_banner: false, language: Lang::En };
    assert!(shows_banner(&on, false));
    assert!(!shows_banner(&on, true));
    assert!(!shows_banner(&off, false));
}

#[test]
fn listing_empty_or_table() {
    match port_listing(&vec![], Lang::Ja) {
        PortListing::NoPorts(s) => {
            assert_eq!(s.text, "リスニング中のポートが見つかりません");
            assert_eq!(s.tone, Tone::Yellow);
        }
        PortListing::Table { .. } => panic!("expected the notice"),
    }
    match port_listing(&vec![info(), info()], Lang::En) {
        PortListing::Table { header, rows } => {
            assert_eq!(header.len(), 5);
            assert_eq!(rows.len(), 2);
            assert_eq!(text(&rows[1]), "3000tcp4242nodenode server.js");
        }
        PortListing::NoPorts(_) => panic!("expected a table"),
    }
}
