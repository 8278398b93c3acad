use pwatch::i18n::Lang;
use pwatch::port::PortInfo;
use pwatch::tui::app::{App, AppMode};
use pwatch::tui::handler::{
    handle_confirm, handle_key, handle_key_event, handle_normal, handle_search, poll_timeout_ms,
    refresh_due, Effect, Key,
};

fn info(port: u16, pid: u32, name: &str, command: &str) -> PortInfo {
    PortInfo {
        port,
        protocol: "tcp".to_string(),
        pid,
        process_name: name.to_string(),
        command: command.to_string(),
    }
}

fn sample() -> Vec<PortInfo> {
    vec![
        info(22, 100, "sshd", "/usr/sbin/sshd -D"),
        info(3000, 200, "node", "node server.js"),
        info(5432, 300, "postgres", "postgres -D /data"),
        info(8080, 400, "java", "java -jar app.jar --port 3000"),
    ]
}

fn app(lang: Lang) -> App {
    App::new(sample(), 1_000, lang)
}

#[test]
fn new_app_state() {
    let a = app(Lang::En);
    assert_eq!(a.selected, 0);
    assert_eq!(a.filter, "");
    assert_eq!(a.mode, AppMode::Normal);
    assert!(!a.should_quit);
    assert!(a.message.is_none());
    assert!(!a.auto_refresh);
    assert_eq!(a.refresh_interval_ms, 2000);
    assert_eq!(a.last_refresh_ms, 1_000);
    assert_eq!(a.ports.len(), 4);
}

#[test]
fn empty_filter_shows_all() {
    let a = app(Lang::En);
    let f: Vec<u16> = a.filtered_ports().iter().map(|p| p.port).collect();
    assert_eq!(f, vec![22, 3000, 5432, 8080]);
}

#[test]
fn filter_matches_port_name_or_command() {
    let mut a = app(Lang::En);
    a.filter = "3000".to_string();
    let f: Vec<u16> = a.filtered_ports().iter().map(|p| p.port).collect();
    assert_eq!(f, vec![3000, 8080]);
    a.filter = "gres".to_string();
    let f: Vec<u16> = a.filtered_ports().iter().map(|p| p.port).collect();
    assert_eq!(f, vec![5432]);
    a.filter = "-D".to_string();
    let f: Vec<u16> = a.filtered_ports().iter().map(|p| p.port).collect();
    assert_eq!(f, vec![22, 5432]);
    a.filter = "zzz".to_string();
    assert!(a.filtered_ports().is_empty());
    a.filter = "SSHD".to_string();
    assert!(a.filtered_ports().is_empty());
}

#[test]
fn cursor_moves_within_shown_entries() {
    let mut a = app(Lang::En);
    a.move_up();
    assert_eq!(a.selected, 0);
    a.move_down();
    a.move_down();
    a.move_down();
    assert_eq!(a.selected, 3);
    a.move_down();
    assert_eq!(a.selected, 3);
    a.move_up();
    assert_eq!(a.selected, 2);
    a.move_down();
    assert_eq!(a.selected, 3);
    a.filter = "3000".to_string();
    a.selected = 0;
    a.move_down();
    assert_eq!(a.selected, 1);
    a.move_down();
    assert_eq!(a.selected, 1);
}

#[test]
fn selected_port_follows_filter() {
    let mut a = app(Lang::En);
    a.filter = "3000".to_string();
    a.selected = 1;
    assert_eq!(a.selected_port().unwrap().port, 8080);
    a.selected = 2;
    assert!(a.selected_port().is_none());
}

#[test]
fn refresh_clamps_cursor_and_says_so() {
    let mut a = app(Lang::En);
    a.selected = 3;
    a.refresh(vec![info(1, 1, "a", ""), info(2, 2, "b", "")], 5_000);
    assert_eq!(a.selected, 1);
    assert_eq!(a.ports.len(), 2);
    assert_eq!(a.last_refresh_ms, 5_000);
    assert_eq!(a.message.as_deref(), Some("Refreshed"));
    a.refresh(vec![], 6_000);
    assert_eq!(a.selected, 1);
    let mut j = app(Lang::Ja);
    j.refresh(sample(), 2);
    assert_eq!(j.message.as_deref(), Some("リフレッシュしました"));
}

#[test]
fn auto_refresh_tick_keeps_message() {
    let mut a = app(Lang::En);
    a.message = Some("hello".to_string());
    a.selected = 3;
    a.auto_refresh_tick(vec![info(1, 1, "a", "")], 9_000);
    assert_eq!(a.selected, 0);
    assert_eq!(a.message.as_deref(), Some("hello"));
    assert_eq!(a.last_refresh_ms, 9_000);
}

#[test]
fn toggle_auto_refresh_messages() {
    let mut a = app(Lang::En);
    a.toggle_auto_refresh(1_500);
    assert!(a.auto_refresh);
    assert_eq!(a.last_refresh_ms, 1_500);
    assert_eq!(a.message.as_deref(), Some("Auto-refresh ON (2s)"));
    a.toggle_auto_refresh(1_600);
    assert!(!a.auto_refresh);
    assert_eq!(a.message.as_deref(), Some("Auto-refresh OFF"));
    let mut j = app(Lang::Ja);
    j.change_interval(500);
    j.toggle_auto_refresh(0);
    assert_eq!(j.message.as_deref(), Some("自動更新 ON (2.5秒)"));
    j.toggle_auto_refresh(0);
    assert_eq!(j.message.as_deref(), Some("自動更新 OFF"));
}

#[test]
fn interval_changes_and_bounds() {
    let mut a = app(Lang::En);
    a.change_interval(500);
    assert_eq!(a.refresh_interval_ms, 2500);
    assert_eq!(a.message.as_deref(), Some("Interval: 2.5s"));
    a.change_interval(-500);
    assert_eq!(a.message.as_deref(), Some("Interval: 2s"));
    a.change_interval(-10_000);
    assert_eq!(a.refresh_interval_ms, 500);
    assert_eq!(a.message.as_deref(), Some("Interval: 0.5s"));
    a.change_interval(1_000_000);
    assert_eq!(a.refresh_interval_ms, 60_000);
    assert_eq!(a.message.as_deref(), Some("Interval: 60s"));
    a.change_interval(i64::MIN);
    assert_eq!(a.refresh_interval_ms, 500);
    a.change_interval(750);
    assert_eq!(a.message.as_deref(), Some("Interval: 1.25s"));
    a.change_interval(5);
    assert_eq!(a.message.as_deref(), Some("Interval: 1.255s"));
    let mut j = app(Lang::Ja);
    j.change_interval(-500);
    assert_eq!(j.message.as_deref(), Some("間隔: 1.5秒"));
}

#[test]
fn time_until_next_refresh() {
    let mut a = app(Lang::En);
    assert_eq!(a.time_until_next_refresh(1_000), None);
    a.toggle_auto_refresh(10_000);
    assert_eq!(a.time_until_next_refresh(10_000), Some(2000));
    assert_eq!(a.time_until_next_refresh(11_200), Some(800));
    assert_eq!(a.time_until_next_refresh(12_000), Some(0));
    assert_eq!(a.time_until_next_refresh(50_000), Some(0));
    assert_eq!(a.time_until_next_refresh(5_000), Some(2000));
}

#[test]
fn kill_selected_success_asks_for_rescan() {
    let mut a = app(Lang::En);
    a.selected = 1;
    a.mode = AppMode::Confirm { force: false };
    assert!(a.kill_selected(false, Ok(())));
    assert_eq!(a.mode, AppMode::Normal);
    assert_eq!(a.message.as_deref(), Some("Sent SIGTERM to PID 200 (node)"));
    let mut j = app(Lang::Ja);
    j.selected = 2;
    assert!(j.kill_selected(true, Ok(())));
    assert_eq!(j.message.as_deref(), Some("PID 300 (postgres) に SIGKILL を送信しました"));
}

#[test]
fn kill_selected_failure_reports_error() {
    let mut a = app(Lang::En);
    a.mode = AppMode::Confirm { force: true };
    assert!(!a.kill_selected(true, Err("Operation not permitted".to_string())));
    assert_eq!(a.mode, AppMode::Normal);
    assert_eq!(a.message.as_deref(), Some("Error: Operation not permitted"));
    let mut j = app(Lang::Ja);
    assert!(!j.kill_selected(false, Err("x".to_string())));
    assert_eq!(j.message.as_deref(), Some("エラー: x"));
}

#[test]
fn kill_selected_without_entry_only_leaves_confirm() {
    let mut a = App::new(vec![], 0, Lang::En);
    a.mode = AppMode::Confirm { force: false };
    assert!(!a.kill_selected(false, Ok(())));
    assert_eq!(a.mode, AppMode::Normal);
    assert!(a.message.is_none());
}

#[test]
fn normal_keys() {
    let mut a = app(Lang::En);
    assert_eq!(handle_normal(&mut a, Key::Char('j'), 0), Effect::Nothing);
    assert_eq!(handle_normal(&mut a, Key::Down, 0), Effect::Nothing);
    assert_eq!(a.selected, 2);
    handle_normal(&mut a, Key::Char('k'), 0);
    handle_normal(&mut a, Key::Up, 0);
    assert_eq!(a.selected, 0);
    assert_eq!(handle_normal(&mut a, Key::Char('r'), 0), Effect::Rescan);
    handle_normal(&mut a, Key::Char('+'), 0);
    handle_normal(&mut a, Key::Char('='), 0);
    assert_eq!(a.refresh_interval_ms, 3000);
    handle_normal(&mut a, Key::Char('-'), 0);
    handle_normal(&mut a, Key::Char('_'), 0);
    handle_normal(&mut a, Key::Char('_'), 0);
    assert_eq!(a.refresh_interval_ms, 1500);
    handle_normal(&mut a, Key::Char('a'), 42);
    assert!(a.auto_refresh);
    assert_eq!(a.last_refresh_ms, 42);
    handle_normal(&mut a, Key::Char('x'), 0);
    assert!(!a.should_quit);
    handle_normal(&mut a, Key::Char('q'), 0);
    assert!(a.should_quit);
    let mut b = app(Lang::En);
    handle_normal(&mut b, Key::Esc, 0);
    assert!(b.should_quit);
}

#[test]
fn kill_keys_need_a_selection() {
    let mut a = app(Lang::En);
    handle_normal(&mut a, Key::Char('d'), 0);
    assert_eq!(a.mode, AppMode::Confirm { force: false });
    let mut b = app(Lang::En);
    handle_normal(&mut b, Key::Char('D'), 0);
    assert_eq!(b.mode, AppMode::Confirm { force: true });
    let mut c = App::new(vec![], 0, Lang::En);
    handle_normal(&mut c, Key::Char('D'), 0);
    assert_eq!(c.mode, AppMode::Normal);
}

#[test]
fn confirm_keys() {
    let mut a = app(Lang::En);
    a.mode = AppMode::Confirm { force: true };
    assert_eq!(handle_confirm(&mut a, Key::Char('x'), true), Effect::Nothing);
    assert_eq!(a.mode, AppMode::Confirm { force: true });
    assert_eq!(handle_confirm(&mut a, Key::Char('y'), true), Effect::Kill { force: true, pid: 100 });
    assert_eq!(a.mode, AppMode::Confirm { force: true });
    assert_eq!(handle_confirm(&mut a, Key::Char('n'), true), Effect::Nothing);
    assert_eq!(a.mode, AppMode::Normal);
    a.mode = AppMode::Confirm { force: false };
    handle_confirm(&mut a, Key::Esc, false);
    assert_eq!(a.mode, AppMode::Normal);
}

#[test]
fn search_keys() {
    let mut a = app(Lang::En);
    a.selected = 2;
    handle_normal(&mut a, Key::Char('/'), 0);
    assert_eq!(a.mode, AppMode::Search);
    assert_eq!(a.selected, 0);
    handle_search(&mut a, Key::Char('n'));
    handle_search(&mut a, Key::Char('o'));
    handle_search(&mut a, Key::Char('x'));
    assert_eq!(a.filter, "nox");
    handle_search(&mut a, Key::Backspace);
    assert_eq!(a.filter, "no");
    a.selected = 1;
    handle_search(&mut a, Key::Enter);
    assert_eq!(a.mode, AppMode::Normal);
    assert_eq!(a.selected, 0);
    assert_eq!(a.filter, "no");
    handle_normal(&mut a, Key::Char('/'), 0);
    assert_eq!(a.filter, "");
    handle_search(&mut a, Key::Char('q'));
    assert!(!a.should_quit);
    handle_search(&mut a, Key::Esc);
    assert_eq!(a.filter, "");
    assert_eq!(a.mode, AppMode::Normal);
    let mut b = app(Lang::En);
    b.mode = AppMode::Search;
    handle_search(&mut b, Key::Backspace);
    assert_eq!(b.filter, "");
}

#[test]
fn handle_key_dispatches_by_mode() {
    let mut a = app(Lang::En);
    assert_eq!(handle_key(&mut a, Key::Char('d'), 0), Effect::Nothing);
    assert_eq!(handle_key(&mut a, Key::Char('y'), 0), Effect::Kill { force: false, pid: 100 });
    assert_eq!(handle_key(&mut a, Key::Char('n'), 0), Effect::Nothing);
    assert_eq!(a.mode, AppMode::Normal);
    handle_key(&mut a, Key::Char('/'), 0);
    assert_eq!(handle_key(&mut a, Key::Char('r'), 0), Effect::Nothing);
    assert_eq!(a.filter, "r");
}

#[test]
fn poll_and_due() {
    let mut a = app(Lang::En);
    assert_eq!(poll_timeout_ms(&a, 0), 100);
    assert!(!refresh_due(&a, 100_000));
    a.toggle_auto_refresh(1_000);
    assert_eq!(poll_timeout_ms(&a, 1_000), 100);
    assert_eq!(poll_timeout_ms(&a, 2_950), 50);
    assert!(!refresh_due(&a, 2_950));
    assert!(refresh_due(&a, 3_000));
    assert_eq!(poll_timeout_ms(&a, 3_000), 0);
}

#[test]
fn confirm_without_entry_returns_to_normal() {
    let mut a = App::new(vec![], 0, Lang::En);
    a.mode = AppMode::Confirm { force: false };
    assert_eq!(handle_confirm(&mut a, Key::Char('y'), false), Effect::Nothing);
    assert_eq!(a.mode, AppMode::Normal);
}

#[test]
fn kill_targets_entry_under_cursor() {
    let mut a = app(Lang::En);
    a.filter = "java".to_string();
    handle_key(&mut a, Key::Char('D'), 0);
    assert_eq!(handle_key(&mut a, Key::Char('y'), 0), Effect::Kill { force: true, pid: 400 });
}

#[test]
fn key_releases_are_ignored() {
    let mut a = app(Lang::En);
    assert_eq!(handle_key_event(&mut a, Key::Char('q'), false, 0), None);
    assert!(!a.should_quit);
    assert_eq!(handle_key_event(&mut a, Key::Char('r'), true, 0), Some(Effect::Rescan));
    assert_eq!(handle_key_event(&mut a, Key::Char('q'), true, 0), Some(Effect::Nothing));
    assert!(a.should_quit);
}

#[test]
fn typing_more_narrows_the_list() {
    let mut a = app(Lang::En);
    let mut counts = Vec::new();
    handle_key(&mut a, Key::Char('/'), 0);
    for c in ['3', '0', '0', '0', '!'] {
        handle_key(&mut a, Key::Char(c), 0);
        counts.push(a.filtered_ports().len());
    }
    assert_eq!(counts, vec![3, 2, 2, 2, 0]);
}
