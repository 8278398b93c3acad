//! The state of the interactive viewer and the operations on it.
//!
//! Times are milliseconds on a clock of the caller's choosing; the caller
//! also performs the scans and hands their results in.
use crate::display::{signal_name, signal_text};
use crate::i18n::Lang;
use crate::port::{port_views, PortInfo, PortView};
use crate::text::{
    append_chars, chars_of, concat, contains_chars, decimal, decimal_chars, digit, digit_char,
    has_substring, string_from,
};
use vstd::prelude::*;

verus! {

/// What keys do at the moment.
#[derive(Debug, Clone, Copy, PartialEq, Eq, Structural)]
pub enum AppMode {
    Normal,
    Search,
    Confirm { force: bool },
}

impl Default for AppMode {
    fn default() -> (m: Self)
        ensures
            m == AppMode::Normal,
    {
        AppMode::Normal
    }
}

/// The viewer's state.
pub struct App {
    pub ports: Vec<PortInfo>,
    pub selected: usize,
    pub filter: String,
    pub mode: AppMode,
    pub should_quit: bool,
    pub message: Option<String>,
    /// Whether the list is rescanned when the interval has passed.
    pub auto_refresh: bool,
    /// The auto-refresh interval, in milliseconds.
    pub refresh_interval_ms: u64,
    /// When the list was last scanned, in milliseconds.
    pub last_refresh_ms: u64,
    /// The language of the messages.
    pub lang: Lang,
}

/// An `App` as plain values.
pub struct AppView {
    pub ports: Seq<PortView>,
    pub selected: usize,
    pub filter: Seq<char>,
    pub mode: AppMode,
    pub should_quit: bool,
    pub message: Option<Seq<char>>,
    pub auto_refresh: bool,
    pub refresh_interval_ms: u64,
    pub last_refresh_ms: u64,
    pub lang: Lang,
}

pub open spec fn message_view(m: Option<String>) -> Option<Seq<char>> {
    match m {
        Some(s) => Some(s@),
        None => None,
    }
}

impl View for App {
    type V = AppView;

    open spec fn view(&self) -> AppView {
        AppView {
            ports: port_views(self.ports@),
            selected: self.selected,
            filter: self.filter@,
            mode: self.mode,
            should_quit: self.should_quit,
            message: message_view(self.message),
            auto_refresh: self.auto_refresh,
            refresh_interval_ms: self.refresh_interval_ms,
            last_refresh_ms: self.last_refresh_ms,
            lang: self.lang,
        }
    }
}

/// Whether a port entry matches the search text: its port number in
/// decimal, its process name or its command contains it.
pub open spec fn matches(p: PortView, filter: Seq<char>) -> bool {
    ||| has_substring(decimal(p.port as nat), filter)
    ||| has_substring(p.process_name, filter)
    ||| has_substring(p.command, filter)
}

/// The entries shown: those that match the search text, in order; all of
/// them when the search text is empty.
pub open spec fn visible(ports: Seq<PortView>, filter: Seq<char>) -> Seq<PortView>
    decreases ports.len(),
{
    if ports.len() == 0 {
        seq![]
    } else if filter.len() == 0 || matches(ports.last(), filter) {
        visible(ports.drop_last(), filter).push(ports.last())
    } else {
        visible(ports.drop_last(), filter)
    }
}

pub open spec fn ref_views(s: Seq<&PortInfo>) -> Seq<PortView> {
    s.map_values(|p: &PortInfo| p@)
}

/// The entry under the cursor, if the cursor is on a shown entry.
pub open spec fn selected_entry(v: AppView) -> Option<PortView> {
    let shown = visible(v.ports, v.filter);
    if v.selected < shown.len() {
        Some(shown[v.selected as int])
    } else {
        None
    }
}

/// The cursor after moving up.
pub open spec fn up(selected: usize) -> usize {
    if selected > 0 {
        (selected - 1) as usize
    } else {
        selected
    }
}

/// The cursor after moving down in a list of `len` entries.
pub open spec fn down(selected: usize, len: nat) -> usize {
    if len > 0 && selected < len - 1 {
        (selected + 1) as usize
    } else {
        selected
    }
}

/// The cursor after a rescan found `len` entries.
pub open spec fn clamp_selection(selected: usize, len: nat) -> usize {
    if selected >= len && len > 0 {
        (len - 1) as usize
    } else {
        selected
    }
}

/// The seconds of `ms` milliseconds as std's `Display` of an `f64` writes
/// them: no fraction when whole, else the fraction without trailing zeros.
pub open spec fn seconds_text(ms: u64) -> Seq<char> {
    let whole = decimal((ms / 1000) as nat);
    let r = (ms % 1000) as nat;
    if r == 0 {
        whole
    } else if r % 10 != 0 {
        whole + seq!['.', digit_char(r / 100), digit_char((r / 10) % 10), digit_char(r % 10)]
    } else if r % 100 != 0 {
        whole + seq!['.', digit_char(r / 100), digit_char((r / 10) % 10)]
    } else {
        whole + seq!['.', digit_char(r / 100)]
    }
}

pub open spec fn refreshed_text(lang: Lang) -> Seq<char> {
    match lang {
        Lang::En => "Refreshed"@,
        Lang::Ja => "リフレッシュしました"@,
    }
}

pub open spec fn auto_refresh_text(lang: Lang, on: bool, interval_ms: u64) -> Seq<char> {
    match (lang, on) {
        (Lang::En, true) => "Auto-refresh ON ("@ + seconds_text(interval_ms) + "s)"@,
        (Lang::Ja, true) => "自動更新 ON ("@ + seconds_text(interval_ms) + "秒)"@,
        (Lang::En, false) => "Auto-refresh OFF"@,
        (Lang::Ja, false) => "自動更新 OFF"@,
    }
}

pub open spec fn interval_text(lang: Lang, interval_ms: u64) -> Seq<char> {
    match lang {
        Lang::En => "Interval: "@ + seconds_text(interval_ms) + "s"@,
        Lang::Ja => "間隔: "@ + seconds_text(interval_ms) + "秒"@,
    }
}

pub open spec fn sent_text(lang: Lang, force: bool, pid: u32, name: Seq<char>) -> Seq<char> {
    match lang {
        Lang::En => "Sent "@ + signal_text(force) + " to PID "@ + decimal(pid as nat) + " ("@ + name
            + ")"@,
        Lang::Ja => "PID "@ + decimal(pid as nat) + " ("@ + name + ") に "@ + signal_text(force)
            + " を送信しました"@,
    }
}

pub open spec fn error_text(lang: Lang, err: Seq<char>) -> Seq<char> {
    match lang {
        Lang::En => "Error: "@ + err,
        Lang::Ja => "エラー: "@ + err,
    }
}

/// How long until the next automatic rescan: the interval less the time
/// since the last scan, never below zero.
pub open spec fn remaining_ms(interval_ms: u64, last_ms: u64, now_ms: u64) -> u64 {
    let elapsed: int = if now_ms >= last_ms {
        now_ms - last_ms
    } else {
        0
    };
    if interval_ms >= elapsed {
        (interval_ms - elapsed) as u64
    } else {
        0
    }
}

/// With auto-refresh on, the time left until the next rescan.
pub open spec fn next_refresh_in(v: AppView, now_ms: u64) -> Option<u64> {
    if v.auto_refresh {
        Some(remaining_ms(v.refresh_interval_ms, v.last_refresh_ms, now_ms))
    } else {
        None
    }
}

/// The interval after a change by `delta_ms`, kept between half a second
/// and a minute.
pub open spec fn changed_interval(interval_ms: u64, delta_ms: i64) -> u64 {
    let t = interval_ms + delta_ms;
    if t < 500 {
        500
    } else if t > 60000 {
        60000
    } else {
        t as u64
    }
}

/// The state after auto-refresh is switched at `now_ms`.
pub open spec fn toggled(v: AppView, now_ms: u64) -> AppView {
    AppView {
        auto_refresh: !v.auto_refresh,
        last_refresh_ms: now_ms,
        message: Some(auto_refresh_text(v.lang, !v.auto_refresh, v.refresh_interval_ms)),
        ..v
    }
}

/// The state after the interval is changed by `delta_ms`.
pub open spec fn retimed(v: AppView, delta_ms: i64) -> AppView {
    AppView {
        refresh_interval_ms: changed_interval(v.refresh_interval_ms, delta_ms),
        message: Some(interval_text(v.lang, changed_interval(v.refresh_interval_ms, delta_ms))),
        ..v
    }
}

/// The state after a rescan that found `ports` at `now_ms`.
pub open spec fn rescanned(v: AppView, ports: Seq<PortView>, now_ms: u64) -> AppView {
    AppView {
        ports,
        selected: clamp_selection(v.selected, ports.len()),
        last_refresh_ms: now_ms,
        ..v
    }
}

fn seconds_chars(ms: u64) -> (r: Vec<char>)
    ensures
        r@ == seconds_text(ms),
{
    let mut v = decimal_chars(ms / 1000);
    let r = ms % 1000;
    if r != 0 {
        v.push('.');
        v.push(digit(r / 100));
        if r % 100 != 0 {
            v.push(digit((r / 10) % 10));
            if r % 10 != 0 {
                v.push(digit(r % 10));
            }
        }
    }
    v
}

impl App {
    /// A viewer over the scanned `ports` at `now_ms`: cursor on the first
    /// entry, no search text, normal mode, no message, auto-refresh off
    /// with a two-second interval.
    pub fn new(ports: Vec<PortInfo>, now_ms: u64, lang: Lang) -> (app: Self)
        ensures
            app@ == (AppView {
                ports: port_views(ports@),
                selected: 0,
                filter: seq![],
                mode: AppMode::Normal,
                should_quit: false,
                message: None,
                auto_refresh: false,
                refresh_interval_ms: 2000,
                last_refresh_ms: now_ms,
                lang,
            }),
    {
        App {
            ports,
            selected: 0,
            filter: String::new(),
            mode: AppMode::Normal,
            should_quit: false,
            message: None,
            auto_refresh: false,
            refresh_interval_ms: 2000,
            last_refresh_ms: now_ms,
            lang,
        }
    }

    /// With auto-refresh on, the time left until the next rescan.
    pub fn time_until_next_refresh(&self, now_ms: u64) -> (r: Option<u64>)
        ensures
            r == next_refresh_in(self@, now_ms),
    {
        if !self.auto_refresh {
            return None;
        }
        let elapsed = if now_ms >= self.last_refresh_ms {
            now_ms - self.last_refresh_ms
        } else {
            0
        };
        Some(
            if self.refresh_interval_ms >= elapsed {
                self.refresh_interval_ms - elapsed
            } else {
                0
            },
        )
    }

    /// Switches auto-refresh on or off; the interval is counted from now.
    pub fn toggle_auto_refresh(&mut self, now_ms: u64)
        ensures
            final(self)@ == toggled(old(self)@, now_ms),
    {
        self.auto_refresh = !self.auto_refresh;
        self.last_refresh_ms = now_ms;
        let msg = if self.auto_refresh {
            let secs = seconds_chars(self.refresh_interval_ms);
            match self.lang {
                Lang::En => concat(append_chars(string_from("Auto-refresh ON ("), &secs), "s)"),
                Lang::Ja => concat(append_chars(string_from("自動更新 ON ("), &secs), "秒)"),
            }
        } else {
            match self.lang {
                Lang::En => string_from("Auto-refresh OFF"),
                Lang::Ja => string_from("自動更新 OFF"),
            }
        };
        self.message = Some(msg);
    }

    /// Changes the auto-refresh interval by `delta_ms`, kept between half a
    /// second and a minute.
    pub fn change_interval(&mut self, delta_ms: i64)
        ensures
            final(self)@ == retimed(old(self)@, delta_ms),
    {
        let t: i128 = self.refresh_interval_ms as i128 + delta_ms as i128;
        let new_ms: u64 = if t < 500 {
            500
        } else if t > 60000 {
            60000
        } else {
            t as u64
        };
        self.refresh_interval_ms = new_ms;
        let secs = seconds_chars(new_ms);
        let msg = match self.lang {
            Lang::En => concat(append_chars(string_from("Interval: "), &secs), "s"),
            Lang::Ja => concat(append_chars(string_from("間隔: "), &secs), "秒"),
        };
        self.message = Some(msg);
    }

    /// Takes a rescan that found `ports` at `now_ms`: the cursor is pulled
    /// back onto the list, and the message says so.
    pub fn refresh(&mut self, ports: Vec<PortInfo>, now_ms: u64)
        ensures
            final(self)@ == (AppView {
                message: Some(refreshed_text(old(self).lang)),
                ..rescanned(old(self)@, port_views(ports@), now_ms)
            }),
    {
        self.ports = ports;
        if self.selected >= self.ports.len() && self.ports.len() > 0 {
            self.selected = self.ports.len() - 1;
        }
        self.last_refresh_ms = now_ms;
        self.message = Some(
            match self.lang {
                Lang::En => string_from("Refreshed"),
                Lang::Ja => string_from("リフレッシュしました"),
            },
        );
    }

    /// Takes a rescan made because the interval passed; the message stays.
    pub fn auto_refresh_tick(&mut self, ports: Vec<PortInfo>, now_ms: u64)
        ensures
            final(self)@ == rescanned(old(self)@, port_views(ports@), now_ms),
    {
        self.ports = ports;
        if self.selected >= self.ports.len() && self.ports.len() > 0 {
            self.selected = self.ports.len() - 1;
        }
        self.last_refresh_ms = now_ms;
    }

    /// The entries shown under the current search text.
    pub fn filtered_ports(&self) -> (r: Vec<&PortInfo>)
        ensures
            ref_views(r@) == visible(self@.ports, self@.filter),
    {
        let ghost pv = self@.ports;
        let ghost f = self@.filter;
        let fv = chars_of(self.filter.as_str());
        let all = fv.len() == 0;
        let mut r: Vec<&PortInfo> = Vec::new();
        let mut i: usize = 0;
        while i < self.ports.len()
            invariant
                i <= self.ports.len(),
                pv == port_views(self.ports@),
                fv@ == f,
                all == (f.len() == 0),
                ref_views(r@) == visible(pv.take(i as int), f),
            decreases self.ports.len() - i,
        {
            let p = &self.ports[i];
            assert(pv.take(i + 1).drop_last() == pv.take(i as int));
            assert(pv.take(i + 1).last() == p@);
            let keep = if all {
                true
            } else {
                let digits = decimal_chars(p.port as u64);
                let name = chars_of(p.process_name.as_str());
                let cmd = chars_of(p.command.as_str());
                contains_chars(&digits, &fv) || contains_chars(&name, &fv) || contains_chars(
                    &cmd,
                    &fv,
                )
            };
            let ghost before = r@;
            if keep {
                r.push(p);
                assert(ref_views(r@) =~= ref_views(before).push(p@));
            }
            i = i + 1;
        }
        assert(pv.take(self.ports.len() as int) == pv);
        r
    }

    /// Moves the cursor up, unless it is on the first entry.
    pub fn move_up(&mut self)
        ensures
            final(self)@ == (AppView { selected: up(old(self).selected), ..old(self)@ }),
    {
        if self.selected > 0 {
            self.selected = self.selected - 1;
        }
    }

    /// Moves the cursor down, unless it is on the last entry shown.
    pub fn move_down(&mut self)
        ensures
            final(self)@ == (AppView {
                selected: down(old(self).selected, visible(old(self)@.ports, old(self)@.filter).len()),
                ..old(self)@
            }),
    {
        let len = self.filtered_ports().len();
        if len > 0 && self.selected < len - 1 {
            self.selected = self.selected + 1;
        }
    }

    /// The entry under the cursor.
    pub fn selected_port(&self) -> (r: Option<&PortInfo>)
        ensures
            match selected_entry(self@) {
                Some(e) => r matches Some(p) && p@ == e,
                None => r is None,
            },
    {
        let shown = self.filtered_ports();
        if self.selected < shown.len() {
            assert(ref_views(shown@)[self.selected as int] == shown@[self.selected as int]@);
            Some(shown[self.selected])
        } else {
            None
        }
    }

    /// Takes the outcome of sending the kill signal (`SIGKILL` when `force`,
    /// else `SIGTERM`) to the process of the entry under the cursor. The
    /// mode returns to normal. With no entry under the cursor nothing else
    /// changes. On success the message names the signal, the PID and the
    /// process, and the result is `true`: the list is to be rescanned and
    /// handed to `refresh`. On failure the message gives the error.
    pub fn kill_selected(&mut self, force: bool, outcome: Result<(), String>) -> (rescan: bool)
        ensures
            match selected_entry(old(self)@) {
                None => !rescan && final(self)@ == (AppView {
                    mode: AppMode::Normal,
                    ..old(self)@
                }),
                Some(e) => match outcome {
                    Ok(()) => rescan && final(self)@ == (AppView {
                        mode: AppMode::Normal,
                        message: Some(sent_text(old(self).lang, force, e.pid, e.process_name)),
                        ..old(self)@
                    }),
                    Err(err) => !rescan && final(self)@ == (AppView {
                        mode: AppMode::Normal,
                        message: Some(error_text(old(self).lang, err@)),
                        ..old(self)@
                    }),
                },
            },
    {
        let target = match self.selected_port() {
            Some(p) => Some((p.pid, p.process_name.clone())),
            None => None,
        };
        let rescan = match target {
            None => false,
            Some((pid, name)) => match outcome {
                Ok(()) => {
                    let sig = signal_name(force);
                    let digits = decimal_chars(pid as u64);
                    let msg = match self.lang {
                        Lang::En => concat(
                            concat(
                                append_chars(
                                    concat(concat(string_from("Sent "), sig), " to PID "),
                                    &digits,
                                ),
                                " (",
                            ),
                            name.as_str(),
                        ),
                        Lang::Ja => concat(
                            concat(
                                concat(
                                    concat(append_chars(string_from("PID "), &digits), " ("),
                                    name.as_str(),
                                ),
                                ") に ",
                            ),
                            sig,
                        ),
                    };
                    let msg = match self.lang {
                        Lang::En => concat(msg, ")"),
                        Lang::Ja => concat(msg, " を送信しました"),
                    };
                    self.message = Some(msg);
                    true
                },
                Err(e) => {
                    let msg = match self.lang {
                        Lang::En => concat(string_from("Error: "), e.as_str()),
                        Lang::Ja => concat(string_from("エラー: "), e.as_str()),
                    };
                    self.message = Some(msg);
                    false
                },
            },
        };
        self.mode = AppMode::Normal;
        rescan
    }
}

/// With an empty search text every entry is shown, in order.
pub proof fn lemma_empty_filter_shows_all(ports: Seq<PortView>)
    ensures
        visible(ports, seq![]) == ports,
    decreases ports.len(),
{
    if ports.len() > 0 {
        lemma_empty_filter_shows_all(ports.drop_last());
        assert(ports.drop_last().push(ports.last()) =~= ports);
    }
}

/// The entries shown are entries of the list that match the search text, and
/// there are no more of them than of the list.
pub proof fn lemma_shown_entries_match(ports: Seq<PortView>, filter: Seq<char>)
    ensures
        visible(ports, filter).len() <= ports.len(),
        forall|i: int|
            0 <= i < visible(ports, filter).len() ==> ports.contains(
                #[trigger] visible(ports, filter)[i],
            ) && (filter.len() == 0 || matches(visible(ports, filter)[i], filter)),
    decreases ports.len(),
{
    if ports.len() > 0 {
        let rest = ports.drop_last();
        lemma_shown_entries_match(rest, filter);
        let s = visible(ports, filter);
        assert forall|i: int| 0 <= i < s.len() implies ports.contains(#[trigger] s[i]) && (
        filter.len() == 0 || matches(s[i], filter)) by {
            if i < visible(rest, filter).len() {
                assert(s[i] == visible(rest, filter)[i]);
                let j = choose|j: int| 0 <= j < rest.len() && rest[j] == s[i];
                assert(ports[j] == s[i]);
            } else {
                assert(s[i] == ports.last());
                assert(ports[ports.len() - 1] == s[i]);
            }
        }
    }
}

/// Search finds an entry by its port number, its process name or its
/// command: every entry one of which contains the search text is shown, and
/// every entry shown contains it in one of them unless the text is empty.
pub proof fn lemma_search_finds(ports: Seq<PortView>, f: Seq<char>)
    ensures
        forall|k: int|
            0 <= k < ports.len() && (has_substring(decimal(ports[k].port as nat), f)
                || has_substring(ports[k].process_name, f) || has_substring(ports[k].command, f))
                ==> visible(ports, f).contains(#[trigger] ports[k]),
        forall|i: int|
            0 <= i < visible(ports, f).len() ==> f.len() == 0 || has_substring(
                decimal((#[trigger] visible(ports, f)[i]).port as nat),
                f,
            ) || has_substring(visible(ports, f)[i].process_name, f) || has_substring(
                visible(ports, f)[i].command,
                f,
            ),
    decreases ports.len(),
{
    lemma_shown_entries_match(ports, f);
    if ports.len() > 0 {
        let rest = ports.drop_last();
        lemma_search_finds(rest, f);
        let v = visible(ports, f);
        let vr = visible(rest, f);
        assert forall|k: int|
            0 <= k < ports.len() && (has_substring(decimal(ports[k].port as nat), f)
                || has_substring(ports[k].process_name, f) || has_substring(ports[k].command, f))
            implies v.contains(#[trigger] ports[k]) by {
            if k < rest.len() {
                assert(rest[k] == ports[k]);
                let j = choose|j: int| 0 <= j < vr.len() && vr[j] == rest[k];
                assert(v[j] == vr[j]);
            } else {
                assert(ports[k] == ports.last());
                assert(v[v.len() - 1] == ports[k]);
            }
        }
    }
}

proof fn lemma_substring_transitive(h: Seq<char>, n: Seq<char>, m: Seq<char>)
    requires
        has_substring(h, n),
        has_substring(n, m),
    ensures
        has_substring(h, m),
{
    let i = choose|i: int|
        0 <= i && i + n.len() <= h.len() && #[trigger] h.subrange(i, i + n.len()) == n;
    let j = choose|j: int|
        0 <= j && j + m.len() <= n.len() && #[trigger] n.subrange(j, j + m.len()) == m;
    assert forall|k: int| 0 <= k < m.len() implies h.subrange(i + j, i + j + m.len())[k] == m[k] by {
        assert(h.subrange(i, i + n.len())[j + k] == n[j + k]);
        assert(n.subrange(j, j + m.len())[k] == n[j + k]);
    }
    assert(h.subrange(i + j, i + j + m.len()) =~= m);
}

/// A search text holds its own start: `f` occurs in `f` followed by `c`.
pub proof fn lemma_prefix_is_substring(f: Seq<char>, c: char)
    ensures
        has_substring(f.push(c), f),
{
    let z: int = 0;
    assert(f.push(c).subrange(z, z + f.len()) =~= f);
}

/// Typing more narrows the list: when the shorter search text `a` occurs in
/// the longer one `b`, the entries shown for `b` are those shown for `a`
/// that also match `b`, in the same order, so there are no more of them.
pub proof fn lemma_longer_search_narrows(ports: Seq<PortView>, a: Seq<char>, b: Seq<char>)
    requires
        has_substring(b, a),
    ensures
        visible(ports, b) == visible(visible(ports, a), b),
        visible(ports, b).len() <= visible(ports, a).len(),
        visible(ports, a).len() <= ports.len(),
    decreases ports.len(),
{
    lemma_shown_entries_match(ports, a);
    lemma_shown_entries_match(visible(ports, a), b);
    if ports.len() > 0 {
        let rest = ports.drop_last();
        let p = ports.last();
        lemma_longer_search_narrows(rest, a, b);
        if b.len() == 0 {
            assert(a.len() == 0);
        }
        let keep_b = b.len() == 0 || matches(p, b);
        if keep_b && a.len() > 0 {
            let pd = decimal(p.port as nat);
            if has_substring(pd, b) {
                lemma_substring_transitive(pd, b, a);
            } else if has_substring(p.process_name, b) {
                lemma_substring_transitive(p.process_name, b, a);
            } else {
                lemma_substring_transitive(p.command, b, a);
            }
        }
        let va = visible(ports, a);
        if a.len() == 0 || matches(p, a) {
            assert(va.drop_last() == visible(rest, a));
            assert(va.last() == p);
        } else {
            assert(va == visible(rest, a));
        }
    }
}

/// Typing a character in the search box narrows the list (see
/// `lemma_longer_search_narrows`).
pub proof fn lemma_typing_narrows(ports: Seq<PortView>, f: Seq<char>, c: char)
    ensures
        visible(ports, f.push(c)) == visible(visible(ports, f), f.push(c)),
        visible(ports, f.push(c)).len() <= visible(ports, f).len(),
{
    lemma_prefix_is_substring(f, c);
    lemma_longer_search_narrows(ports, f, f.push(c));
}

/// Moving the cursor: up then down, or down then up, returns it to where it
/// was when both moves are possible; moving down never leaves the list.
pub proof fn lemma_cursor_moves(selected: usize, len: nat)
    requires
        len <= usize::MAX,
    ensures
        0 < selected < len ==> down(up(selected), len) == selected,
        selected + 1 < len ==> up(down(selected, len)) == selected,
        selected < len ==> down(selected, len) < len,
        up(selected) <= selected,
{
}

/// After a rescan the cursor is on the list whenever the list is not empty,
/// and stays where it was when that is still on the list.
pub proof fn lemma_rescan_cursor(selected: usize, len: nat)
    ensures
        len > 0 ==> clamp_selection(selected, len) < len,
        selected < len ==> clamp_selection(selected, len) == selected,
{
}

/// Switching auto-refresh twice restores it.
pub proof fn lemma_toggle_twice(v: AppView, t1: u64, t2: u64)
    ensures
        toggled(toggled(v, t1), t2).auto_refresh == v.auto_refresh,
        toggled(toggled(v, t1), t2).refresh_interval_ms == v.refresh_interval_ms,
{
}

/// The interval stays between half a second and a minute, and a change by
/// half a second undone by the opposite change restores it when both stay
/// within those bounds.
pub proof fn lemma_interval_bounds(v: AppView, delta_ms: i64)
    ensures
        500 <= retimed(v, delta_ms).refresh_interval_ms <= 60000,
        1000 <= v.refresh_interval_ms <= 59500 ==> retimed(retimed(v, 500i64), -500i64).refresh_interval_ms
            == v.refresh_interval_ms,
{
}

/// The time left until the next rescan is never more than the interval, and
/// is the whole interval right after a scan.
pub proof fn lemma_remaining_at_most_interval(interval_ms: u64, last_ms: u64, now_ms: u64)
    ensures
        remaining_ms(interval_ms, last_ms, now_ms) <= interval_ms,
        remaining_ms(interval_ms, now_ms, now_ms) == interval_ms,
        now_ms >= last_ms + interval_ms ==> remaining_ms(interval_ms, last_ms, now_ms) == 0,
{
}

} // verus!
