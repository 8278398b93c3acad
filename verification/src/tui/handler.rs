//! What each key does to the viewer, by mode.
//!
//! A key that asks for a rescan or a kill is answered with an `Effect`: the
//! caller performs it and hands the outcome back (`App::refresh`,
//! `App::kill_selected`).
use crate::tui::app::{
    down, next_refresh_in, retimed, selected_entry, toggled, up, visible, App, AppMode, AppView,
};
use crate::text::{pop_char, push_char};
use vstd::prelude::*;

verus! {

/// A key press, as far as the viewer tells keys apart.
#[derive(Debug, Clone, Copy, PartialEq, Eq, Structural)]
pub enum Key {
    Char(char),
    Esc,
    Up,
    Down,
    Enter,
    Backspace,
    Other,
}

/// Outside work that a key asks for.
#[derive(Debug, Clone, Copy, PartialEq, Eq, Structural)]
pub enum Effect {
    /// Nothing to do.
    Nothing,
    /// Rescan the ports and hand them to `App::refresh`.
    Rescan,
    /// Send the kill signal (`SIGKILL` when `force`, else `SIGTERM`) to
    /// process `pid`, the one under the cursor, and hand the outcome to
    /// `App::kill_selected`.
    Kill { force: bool, pid: u32 },
}

/// The state after a key in normal mode, at `now_ms`.
pub open spec fn normal_next(v: AppView, key: Key, now_ms: u64) -> AppView {
    match key {
        Key::Esc => AppView { should_quit: true, ..v },
        Key::Up => AppView { selected: up(v.selected), ..v },
        Key::Down => AppView { selected: down(v.selected, visible(v.ports, v.filter).len()), ..v },
        Key::Char(c) => if c == 'q' {
            AppView { should_quit: true, ..v }
        } else if c == 'k' {
            AppView { selected: up(v.selected), ..v }
        } else if c == 'j' {
            AppView { selected: down(v.selected, visible(v.ports, v.filter).len()), ..v }
        } else if c == 'd' || c == 'D' {
            if selected_entry(v) is Some {
                AppView { mode: AppMode::Confirm { force: c == 'D' }, ..v }
            } else {
                v
            }
        } else if c == '/' {
            AppView { filter: seq![], selected: 0, mode: AppMode::Search, ..v }
        } else if c == 'a' {
            toggled(v, now_ms)
        } else if c == '+' || c == '=' {
            retimed(v, 500)
        } else if c == '-' || c == '_' {
            retimed(v, -500i64)
        } else {
            v
        },
        _ => v,
    }
}

/// The state after a key in search mode.
pub open spec fn search_next(v: AppView, key: Key) -> AppView {
    match key {
        Key::Enter => AppView { selected: 0, mode: AppMode::Normal, ..v },
        Key::Esc => AppView { filter: seq![], selected: 0, mode: AppMode::Normal, ..v },
        Key::Backspace => AppView {
            filter: if v.filter.len() > 0 {
                v.filter.drop_last()
            } else {
                v.filter
            },
            selected: 0,
            ..v
        },
        Key::Char(c) => AppView { filter: v.filter.push(c), selected: 0, ..v },
        _ => v,
    }
}

/// The state after a key while a kill waits for confirmation.
pub open spec fn confirm_next(v: AppView, key: Key) -> AppView {
    match key {
        Key::Char(c) => if c == 'n' || (c == 'y' && selected_entry(v) is None) {
            AppView { mode: AppMode::Normal, ..v }
        } else {
            v
        },
        Key::Esc => AppView { mode: AppMode::Normal, ..v },
        _ => v,
    }
}

/// The state after a key in whatever mode the viewer is in.
pub open spec fn key_next(v: AppView, key: Key, now_ms: u64) -> AppView {
    match v.mode {
        AppMode::Normal => normal_next(v, key, now_ms),
        AppMode::Search => search_next(v, key),
        AppMode::Confirm { .. } => confirm_next(v, key),
    }
}

/// The outside work a key asks for.
/// A kill is asked for only when an entry is under the cursor; its process
/// is the one signalled.
pub open spec fn key_effect(v: AppView, key: Key) -> Effect {
    match (v.mode, key) {
        (AppMode::Normal, Key::Char('r')) => Effect::Rescan,
        (AppMode::Confirm { force }, Key::Char('y')) => match selected_entry(v) {
            Some(e) => Effect::Kill { force, pid: e.pid },
            None => Effect::Nothing,
        },
        _ => Effect::Nothing,
    }
}

/// A key in normal mode: quit, move, ask to kill, search, rescan, switch
/// auto-refresh, change its interval by half a second.
pub fn handle_normal(app: &mut App, key: Key, now_ms: u64) -> (e: Effect)
    requires
        old(app).mode == AppMode::Normal,
    ensures
        final(app)@ == normal_next(old(app)@, key, now_ms),
        e == key_effect(old(app)@, key),
{
    match key {
        Key::Char('q') | Key::Esc => {
            app.should_quit = true;
            Effect::Nothing
        },
        Key::Up | Key::Char('k') => {
            app.move_up();
            Effect::Nothing
        },
        Key::Down | Key::Char('j') => {
            app.move_down();
            Effect::Nothing
        },
        Key::Char('d') => {
            if app.selected_port().is_some() {
                app.mode = AppMode::Confirm { force: false };
            }
            Effect::Nothing
        },
        Key::Char('D') => {
            if app.selected_port().is_some() {
                app.mode = AppMode::Confirm { force: true };
            }
            Effect::Nothing
        },
        Key::Char('/') => {
            app.filter = String::new();
            app.selected = 0;
            app.mode = AppMode::Search;
            Effect::Nothing
        },
        Key::Char('r') => Effect::Rescan,
        Key::Char('a') => {
            app.toggle_auto_refresh(now_ms);
            Effect::Nothing
        },
        Key::Char('+') | Key::Char('=') => {
            app.change_interval(500);
            Effect::Nothing
        },
        Key::Char('-') | Key::Char('_') => {
            app.change_interval(-500);
            Effect::Nothing
        },
        _ => Effect::Nothing,
    }
}

/// A key in search mode: edit the search text, keep it (Enter) or drop it
/// (Esc). Each edit puts the cursor back on the first entry.
pub fn handle_search(app: &mut App, key: Key)
    requires
        old(app).mode == AppMode::Search,
    ensures
        final(app)@ == search_next(old(app)@, key),
{
    match key {
        Key::Enter => {
            app.selected = 0;
            app.mode = AppMode::Normal;
        },
        Key::Esc => {
            app.filter = String::new();
            app.selected = 0;
            app.mode = AppMode::Normal;
        },
        Key::Backspace => {
            pop_char(&mut app.filter);
            app.selected = 0;
        },
        Key::Char(c) => {
            push_char(&mut app.filter, c);
            app.selected = 0;
        },
        _ => {},
    }
}

/// A key while a kill waits for confirmation: `y` asks for the kill of the
/// process under the cursor (with none there, it returns to normal mode), `n`
/// or Esc cancels it.
pub fn handle_confirm(app: &mut App, key: Key, force: bool) -> (e: Effect)
    requires
        old(app).mode == (AppMode::Confirm { force }),
    ensures
        final(app)@ == confirm_next(old(app)@, key),
        e == key_effect(old(app)@, key),
{
    match key {
        Key::Char('y') => match app.selected_port() {
            Some(p) => Effect::Kill { force, pid: p.pid },
            None => {
                app.mode = AppMode::Normal;
                Effect::Nothing
            },
        },
        Key::Char('n') | Key::Esc => {
            app.mode = AppMode::Normal;
            Effect::Nothing
        },
        _ => Effect::Nothing,
    }
}

/// A key press, handled by the current mode.
pub fn handle_key(app: &mut App, key: Key, now_ms: u64) -> (e: Effect)
    ensures
        final(app)@ == key_next(old(app)@, key, now_ms),
        e == key_effect(old(app)@, key),
{
    match app.mode {
        AppMode::Normal => handle_normal(app, key, now_ms),
        AppMode::Search => {
            handle_search(app, key);
            Effect::Nothing
        },
        AppMode::Confirm { force } => handle_confirm(app, key, force),
    }
}

/// A key event: one that is not a press (a release or a repeat report) is
/// ignored and gives `None`, and the caller ends the round there; a press is
/// handled by the current mode.
pub fn handle_key_event(app: &mut App, key: Key, pressed: bool, now_ms: u64) -> (e: Option<
    Effect,
>)
    ensures
        !pressed ==> e is None && final(app)@ == old(app)@,
        pressed ==> e == Some(key_effect(old(app)@, key)) && final(app)@ == key_next(
            old(app)@,
            key,
            now_ms,
        ),
{
    if !pressed {
        return None;
    }
    Some(handle_key(app, key, now_ms))
}

/// How long to wait for a key: a tenth of a second, or less when the next
/// automatic rescan is due sooner.
pub fn poll_timeout_ms(app: &App, now_ms: u64) -> (t: u64)
    ensures
        t == (match next_refresh_in(app@, now_ms) {
            Some(r) => if r < 100 {
                r
            } else {
                100
            },
            None => 100,
        }),
{
    match app.time_until_next_refresh(now_ms) {
        Some(r) => if r < 100 {
            r
        } else {
            100
        },
        None => 100,
    }
}

/// Whether the automatic rescan is due.
pub fn refresh_due(app: &App, now_ms: u64) -> (b: bool)
    ensures
        b == (next_refresh_in(app@, now_ms) == Some(0u64)),
{
    match app.time_until_next_refresh(now_ms) {
        Some(r) => r == 0,
        None => false,
    }
}

/// Quitting: `q` and Esc in normal mode end the viewer; no key in search
/// mode does.
pub proof fn lemma_quit_keys(v: AppView, key: Key, now_ms: u64)
    ensures
        v.mode == AppMode::Normal && (key == Key::Esc || key == Key::Char('q')) ==> key_next(
            v,
            key,
            now_ms,
        ).should_quit,
        v.mode == AppMode::Search ==> key_next(v, key, now_ms).should_quit == v.should_quit,
{
}

/// Typing a character in the search box and erasing it gives the search
/// text back.
pub proof fn lemma_type_then_erase(v: AppView, c: char, now_ms: u64)
    requires
        v.mode == AppMode::Search,
    ensures
        key_next(key_next(v, Key::Char(c), now_ms), Key::Backspace, now_ms).filter == v.filter,
        key_next(key_next(v, Key::Char(c), now_ms), Key::Backspace, now_ms).mode
            == AppMode::Search,
{
    assert(v.filter.push(c).drop_last() =~= v.filter);
}

/// Leaving the search box with Esc drops the search text; with Enter keeps
/// it. Either way the cursor is on the first entry and the mode is normal.
pub proof fn lemma_leave_search(v: AppView, now_ms: u64)
    requires
        v.mode == AppMode::Search,
    ensures
        key_next(v, Key::Esc, now_ms).filter == Seq::<char>::empty(),
        key_next(v, Key::Enter, now_ms).filter == v.filter,
        key_next(v, Key::Esc, now_ms).mode == AppMode::Normal,
        key_next(v, Key::Enter, now_ms).mode == AppMode::Normal,
        key_next(v, Key::Esc, now_ms).selected == 0,
        key_next(v, Key::Enter, now_ms).selected == 0,
{
}

/// A kill is only asked for from a confirmation and of the entry under the
/// cursor: `y` asks for it with the confirmed signal and that entry's PID;
/// `n` and Esc return to normal mode with nothing else changed.
pub proof fn lemma_confirm(v: AppView, force: bool, key: Key, now_ms: u64)
    requires
        v.mode == (AppMode::Confirm { force }),
    ensures
        selected_entry(v) matches Some(e) ==> key_effect(v, Key::Char('y')) == (Effect::Kill {
            force,
            pid: e.pid,
        }),
        selected_entry(v) is None ==> key_effect(v, Key::Char('y')) == Effect::Nothing
            && key_next(v, Key::Char('y'), now_ms).mode == AppMode::Normal,
        key_next(v, Key::Char('n'), now_ms) == (AppView { mode: AppMode::Normal, ..v }),
        key_next(v, Key::Esc, now_ms) == (AppView { mode: AppMode::Normal, ..v }),
        forall|w: AppView, k: Key| #[trigger] key_effect(w, k) is Kill ==> w.mode is Confirm
            && selected_entry(w) is Some,
{
}

/// Asking to kill needs an entry under the cursor: `d`/`D` in normal mode
/// enter confirmation exactly when there is one.
pub proof fn lemma_kill_needs_selection(v: AppView, now_ms: u64)
    requires
        v.mode == AppMode::Normal,
    ensures
        (key_next(v, Key::Char('d'), now_ms).mode == (AppMode::Confirm { force: false }))
            == (selected_entry(v) is Some),
        (key_next(v, Key::Char('D'), now_ms).mode == (AppMode::Confirm { force: true }))
            == (selected_entry(v) is Some),
{
}

} // verus!
