//! What the command-line output says, as runs of text each with a color
//! and weight (`Tone`); the caller styles and prints them.
use crate::i18n::Lang;
use crate::port::{port_views, PortInfo, PortView};
use crate::text::{
    has_substring, chars_of, concat, decimal, decimal_string, lines, push_char, split_lines, string_from, views,
};
use figlet_rs::FIGfont;
use vstd::prelude::*;

verus! {

/// How a run of text is styled.
#[derive(Debug, Clone, Copy, PartialEq, Eq, Structural)]
pub enum Tone {
    Plain,
    Bold,
    Red,
    RedBold,
    Green,
    Yellow,
    Blue,
    Magenta,
    Cyan,
    CyanBold,
    WhiteBold,
}

/// A run of text and its style.
pub struct Span {
    pub text: String,
    pub tone: Tone,
}

impl View for Span {
    type V = (Seq<char>, Tone);

    open spec fn view(&self) -> (Seq<char>, Tone) {
        (self.text@, self.tone)
    }
}

pub open spec fn span_views(s: Seq<Span>) -> Seq<(Seq<char>, Tone)> {
    s.map_values(|x: Span| x@)
}

pub open spec fn line_views(s: Seq<Vec<Span>>) -> Seq<Seq<(Seq<char>, Tone)>> {
    s.map_values(|x: Vec<Span>| span_views(x@))
}

/// A line of output and where it goes.
pub struct Notice {
    /// Whether it goes to standard error rather than standard output.
    pub to_stderr: bool,
    pub spans: Vec<Span>,
}

fn span(text: String, tone: Tone) -> (r: Span)
    ensures
        r@ == (text@, tone),
{
    Span { text, tone }
}

fn lit(text: &str, tone: Tone) -> (r: Span)
    ensures
        r@ == (text@, tone),
{
    Span { text: string_from(text), tone }
}

/// The header of the port table.
pub open spec fn header_spec() -> Seq<(Seq<char>, Tone)> {
    seq![
        ("PORT"@, Tone::CyanBold),
        ("PROTO"@, Tone::Green),
        ("PID"@, Tone::Yellow),
        ("PROCESS"@, Tone::Magenta),
        ("COMMAND"@, Tone::WhiteBold),
    ]
}

/// The row of the port table for one entry.
pub open spec fn row_spec(p: PortView) -> Seq<(Seq<char>, Tone)> {
    seq![
        (decimal(p.port as nat), Tone::CyanBold),
        (p.protocol, Tone::Green),
        (decimal(p.pid as nat), Tone::Yellow),
        (p.process_name, Tone::Magenta),
        (p.command, Tone::Plain),
    ]
}

/// The header of the port table.
pub fn port_table_header() -> (r: Vec<Span>)
    ensures
        span_views(r@) == header_spec(),
{
    let mut r: Vec<Span> = Vec::new();
    r.push(lit("PORT", Tone::CyanBold));
    r.push(lit("PROTO", Tone::Green));
    r.push(lit("PID", Tone::Yellow));
    r.push(lit("PROCESS", Tone::Magenta));
    r.push(lit("COMMAND", Tone::WhiteBold));
    assert(span_views(r@) =~= header_spec());
    r
}

/// The row of the port table for `p`.
pub fn port_table_row(p: &PortInfo) -> (r: Vec<Span>)
    ensures
        span_views(r@) == row_spec(p@),
{
    let mut r: Vec<Span> = Vec::new();
    r.push(span(decimal_string(p.port as u64), Tone::CyanBold));
    r.push(span(p.protocol.clone(), Tone::Green));
    r.push(span(decimal_string(p.pid as u64), Tone::Yellow));
    r.push(span(p.process_name.clone(), Tone::Magenta));
    r.push(span(p.command.clone(), Tone::Plain));
    assert(span_views(r@) =~= row_spec(p@));
    r
}

/// What is said when no port is listening.
pub open spec fn no_ports_text(lang: Lang) -> Seq<char> {
    match lang {
        Lang::En => "No listening ports found"@,
        Lang::Ja => "リスニング中のポートが見つかりません"@,
    }
}

/// What is said when no port is listening.
pub fn no_ports_notice(lang: Lang) -> (r: Span)
    ensures
        r@ == (no_ports_text(lang), Tone::Yellow),
{
    match lang {
        Lang::En => lit("No listening ports found", Tone::Yellow),
        Lang::Ja => lit("リスニング中のポートが見つかりません", Tone::Yellow),
    }
}

/// What `list` prints: a notice when no port is listening, else a table.
pub enum PortListing {
    NoPorts(Span),
    Table { header: Vec<Span>, rows: Vec<Vec<Span>> },
}

/// The table rows of the entries, one per entry, in order.
pub open spec fn rows_spec(ports: Seq<PortView>) -> Seq<Seq<(Seq<char>, Tone)>> {
    ports.map_values(|p: PortView| row_spec(p))
}

/// What `list` prints for `ports`: the notice in yellow when there are none,
/// else the header and one row per entry, in order.
pub fn port_listing(ports: &Vec<PortInfo>, lang: Lang) -> (r: PortListing)
    ensures
        match r {
            PortListing::NoPorts(s) => ports@.len() == 0 && s@ == (no_ports_text(lang), Tone::Yellow),
            PortListing::Table { header, rows } => ports@.len() > 0 && span_views(header@)
                == header_spec() && line_views(rows@) == rows_spec(port_views(ports@)),
        },
{
    if ports.len() == 0 {
        return PortListing::NoPorts(no_ports_notice(lang));
    }
    let mut rows: Vec<Vec<Span>> = Vec::new();
    for i in 0..ports.len()
        invariant
            rows@.len() == i,
            forall|j: int| 0 <= j < i ==> #[trigger] span_views(rows@[j]@) == row_spec(ports@[j]@),
    {
        rows.push(port_table_row(&ports[i]));
    }
    assert(line_views(rows@) =~= rows_spec(port_views(ports@)));
    PortListing::Table { header: port_table_header(), rows }
}

/// The lines that `check <port>` prints.
pub open spec fn check_spec(port: u16, info: Option<PortView>, lang: Lang) -> Seq<
    Seq<(Seq<char>, Tone)>,
> {
    match info {
        Some(p) => seq![
            match lang {
                Lang::En => seq![
                    ("Port "@, Tone::Plain),
                    (decimal(port as nat), Tone::RedBold),
                    (" is used by "@, Tone::Plain),
                    (p.process_name, Tone::Cyan),
                    (" (PID: "@, Tone::Plain),
                    (decimal(p.pid as nat), Tone::Yellow),
                    (")"@, Tone::Plain),
                ],
                Lang::Ja => seq![
                    ("ポート "@, Tone::Plain),
                    (decimal(port as nat), Tone::RedBold),
                    (" は "@, Tone::Plain),
                    (p.process_name, Tone::Cyan),
                    (" (PID: "@, Tone::Plain),
                    (decimal(p.pid as nat), Tone::Yellow),
                    (") が使用中"@, Tone::Plain),
                ],
            },
            seq![
                (match lang {
                    Lang::En => "  Command: "@,
                    Lang::Ja => "  コマンド: "@,
                } + p.command, Tone::Plain),
            ],
        ],
        None => seq![
            match lang {
                Lang::En => seq![
                    ("Port "@, Tone::Plain),
                    (decimal(port as nat), Tone::Bold),
                    (" is "@, Tone::Plain),
                    ("free"@, Tone::Green),
                ],
                Lang::Ja => seq![
                    ("ポート "@, Tone::Plain),
                    (decimal(port as nat), Tone::Bold),
                    (" は"@, Tone::Plain),
                    ("未使用"@, Tone::Green),
                ],
            },
        ],
    }
}

pub open spec fn opt_view(info: Option<&PortInfo>) -> Option<PortView> {
    match info {
        Some(p) => Some(p@),
        None => None,
    }
}

/// The lines that `check <port>` prints, given what is on the port.
pub fn check_result_lines(port: u16, info: Option<&PortInfo>, lang: Lang) -> (r: Vec<Vec<Span>>)
    ensures
        line_views(r@) == check_spec(port, opt_view(info), lang),
{
    let mut r: Vec<Vec<Span>> = Vec::new();
    match info {
        Some(p) => {
            let mut first: Vec<Span> = Vec::new();
            match lang {
                Lang::En => {
                    first.push(lit("Port ", Tone::Plain));
                    first.push(span(decimal_string(port as u64), Tone::RedBold));
                    first.push(lit(" is used by ", Tone::Plain));
                    first.push(span(p.process_name.clone(), Tone::Cyan));
                    first.push(lit(" (PID: ", Tone::Plain));
                    first.push(span(decimal_string(p.pid as u64), Tone::Yellow));
                    first.push(lit(")", Tone::Plain));
                },
                Lang::Ja => {
                    first.push(lit("ポート ", Tone::Plain));
                    first.push(span(decimal_string(port as u64), Tone::RedBold));
                    first.push(lit(" は ", Tone::Plain));
                    first.push(span(p.process_name.clone(), Tone::Cyan));
                    first.push(lit(" (PID: ", Tone::Plain));
                    first.push(span(decimal_string(p.pid as u64), Tone::Yellow));
                    first.push(lit(") が使用中", Tone::Plain));
                },
            }
            let label = match lang {
                Lang::En => string_from("  Command: "),
                Lang::Ja => string_from("  コマンド: "),
            };
            let mut second: Vec<Span> = Vec::new();
            second.push(span(concat(label, p.command.as_str()), Tone::Plain));
            assert(span_views(first@) =~= check_spec(port, opt_view(info), lang)[0]);
            assert(span_views(second@) =~= check_spec(port, opt_view(info), lang)[1]);
            r.push(first);
            r.push(second);
        },
        None => {
            let mut first: Vec<Span> = Vec::new();
            match lang {
                Lang::En => {
                    first.push(lit("Port ", Tone::Plain));
                    first.push(span(decimal_string(port as u64), Tone::Bold));
                    first.push(lit(" is ", Tone::Plain));
                    first.push(lit("free", Tone::Green));
                },
                Lang::Ja => {
                    first.push(lit("ポート ", Tone::Plain));
                    first.push(span(decimal_string(port as u64), Tone::Bold));
                    first.push(lit(" は", Tone::Plain));
                    first.push(lit("未使用", Tone::Green));
                },
            }
            assert(span_views(first@) =~= check_spec(port, opt_view(info), lang)[0]);
            r.push(first);
        },
    }
    assert(line_views(r@) =~= check_spec(port, opt_view(info), lang));
    r
}

/// The signal a kill sends: `SIGKILL` when forced, else `SIGTERM`.
pub open spec fn signal_text(force: bool) -> Seq<char> {
    if force {
        "SIGKILL"@
    } else {
        "SIGTERM"@
    }
}

/// The line that `kill <port>` prints, given what was on the port and how
/// sending the signal went.
pub open spec fn kill_spec(port: u16, p: PortView, outcome: Result<(), Seq<char>>, force: bool, lang: Lang) -> (bool, Seq<(Seq<char>, Tone)>) {
    match outcome {
        Ok(()) => (false, match lang {
            Lang::En => seq![
                ("✓"@, Tone::Green),
                (" Sent "@ + signal_text(force) + " to process "@, Tone::Plain),
                (p.process_name, Tone::Cyan),
                (" (PID: "@ + decimal(p.pid as nat) + ") on port "@ + decimal(port as nat), Tone::Plain),
            ],
            Lang::Ja => seq![
                ("✓"@, Tone::Green),
                (" ポート "@ + decimal(port as nat) + " のプロセス "@, Tone::Plain),
                (p.process_name, Tone::Cyan),
                (" (PID: "@ + decimal(p.pid as nat) + ") に "@ + signal_text(force) + " を送信しました"@, Tone::Plain),
            ],
        }),
        Err(e) => (true, seq![("✗"@, Tone::Red), (" "@ + e, Tone::Plain)]),
    }
}

/// The text of a line: its runs one after another.
pub open spec fn joined(spans: Seq<(Seq<char>, Tone)>) -> Seq<char>
    decreases spans.len(),
{
    if spans.len() == 0 {
        seq![]
    } else {
        joined(spans.drop_last()) + spans.last().0
    }
}

/// The signal named in a kill notice, written out.
pub open spec fn sent_signal_word(force: bool) -> Seq<char> {
    if force {
        "SIGKILL"@
    } else {
        "SIGTERM"@
    }
}

/// A successful kill is reported with the signal that was sent, in either
/// language: the line holds `SIGKILL` when forced and `SIGTERM` when not, so
/// the forced and unforced reports differ.
pub proof fn lemma_kill_notice_names_signal(port: u16, p: PortView, force: bool, lang: Lang)
    ensures
        has_substring(joined(kill_spec(port, p, Ok(()), force, lang).1), sent_signal_word(force)),
        joined(kill_spec(port, p, Ok(()), true, lang).1) != joined(
            kill_spec(port, p, Ok(()), false, lang).1,
        ),
{
    let k = "SIGKILL"@;
    let t = "SIGTERM"@;
    reveal_strlit("SIGKILL");
    reveal_strlit("SIGTERM");
    let (a, c) = notice_around_signal(port, p, lang);
    lemma_joined_around_signal(port, p, force, lang);
    lemma_joined_around_signal(port, p, true, lang);
    lemma_joined_around_signal(port, p, false, lang);
    crate::text::lemma_infix_is_substring(a, sent_signal_word(force), c);
    let i: int = a.len() as int + 3;
    assert((a + k + c)[i] == k[3]);
    assert((a + t + c)[i] == t[3]);
}

/// The text of a successful kill notice before and after the signal's name.
pub open spec fn notice_around_signal(port: u16, p: PortView, lang: Lang) -> (Seq<char>, Seq<char>) {
    match lang {
        Lang::En => (
            "✓"@ + " Sent "@,
            " to process "@ + p.process_name + (" (PID: "@ + decimal(p.pid as nat) + ") on port "@
                + decimal(port as nat)),
        ),
        Lang::Ja => (
            "✓"@ + (" ポート "@ + decimal(port as nat) + " のプロセス "@) + p.process_name + (
            " (PID: "@ + decimal(p.pid as nat) + ") に "@),
            " を送信しました"@,
        ),
    }
}

proof fn lemma_joined_around_signal(port: u16, p: PortView, force: bool, lang: Lang)
    ensures
        joined(kill_spec(port, p, Ok(()), force, lang).1) == notice_around_signal(port, p, lang).0
            + sent_signal_word(force) + notice_around_signal(port, p, lang).1,
{
    let s = kill_spec(port, p, Ok(()), force, lang).1;
    let s3 = s.drop_last();
    let s2 = s3.drop_last();
    let s1 = s2.drop_last();
    assert(s1.drop_last() =~= Seq::<(Seq<char>, Tone)>::empty());
    assert(s1.len() == 1);
    assert(s1.last() == s[0]);
    assert(joined(s1.drop_last()) == Seq::<char>::empty());
    assert(joined(s1) == joined(s1.drop_last()) + s1.last().0);
    assert(joined(s1) =~= s[0].0);
    assert(joined(s2) == joined(s1) + s[1].0);
    assert(joined(s3) == joined(s2) + s[2].0);
    assert(joined(s) == joined(s3) + s[3].0);
    assert(joined(s) =~= s[0].0 + s[1].0 + s[2].0 + s[3].0);
    assert(signal_text(force) == sent_signal_word(force));
    assert(joined(s) =~= notice_around_signal(port, p, lang).0 + sent_signal_word(force)
        + notice_around_signal(port, p, lang).1);
}

pub open spec fn outcome_view(outcome: &Result<(), String>) -> Result<(), Seq<char>> {
    match outcome {
        Ok(()) => Ok(()),
        Err(e) => Err(e@),
    }
}

/// The name of the signal a kill sends.
pub fn signal_name(force: bool) -> (r: &'static str)
    ensures
        r@ == signal_text(force),
{
    if force {
        "SIGKILL"
    } else {
        "SIGTERM"
    }
}

/// The line that `kill <port>` prints after sending the signal (`SIGKILL`
/// when `force`, else `SIGTERM`) to the process `info` on `port`.
pub fn kill_result_notice(
    port: u16,
    info: &PortInfo,
    outcome: &Result<(), String>,
    force: bool,
    lang: Lang,
) -> (r: Notice)
    ensures
        (r.to_stderr, span_views(r.spans@)) == kill_spec(port, info@, outcome_view(outcome), force, lang),
{
    let mut spans: Vec<Span> = Vec::new();
    match outcome {
        Ok(()) => {
            let sig = signal_name(force);
            spans.push(lit("✓", Tone::Green));
            match lang {
                Lang::En => {
                    spans.push(span(concat(concat(string_from(" Sent "), sig), " to process "), Tone::Plain));
                    spans.push(span(info.process_name.clone(), Tone::Cyan));
                    let pid = decimal_string(info.pid as u64);
                    let portd = decimal_string(port as u64);
                    spans.push(span(concat(concat(concat(string_from(" (PID: "), pid.as_str()), ") on port "), portd.as_str()), Tone::Plain));
                },
                Lang::Ja => {
                    let portd = decimal_string(port as u64);
                    spans.push(span(concat(concat(string_from(" ポート "), portd.as_str()), " のプロセス "), Tone::Plain));
                    spans.push(span(info.process_name.clone(), Tone::Cyan));
                    let pid = decimal_string(info.pid as u64);
                    spans.push(span(concat(concat(concat(concat(string_from(" (PID: "), pid.as_str()), ") に "), sig), " を送信しました"), Tone::Plain));
                },
            }
            assert(span_views(spans@) =~= kill_spec(port, info@, outcome_view(outcome), force, lang).1);
            Notice { to_stderr: false, spans }
        },
        Err(e) => {
            spans.push(lit("✗", Tone::Red));
            spans.push(span(concat(string_from(" "), e.as_str()), Tone::Plain));
            assert(span_views(spans@) =~= kill_spec(port, info@, outcome_view(outcome), force, lang).1);
            Notice { to_stderr: true, spans }
        },
    }
}

/// What `kill <port>` says when nothing listens on the port.
pub fn port_unused_text(port: u16, lang: Lang) -> (r: String)
    ensures
        r@ == (match lang {
            Lang::En => "Port "@ + decimal(port as nat) + " is not in use"@,
            Lang::Ja => "ポート "@ + decimal(port as nat) + " は未使用です"@,
        }),
{
    let d = decimal_string(port as u64);
    match lang {
        Lang::En => concat(concat(string_from("Port "), d.as_str()), " is not in use"),
        Lang::Ja => concat(concat(string_from("ポート "), d.as_str()), " は未使用です"),
    }
}

/// The banner's colors, by column: red, yellow, green, cyan, blue, magenta,
/// and again.
pub open spec fn rainbow(i: int) -> Tone {
    let k = i % 6;
    if k == 0 {
        Tone::Red
    } else if k == 1 {
        Tone::Yellow
    } else if k == 2 {
        Tone::Green
    } else if k == 3 {
        Tone::Cyan
    } else if k == 4 {
        Tone::Blue
    } else {
        Tone::Magenta
    }
}

pub fn rainbow_tone(i: usize) -> (t: Tone)
    ensures
        t == rainbow(i as int),
{
    let k = i % 6;
    if k == 0 {
        Tone::Red
    } else if k == 1 {
        Tone::Yellow
    } else if k == 2 {
        Tone::Green
    } else if k == 3 {
        Tone::Cyan
    } else if k == 4 {
        Tone::Blue
    } else {
        Tone::Magenta
    }
}

/// Each character of a line as a run of its own, colored by its column.
pub open spec fn rainbow_line(l: Seq<char>) -> Seq<(Seq<char>, Tone)> {
    l.map(|i: int, c: char| (seq![c], rainbow(i)))
}

/// Each line of `figure`, each character colored by its column.
pub open spec fn painted(figure: Seq<char>) -> Seq<Seq<(Seq<char>, Tone)>> {
    lines(figure).map_values(|l: Seq<char>| rainbow_line(l))
}

/// The banner lines of a rendered figure: each line of `figure`, each
/// character colored by its column.
pub fn rainbow_lines(figure: &str) -> (r: Vec<Vec<Span>>)
    ensures
        line_views(r@) == painted(figure@),
{
    let ls = split_lines(&chars_of(figure));
    let ghost target = lines(figure@).map_values(|l: Seq<char>| rainbow_line(l));
    let mut r: Vec<Vec<Span>> = Vec::new();
    for k in 0..ls.len()
        invariant
            views(ls@) == lines(figure@),
            target == lines(figure@).map_values(|l: Seq<char>| rainbow_line(l)),
            r@.len() == k,
            forall|j: int| 0 <= j < k ==> #[trigger] span_views(r@[j]@) == target[j],
    {
        let line = &ls[k];
        assert(views(ls@)[k as int] == line@);
        let mut out: Vec<Span> = Vec::new();
        for i in 0..line.len()
            invariant
                out@.len() == i,
                i <= line@.len(),
                rainbow_line(line@).len() == line@.len(),
                span_views(out@) == rainbow_line(line@).take(i as int),
        {
            let mut one = String::new();
            push_char(&mut one, line[i]);
            assert(one@ =~= seq![line@[i as int]]);
            let ghost before = out@;
            out.push(span(one, rainbow_tone(i)));
            assert(span_views(out@) == span_views(before).push(out@[i as int]@));
            assert(rainbow_line(line@)[i as int] == (seq![line@[i as int]], rainbow(i as int)));
            assert(span_views(out@) =~= rainbow_line(line@).take(i + 1));
        }
        assert(rainbow_line(line@).take(line.len() as int) =~= rainbow_line(line@));
        r.push(out);
    }
    assert(line_views(r@) =~= target);
    r
}

/// The text of `message` rendered in the standard figlet font of
/// `figlet_rs`, rows separated by newlines; `None` when there is no figure.
pub uninterp spec fn standard_figure(message: Seq<char>) -> Option<Seq<char>>;

/// Whether every character of `s` is printable ASCII (space to `~`).
pub open spec fn printable_ascii(s: Seq<char>) -> bool {
    forall|i: int| 0 <= i < s.len() ==> ' ' <= #[trigger] s[i] <= '~'
}

/// Calls `figlet_rs::FIGfont::standard`, then `FIGfont::convert` on
/// `message`, and writes the figure out with its `Display` (each row followed
/// by a newline). The result is named `standard_figure(message)`. The crate's
/// source gives no figure for an empty message (`convert`); it reads a glyph
/// for every printable ASCII character from its built-in font, whose parse
/// its own test shows to succeed, so a non-empty printable ASCII message
/// gives a figure. The rows themselves are not stated.
#[verifier::external_body]
fn render_standard(message: &str) -> (r: Option<String>)
    ensures
        match r {
            Some(s) => standard_figure(message@) == Some(s@),
            None => standard_figure(message@) is None,
        },
        message@.len() == 0 ==> r is None,
        message@.len() > 0 && printable_ascii(message@) ==> r is Some,
{
    match FIGfont::standard() {
        Ok(font) => font.convert(message).map(|figure| figure.to_string()),
        Err(_) => None,
    }
}

/// The startup banner: "pwatch" in the standard figlet font, each line's
/// characters colored by column.
pub fn banner() -> (r: Option<Vec<Vec<Span>>>)
    ensures
        r is Some,
        match standard_figure("pwatch"@) {
            Some(f) => r matches Some(ls) && line_views(ls@) == painted(f),
            None => r is None,
        },
{
    let message = "pwatch";
    proof {
        reveal_strlit("pwatch");
    }
    assert(message@.len() > 0 && printable_ascii(message@));
    match render_standard(message) {
        Some(text) => {
            let ls = rainbow_lines(text.as_str());
            Some(ls)
        },
        None => None,
    }
}

} // verus!
