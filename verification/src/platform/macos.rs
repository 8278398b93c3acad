//! The macOS scanner: it reads the listing of `lsof -iTCP -sTCP:LISTEN -P -n -l`
//! and the listing of `ps -o pid=,command= -p <pids>`.
use crate::port::{port_views, sort_by_port, stably_sorted, PortInfo, PortView};
use crate::text::{
    chars_of, decimal, decimal_chars, is_whitespace, is_ws, lines, parse_unsigned, push_char,
    split_lines, split_words, string_of, unsigned_value, views, words,
};
use std::collections::HashMap;
use vstd::prelude::*;

verus! {

broadcast use vstd::std_specs::hash::group_hash_axioms;

/// Port scanner for macOS.
pub struct MacosScanner;

/// The part of `s` after its last `:` (all of `s` when it has none), as the
/// first item of std's `rsplit(':')`.
pub open spec fn after_last_colon(s: Seq<char>) -> Seq<char>
    decreases s.len(),
{
    if s.len() == 0 {
        s
    } else if s.last() == ':' {
        seq![]
    } else {
        after_last_colon(s.drop_last()).push(s.last())
    }
}

fn last_segment(s: &Vec<char>) -> (r: Vec<char>)
    ensures
        r@ == after_last_colon(s@),
{
    let mut start: usize = 0;
    let mut i: usize = 0;
    while i < s.len()
        invariant
            start <= i <= s.len(),
            after_last_colon(s@.take(i as int)) == s@.subrange(start as int, i as int),
        decreases s.len() - i,
    {
        assert(s@.take(i + 1).drop_last() == s@.take(i as int));
        if s[i] == ':' {
            start = i + 1;
        }
        assert(after_last_colon(s@.take(i + 1)) =~= s@.subrange(start as int, i + 1));
        i = i + 1;
    }
    assert(s@.take(s.len() as int) == s@);
    let mut r: Vec<char> = Vec::new();
    let mut k = start;
    while k < s.len()
        invariant
            start <= k <= s.len(),
            r@ == s@.subrange(start as int, k as int),
        decreases s.len() - k,
    {
        r.push(s[k]);
        assert(r@ =~= s@.subrange(start as int, k + 1));
        k = k + 1;
    }
    r
}

/// What one line of the `lsof` listing says: the PID, the process name and
/// the port, when the line has at least nine fields, its second field is a
/// PID and the part of its last field after the last `:` is a port number.
/// (Fields: COMMAND PID USER FD TYPE DEVICE SIZE/OFF NODE NAME.)
pub open spec fn lsof_entry(line: Seq<char>) -> Option<(u32, Seq<char>, u16)> {
    let f = words(line);
    if f.len() < 9 {
        None
    } else {
        match unsigned_value(f[1], u32::MAX as nat) {
            None => None,
            Some(pid) => match unsigned_value(after_last_colon(f.last()), u16::MAX as nat) {
                None => None,
                Some(port) => Some((pid as u32, f[0], port as u16)),
            },
        }
    }
}

/// An entry as plain values.
pub open spec fn entry_view(e: (u32, String, u16)) -> (u32, Seq<char>, u16) {
    (e.0, e.1@, e.2)
}

pub open spec fn entry_views(s: Seq<(u32, String, u16)>) -> Seq<(u32, Seq<char>, u16)> {
    s.map_values(|e: (u32, String, u16)| entry_view(e))
}

fn parse_lsof_chars(line: &Vec<char>) -> (r: Option<(u32, String, u16)>)
    ensures
        match lsof_entry(line@) {
            Some(e) => r matches Some(x) && entry_view(x) == e,
            None => r is None,
        },
{
    let fields = split_words(line);
    assert(views(fields@) == words(line@));
    let n = fields.len();
    if n < 9 {
        return None;
    }
    assert(views(fields@)[1] == fields@[1]@);
    assert(views(fields@)[0] == fields@[0]@);
    assert(views(fields@)[n - 1] == fields@[n - 1]@);
    let pid = match parse_unsigned(&fields[1], 0xffff_ffff) {
        Some(v) => v,
        None => {
            return None;
        },
    };
    let tail = last_segment(&fields[n - 1]);
    let port = match parse_unsigned(&tail, 0xffff) {
        Some(v) => v,
        None => {
            return None;
        },
    };
    let name = string_of(&fields[0]);
    Some((pid as u32, name, port as u16))
}

/// Parses one line of the `lsof` listing into (PID, process name, port).
pub fn parse_lsof_line(line: &str) -> (r: Option<(u32, String, u16)>)
    ensures
        match lsof_entry(line@) {
            Some(e) => r matches Some(x) && entry_view(x) == e,
            None => r is None,
        },
{
    let v = chars_of(line);
    parse_lsof_chars(&v)
}

/// The entries of those lines that parse, in order.
pub open spec fn parsed_entries(ls: Seq<Seq<char>>) -> Seq<(u32, Seq<char>, u16)>
    decreases ls.len(),
{
    if ls.len() == 0 {
        seq![]
    } else {
        match lsof_entry(ls.last()) {
            Some(e) => parsed_entries(ls.drop_last()).push(e),
            None => parsed_entries(ls.drop_last()),
        }
    }
}

/// The lines of `s` but its first (the header).
pub open spec fn body_lines(s: Seq<char>) -> Seq<Seq<char>> {
    let ls = lines(s);
    if ls.len() == 0 {
        ls
    } else {
        ls.drop_first()
    }
}

/// The PIDs of the entries, in order.
pub open spec fn pids_of(s: Seq<(u32, Seq<char>, u16)>) -> Seq<u32> {
    s.map_values(|e: (u32, Seq<char>, u16)| e.0)
}

/// What one line of the `ps` listing says: the PID before its first space
/// (leading whitespace skipped) and the command after it (leading
/// whitespace skipped).
pub open spec fn ps_entry(line: Seq<char>) -> Option<(u32, Seq<char>)> {
    let t = trim_start(line);
    let p = index_of_space(t);
    if p < 0 {
        None
    } else {
        match unsigned_value(t.take(p), u32::MAX as nat) {
            None => None,
            Some(pid) => Some((pid as u32, trim_start(t.skip(p)))),
        }
    }
}

/// `s` without its leading whitespace, as std's `str::trim_start`.
pub open spec fn trim_start(s: Seq<char>) -> Seq<char>
    decreases s.len(),
{
    if s.len() > 0 && is_ws(s[0]) {
        trim_start(s.drop_first())
    } else {
        s
    }
}

/// The index of the first space in `s`, or -1 (std's `str::find(' ')`).
pub open spec fn index_of_space(s: Seq<char>) -> int
    decreases s.len(),
{
    if s.len() == 0 {
        -1
    } else if s[0] == ' ' {
        0
    } else {
        let r = index_of_space(s.drop_first());
        if r < 0 {
            -1
        } else {
            r + 1
        }
    }
}

/// The command of each PID that the `ps` listing names; a later line for
/// the same PID replaces an earlier one.
pub open spec fn ps_commands(ls: Seq<Seq<char>>) -> Map<u32, Seq<char>>
    decreases ls.len(),
{
    if ls.len() == 0 {
        Map::empty()
    } else {
        let m = ps_commands(ls.drop_last());
        match ps_entry(ls.last()) {
            Some((pid, cmd)) => m.insert(pid, cmd),
            None => m,
        }
    }
}

/// The views of the commands of a map.
pub open spec fn command_views(m: Map<u32, String>) -> Map<u32, Seq<char>> {
    m.map_values(|s: String| s@)
}

fn trim_start_from(s: &Vec<char>, from: usize) -> (r: usize)
    requires
        from <= s.len(),
    ensures
        from <= r <= s.len(),
        s@.subrange(r as int, s.len() as int) == trim_start(s@.subrange(from as int, s.len() as int)),
{
    let mut i = from;
    while i < s.len() && is_whitespace(s[i])
        invariant
            from <= i <= s.len(),
            trim_start(s@.subrange(i as int, s.len() as int)) == trim_start(
                s@.subrange(from as int, s.len() as int),
            ),
        decreases s.len() - i,
    {
        assert(s@.subrange(i as int, s.len() as int).drop_first() == s@.subrange(
            i + 1,
            s.len() as int,
        ));
        i = i + 1;
    }
    i
}

fn copy_range(s: &Vec<char>, from: usize, to: usize) -> (r: Vec<char>)
    requires
        from <= to <= s.len(),
    ensures
        r@ == s@.subrange(from as int, to as int),
{
    let mut r: Vec<char> = Vec::new();
    let mut k = from;
    while k < to
        invariant
            from <= k <= to <= s.len(),
            r@ == s@.subrange(from as int, k as int),
        decreases to - k,
    {
        r.push(s[k]);
        assert(r@ =~= s@.subrange(from as int, k + 1));
        k = k + 1;
    }
    r
}

proof fn lemma_index_of_space(s: Seq<char>, i: int)
    requires
        0 <= i <= s.len(),
        forall|j: int| 0 <= j < i ==> s[j] != ' ',
    ensures
        i < s.len() && s[i] == ' ' ==> index_of_space(s) == i,
        i == s.len() ==> index_of_space(s) == -1,
    decreases i,
{
    if i > 0 {
        lemma_index_of_space(s.drop_first(), i - 1);
    } else if s.len() == 0 {
    }
}

proof fn lemma_trim_start_skips(w: Seq<char>, r: Seq<char>)
    requires
        forall|i: int| 0 <= i < w.len() ==> is_ws(#[trigger] w[i]),
    ensures
        trim_start(w + r) == trim_start(r),
    decreases w.len(),
{
    if w.len() > 0 {
        assert((w + r)[0] == w[0]);
        assert((w + r).drop_first() == w.drop_first() + r);
        lemma_trim_start_skips(w.drop_first(), r);
    } else {
        assert(w + r == r);
    }
}

/// Leading whitespace does not change what a `ps` line says.
pub proof fn lemma_ps_line_ignores_indent(w: Seq<char>, line: Seq<char>)
    requires
        forall|i: int| 0 <= i < w.len() ==> is_ws(#[trigger] w[i]),
    ensures
        ps_entry(w + line) == ps_entry(line),
{
    lemma_trim_start_skips(w, line);
}

/// A `ps` line made of indentation `w`, the PID `pid` in decimal, a space and
/// a command `cmd` (not starting with whitespace) says that process `pid`
/// runs `cmd`; the listing of that one line maps `pid` to `cmd` alone.
pub proof fn lemma_ps_line(w: Seq<char>, pid: u32, cmd: Seq<char>)
    requires
        forall|i: int| 0 <= i < w.len() ==> is_ws(#[trigger] w[i]),
        cmd.len() == 0 || !is_ws(cmd[0]),
    ensures
        ps_entry(w + decimal(pid as nat) + seq![' '] + cmd) == Some((pid, cmd)),
        ps_commands(seq![w + decimal(pid as nat) + seq![' '] + cmd]) == Map::<u32, Seq<char>>::empty().insert(
            pid,
            cmd,
        ),
{
    let d = decimal(pid as nat);
    crate::text::lemma_decimal_reads_back(pid as nat);
    let l = d + seq![' '] + cmd;
    assert(w + d + seq![' '] + cmd == w + l);
    lemma_ps_line_ignores_indent(w, l);
    assert(!is_ws(l[0])) by {
        assert(l[0] == d[0]);
        assert(crate::text::is_digit(d[0]));
    }
    assert(trim_start(l) == l);
    assert forall|j: int| 0 <= j < d.len() implies l[j] != ' ' by {
        assert(l[j] == d[j]);
        assert(crate::text::is_digit(d[j]));
    }
    assert(l[d.len() as int] == ' ');
    lemma_index_of_space(l, d.len() as int);
    assert(l.take(d.len() as int) =~= d);
    assert(d[0] != '+') by {
        assert(crate::text::is_digit(d[0]));
    }
    assert(unsigned_value(d, u32::MAX as nat) == Some(pid as nat));
    assert(l.skip(d.len() as int) =~= seq![' '] + cmd);
    assert((seq![' '] + cmd).drop_first() =~= cmd);
    assert(trim_start(cmd) == cmd);
    assert(trim_start(seq![' '] + cmd) == trim_start(cmd));
    let ls = seq![w + d + seq![' '] + cmd];
    assert(ls.drop_last() =~= Seq::<Seq<char>>::empty());
    assert(ls.last() == w + d + seq![' '] + cmd);
    assert(ps_commands(ls.drop_last()) == Map::<u32, Seq<char>>::empty());
    assert(ps_commands(ls) == ps_commands(ls.drop_last()).insert(pid, cmd));
}

fn parse_ps_chars(line: &Vec<char>) -> (r: Option<(u32, String)>)
    ensures
        match ps_entry(line@) {
            Some(e) => r matches Some(x) && x.0 == e.0 && x.1@ == e.1,
            None => r is None,
        },
{
    let st = trim_start_from(line, 0);
    assert(line@.subrange(0, line.len() as int) == line@);
    let ghost t = trim_start(line@);
    assert(t == line@.subrange(st as int, line.len() as int));
    let mut p = st;
    while p < line.len() && line[p] != ' '
        invariant
            st <= p <= line.len(),
            t == line@.subrange(st as int, line.len() as int),
            forall|j: int| 0 <= j < p - st ==> t[j] != ' ',
        decreases line.len() - p,
    {
        p = p + 1;
    }
    proof {
        lemma_index_of_space(t, p - st);
    }
    if p == line.len() {
        return None;
    }
    let pid_chars = copy_range(line, st, p);
    assert(pid_chars@ == t.take(p - st));
    let pid = match parse_unsigned(&pid_chars, 0xffff_ffff) {
        Some(v) => v,
        None => {
            return None;
        },
    };
    let cs = trim_start_from(line, p);
    assert(line@.subrange(p as int, line.len() as int) == t.skip(p - st));
    let cmd = copy_range(line, cs, line.len());
    Some((pid as u32, string_of(&cmd)))
}

/// The port entry that `lsof` entry `e` makes, its command looked up in `cmds`
/// (empty when `ps` gave none for its PID).
pub open spec fn tcp_port(e: (u32, Seq<char>, u16), cmds: Map<u32, Seq<char>>) -> PortView {
    PortView {
        port: e.2,
        protocol: "tcp"@,
        pid: e.0,
        process_name: e.1,
        command: if cmds.contains_key(e.0) {
            cmds[e.0]
        } else {
            seq![]
        },
    }
}

pub open spec fn tcp_ports(es: Seq<(u32, Seq<char>, u16)>, cmds: Map<u32, Seq<char>>) -> Seq<
    PortView,
> {
    es.map_values(|e: (u32, Seq<char>, u16)| tcp_port(e, cmds))
}

/// The PIDs in decimal, separated by commas.
pub open spec fn comma_list(pids: Seq<u32>) -> Seq<char>
    decreases pids.len(),
{
    if pids.len() == 0 {
        seq![]
    } else if pids.len() == 1 {
        decimal(pids[0] as nat)
    } else {
        comma_list(pids.drop_last()).push(',') + decimal(pids.last() as nat)
    }
}

impl MacosScanner {
    /// The (PID, process name, port) of each listening socket in the `lsof`
    /// listing: its header line is skipped, lines that do not parse are left
    /// out, the others keep their order.
    pub fn listening_entries(lsof_out: &str) -> (r: Vec<(u32, String, u16)>)
        ensures
            entry_views(r@) == parsed_entries(body_lines(lsof_out@)),
    {
        let chars = chars_of(lsof_out);
        let ls = split_lines(&chars);
        let ghost body = body_lines(lsof_out@);
        let mut r: Vec<(u32, String, u16)> = Vec::new();
        if ls.len() == 0 {
            assert(entry_views(r@) =~= parsed_entries(body));
            return r;
        }
        assert(body == views(ls@).drop_first());
        let mut i: usize = 1;
        while i < ls.len()
            invariant
                1 <= i <= ls.len(),
                body == views(ls@).drop_first(),
                entry_views(r@) == parsed_entries(body.take(i - 1)),
            decreases ls.len() - i,
        {
            assert(body.take(i as int).drop_last() == body.take(i - 1));
            assert(body.take(i as int).last() == ls@[i as int]@);
            let ghost before = r@;
            match parse_lsof_chars(&ls[i]) {
                Some(e) => {
                    r.push(e);
                    assert(entry_views(r@) =~= entry_views(before).push(entry_view(e)));
                },
                None => {},
            }
            i = i + 1;
        }
        assert(body.take(ls.len() - 1) == body);
        r
    }

    /// The PIDs of the entries, in order: the list handed to `ps`.
    pub fn pids(entries: &Vec<(u32, String, u16)>) -> (r: Vec<u32>)
        ensures
            r@ == pids_of(entry_views(entries@)),
    {
        let mut r: Vec<u32> = Vec::new();
        for i in 0..entries.len()
            invariant
                r@ == pids_of(entry_views(entries@)).take(i as int),
        {
            r.push(entries[i].0);
            assert(r@ =~= pids_of(entry_views(entries@)).take(i + 1));
        }
        assert(pids_of(entry_views(entries@)).take(entries.len() as int) =~= pids_of(
            entry_views(entries@),
        ));
        r
    }

    /// The `-p` argument of `ps`: the PIDs joined by commas.
    pub fn pid_argument(pids: &Vec<u32>) -> (r: String)
        ensures
            r@ == comma_list(pids@),
    {
        let mut r = String::new();
        for i in 0..pids.len()
            invariant
                r@ == comma_list(pids@.take(i as int)),
        {
            assert(pids@.take(i + 1).drop_last() == pids@.take(i as int));
            if i > 0 {
                push_char(&mut r, ',');
            }
            let d = decimal_chars(pids[i] as u64);
            let ghost before = r@;
            for k in 0..d.len()
                invariant
                    r@ == before + d@.take(k as int),
            {
                push_char(&mut r, d[k]);
                assert(d@.take(k + 1) == d@.take(k as int).push(d@[k as int]));
                assert(r@ =~= before + d@.take(k + 1));
            }
            assert(d@.take(d.len() as int) == d@);
            assert(r@ =~= comma_list(pids@.take(i + 1)));
        }
        assert(pids@.take(pids.len() as int) == pids@);
        r
    }

    /// The listening ports: one entry per `lsof` entry, protocol `tcp`, the
    /// command from the `ps` map (empty when it has none for the PID),
    /// sorted by port, entries on one port in `lsof` order.
    pub fn assemble(entries: Vec<(u32, String, u16)>, cmds: &HashMap<u32, String>) -> (r: Vec<
        PortInfo,
    >)
        ensures
            stably_sorted(
                tcp_ports(entry_views(entries@), command_views(cmds@)),
                port_views(r@),
            ),
    {
        let ghost target = tcp_ports(entry_views(entries@), command_views(cmds@));
        let mut list: Vec<PortInfo> = Vec::new();
        let mut rest = entries;
        let ghost all = entry_views(rest@);
        // `rest` is consumed from the back; `list` is built reversed, then reversed.
        let mut rev: Vec<PortInfo> = Vec::new();
        while rest.len() > 0
            invariant
                all == entry_views(entries@),
                rest@.len() <= all.len(),
                entry_views(rest@) == all.take(rest@.len() as int),
                port_views(rev@) == tcp_ports(all, command_views(cmds@)).skip(
                    rest@.len() as int,
                ).reverse(),
            decreases rest.len(),
        {
            let ghost before_rest = rest@;
            let ghost before_rev = rev@;
            let (pid, name, port) = rest.pop().unwrap();
            let k = rest.len();
            assert(entry_views(before_rest)[k as int] == all[k as int]);
            assert(entry_views(rest@) =~= all.take(k as int));
            let command = match cmds.get(&pid) {
                Some(c) => c.clone(),
                None => String::new(),
            };
            let info = PortInfo {
                port,
                protocol: String::from_str("tcp"),
                pid,
                process_name: name,
                command,
            };
            assert(info@ == tcp_port(all[k as int], command_views(cmds@)));
            rev.push(info);
            let ghost t = tcp_ports(all, command_views(cmds@));
            assert(port_views(rev@) =~= port_views(before_rev).push(info@));
            assert(t.skip(k as int) =~= seq![t[k as int]] + t.skip(k + 1));
            assert(port_views(rev@) =~= t.skip(k as int).reverse());
        }
        let ghost t = tcp_ports(all, command_views(cmds@));
        assert(t.skip(0) =~= t);
        while rev.len() > 0
            invariant
                port_views(list@) + port_views(rev@).reverse() == t,
            decreases rev.len(),
        {
            let ghost before_rev = rev@;
            let ghost before_list = list@;
            let x = rev.pop().unwrap();
            list.push(x);
            assert(port_views(before_rev) =~= port_views(rev@).push(x@));
            assert(port_views(before_rev).reverse() =~= seq![x@] + port_views(rev@).reverse());
            assert(port_views(list@) =~= port_views(before_list).push(x@));
            assert(port_views(list@) + port_views(rev@).reverse() =~= port_views(before_list)
                + port_views(before_rev).reverse());
        }
        assert(port_views(list@) =~= t);
        sort_by_port(list)
    }

    /// The command line of each PID in the `ps` listing.
    pub fn parse_ps_output(ps_out: &str) -> (r: HashMap<u32, String>)
        ensures
            command_views(r@) == ps_commands(lines(ps_out@)),
    {
        let chars = chars_of(ps_out);
        let ls = split_lines(&chars);
        let ghost all = views(ls@);
        let mut m: HashMap<u32, String> = HashMap::new();
        assert(command_views(m@) =~= ps_commands(all.take(0)));
        for i in 0..ls.len()
            invariant
                all == views(ls@),
                command_views(m@) == ps_commands(all.take(i as int)),
        {
            assert(all.take(i + 1).drop_last() == all.take(i as int));
            assert(all.take(i + 1).last() == ls@[i as int]@);
            let ghost before = m@;
            match parse_ps_chars(&ls[i]) {
                Some((pid, cmd)) => {
                    m.insert(pid, cmd);
                    assert(command_views(m@) =~= command_views(before).insert(pid, cmd@));
                },
                None => {},
            }
        }
        assert(all.take(ls.len() as int) == all);
        m
    }
}

} // verus!
