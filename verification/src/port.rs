//! What is known of one listening port.
use vstd::prelude::*;

verus! {

/// One listening TCP port and the process bound to it.
pub struct PortInfo {
    pub port: u16,
    pub protocol: String,
    pub pid: u32,
    pub process_name: String,
    pub command: String,
}

/// A `PortInfo` as plain values.
pub struct PortView {
    pub port: u16,
    pub protocol: Seq<char>,
    pub pid: u32,
    pub process_name: Seq<char>,
    pub command: Seq<char>,
}

impl View for PortInfo {
    type V = PortView;

    open spec fn view(&self) -> PortView {
        PortView {
            port: self.port,
            protocol: self.protocol@,
            pid: self.pid,
            process_name: self.process_name@,
            command: self.command@,
        }
    }
}

impl Clone for PortInfo {
    fn clone(&self) -> (r: Self)
        ensures
            r@ == self@,
    {
        PortInfo {
            port: self.port,
            protocol: self.protocol.clone(),
            pid: self.pid,
            process_name: self.process_name.clone(),
            command: self.command.clone(),
        }
    }
}

/// The views of a sequence of ports.
pub open spec fn port_views(s: Seq<PortInfo>) -> Seq<PortView> {
    s.map_values(|p: PortInfo| p@)
}

/// The index of the first entry of `s` on port `port`, if any.
pub open spec fn first_on_port(s: Seq<PortView>, port: u16) -> Option<int>
    decreases s.len(),
{
    if s.len() == 0 {
        None
    } else {
        match first_on_port(s.drop_last(), port) {
            Some(i) => Some(i),
            None => if s.last().port == port {
                Some(s.len() - 1)
            } else {
                None
            },
        }
    }
}

/// Looking a port up finds an entry exactly when some entry is on that
/// port, and then it is the earliest entry on it.
pub proof fn lemma_first_on_port(s: Seq<PortView>, port: u16)
    ensures
        (first_on_port(s, port) is Some) <==> (exists|k: int| 0 <= k < s.len() && #[trigger] s[k].port == port),
        first_on_port(s, port) matches Some(i) ==> 0 <= i < s.len() && s[i].port == port && forall|j: int|
            0 <= j < i ==> #[trigger] s[j].port != port,
    decreases s.len(),
{
    if s.len() > 0 {
        let r = s.drop_last();
        lemma_first_on_port(r, port);
        assert forall|k: int| 0 <= k < r.len() implies #[trigger] r[k].port == s[k].port by {}
        if first_on_port(r, port) is None && s.last().port == port {
            assert(s[s.len() - 1].port == port);
            assert forall|j: int| 0 <= j < s.len() - 1 implies #[trigger] s[j].port != port by {
                assert(r[j].port != port);
            }
        }
        if let Some(i) = first_on_port(r, port) {
            assert forall|j: int| 0 <= j < i implies #[trigger] s[j].port != port by {
                assert(r[j].port != port);
            }
        }
        if first_on_port(r, port) is None && s.last().port != port {
            assert forall|k: int| 0 <= k < s.len() implies #[trigger] s[k].port != port by {
                if k < r.len() {
                    assert(r[k].port != port);
                }
            }
        }
    }
}

/// The first entry of `ports` that is bound to `port`: there is one exactly
/// when some entry is on `port`.
pub fn lookup(ports: &Vec<PortInfo>, port: u16) -> (r: Option<&PortInfo>)
    ensures
        match first_on_port(port_views(ports@), port) {
            Some(i) => r matches Some(p) && p@ == ports@[i]@,
            None => r is None,
        },
        (r is Some) <==> (exists|k: int| 0 <= k < ports@.len() && #[trigger] ports@[k].port == port),
        r matches Some(p) ==> p.port == port,
{
    proof {
        let pv = port_views(ports@);
        lemma_first_on_port(pv, port);
        assert forall|k: int| 0 <= k < ports@.len() implies #[trigger] pv[k].port == ports@[k].port by {}
        assert((exists|k: int| 0 <= k < pv.len() && #[trigger] pv[k].port == port) <==> (exists|k: int|
            0 <= k < ports@.len() && #[trigger] ports@[k].port == port)) by {
            if exists|k: int| 0 <= k < pv.len() && #[trigger] pv[k].port == port {
                let k = choose|k: int| 0 <= k < pv.len() && #[trigger] pv[k].port == port;
                assert(ports@[k].port == port);
            }
            if exists|k: int| 0 <= k < ports@.len() && #[trigger] ports@[k].port == port {
                let k = choose|k: int| 0 <= k < ports@.len() && #[trigger] ports@[k].port == port;
                assert(pv[k].port == port);
            }
        }
    }

    let ghost pv = port_views(ports@);
    let mut i: usize = 0;
    while i < ports.len()
        invariant
            i <= ports.len(),
            pv == port_views(ports@),
            first_on_port(pv.take(i as int), port) is None,
        decreases ports.len() - i,
    {
        assert(pv.take(i + 1).drop_last() == pv.take(i as int));
        if ports[i].port == port {
            assert(first_on_port(pv.take(i + 1), port) == Some(i as int));
            proof {
                lemma_first_extends(pv, i as int + 1, port);
            }
            return Some(&ports[i]);
        }
        i = i + 1;
    }
    assert(pv.take(ports.len() as int) == pv);
    None
}

proof fn lemma_first_extends(s: Seq<PortView>, n: int, port: u16)
    requires
        0 <= n <= s.len(),
        first_on_port(s.take(n), port) is Some,
    ensures
        first_on_port(s, port) == first_on_port(s.take(n), port),
    decreases s.len() - n,
{
    if n < s.len() {
        assert(s.take(n + 1).drop_last() == s.take(n));
        lemma_first_extends(s, n + 1, port);
    } else {
        assert(s.take(n) == s);
    }
}

/// Whether the ports of `s` never decrease.
pub open spec fn sorted_by_port(s: Seq<PortView>) -> bool {
    forall|i: int, j: int| 0 <= i < j < s.len() ==> s[i].port <= s[j].port
}

/// The entries of `s` on port `q`, in their order in `s`.
pub open spec fn on_port(s: Seq<PortView>, q: u16) -> Seq<PortView>
    decreases s.len(),
{
    if s.len() == 0 {
        seq![]
    } else if s.last().port == q {
        on_port(s.drop_last(), q).push(s.last())
    } else {
        on_port(s.drop_last(), q)
    }
}

/// `out` is `inp` sorted by port, entries on the same port keeping their
/// order (what std's stable `sort_by_key` on the port gives).
pub open spec fn stably_sorted(inp: Seq<PortView>, out: Seq<PortView>) -> bool {
    &&& sorted_by_port(out)
    &&& forall|q: u16| #[trigger] on_port(out, q) == on_port(inp, q)
}

proof fn lemma_on_port_concat(a: Seq<PortView>, b: Seq<PortView>, q: u16)
    ensures
        on_port(a + b, q) == on_port(a, q) + on_port(b, q),
    decreases b.len(),
{
    if b.len() == 0 {
        assert(a + b == a);
        assert(on_port(b, q) =~= seq![]);
        assert(on_port(a, q) + on_port(b, q) =~= on_port(a, q));
    } else {
        assert((a + b).drop_last() == a + b.drop_last());
        assert((a + b).last() == b.last());
        lemma_on_port_concat(a, b.drop_last(), q);
        if b.last().port == q {
            assert(on_port(a, q) + on_port(b, q) =~= (on_port(a, q) + on_port(b.drop_last(), q)).push(
                b.last(),
            ));
        }
    }
}

proof fn lemma_on_port_none(s: Seq<PortView>, q: u16)
    requires
        forall|i: int| 0 <= i < s.len() ==> s[i].port != q,
    ensures
        on_port(s, q) == Seq::<PortView>::empty(),
    decreases s.len(),
{
    if s.len() > 0 {
        lemma_on_port_none(s.drop_last(), q);
    }
}

/// Sorts by port; entries on the same port keep their order.
pub fn sort_by_port(v: Vec<PortInfo>) -> (r: Vec<PortInfo>)
    ensures
        stably_sorted(port_views(v@), port_views(r@)),
{
    let ghost inp = port_views(v@);
    let mut out: Vec<PortInfo> = Vec::new();
    let mut rest = v;
    let n = rest.len();
    // The entries still to place are `inp.skip(i)`; they are taken from the front.
    let mut i: usize = 0;
    let mut src: Vec<PortInfo> = Vec::new();
    // Reverse `rest` so that `pop` yields the entries in their original order.
    while rest.len() > 0
        invariant
            port_views(rest@) + port_views(src@).reverse() == inp,
        decreases rest.len(),
    {
        let ghost before_src = src@;
        let ghost before_rest = rest@;
        let x = rest.pop().unwrap();
        src.push(x);
        assert(port_views(before_rest) == port_views(rest@).push(x@));
        assert(port_views(src@) == port_views(before_src).push(x@));
        assert(port_views(src@).reverse() =~= seq![x@] + port_views(before_src).reverse());
        assert(port_views(rest@) + port_views(src@).reverse() =~= port_views(before_rest)
            + port_views(before_src).reverse());
    }
    assert(port_views(rest@) =~= Seq::<PortView>::empty());
    assert(port_views(src@).reverse() =~= inp);
    while src.len() > 0
        invariant
            i + src.len() == inp.len(),
            inp.len() == n,
            port_views(src@).reverse() == inp.skip(i as int),
            sorted_by_port(port_views(out@)),
            forall|q: u16| #[trigger] on_port(port_views(out@), q) == on_port(inp.take(i as int), q),
        decreases src.len(),
    {
        let ghost before_src = src@;
        let x = src.pop().unwrap();
        assert(port_views(before_src) == port_views(src@).push(x@));
        assert(port_views(before_src).reverse() == seq![x@] + port_views(src@).reverse());
        assert(inp.skip(i as int)[0] == x@);
        assert(inp[i as int] == x@);
        assert(inp.skip(i + 1) =~= inp.skip(i as int).drop_first());
        assert((seq![x@] + port_views(src@).reverse()).drop_first() =~= port_views(src@).reverse());
        assert(port_views(src@).reverse() =~= inp.skip(i + 1));
        let ghost ov = port_views(out@);
        let mut pos: usize = 0;
        while pos < out.len() && out[pos].port <= x.port
            invariant
                pos <= out.len(),
                ov == port_views(out@),
                forall|k: int| 0 <= k < pos ==> ov[k].port <= x.port,
            decreases out.len() - pos,
        {
            pos = pos + 1;
        }
        assert forall|k: int| pos <= k < ov.len() implies ov[k].port > x.port by {
            assert(ov[pos as int].port > x.port);
        }
        out.insert(pos, x);
        let ghost nv = port_views(out@);
        assert(nv =~= ov.take(pos as int) + seq![x@] + ov.skip(pos as int));
        assert(inp.take(i + 1) =~= inp.take(i as int).push(x@));
        assert forall|q: u16| #[trigger] on_port(nv, q) == on_port(inp.take(i + 1), q) by {
            lemma_on_port_concat(ov.take(pos as int), seq![x@], q);
            lemma_on_port_concat(ov.take(pos as int) + seq![x@], ov.skip(pos as int), q);
            lemma_on_port_concat(ov.take(pos as int), ov.skip(pos as int), q);
            assert(ov.take(pos as int) + ov.skip(pos as int) =~= ov);
            assert(inp.take(i + 1).drop_last() == inp.take(i as int));
            assert(seq![x@].drop_last() =~= Seq::<PortView>::empty());
            assert(on_port(Seq::<PortView>::empty(), q) =~= Seq::<PortView>::empty());
            if x.port == q {
                assert(forall|k: int| 0 <= k < ov.skip(pos as int).len() ==> ov.skip(pos as int)[k].port != q);
                lemma_on_port_none(ov.skip(pos as int), q);
                assert(on_port(seq![x@], q) =~= seq![x@]);
            } else {
                assert(on_port(seq![x@], q) =~= Seq::<PortView>::empty());
            }
        }
        assert(sorted_by_port(nv));
        i = i + 1;
    }
    assert(inp.take(i as int) =~= inp);
    out
}

} // verus!
