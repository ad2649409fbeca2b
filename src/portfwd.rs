use vstd::prelude::*;

verus! {

/// A forward believed to be active: local and remote port are the same.
#[derive(Debug, Clone, Copy, PartialEq, Eq, Structural)]
pub struct PortForward {
    pub local_port: u16,
}

/// One socket as reported by the operating system, reduced to what the
/// registry reads: its local port, whether it is a listening TCP socket, and
/// the processes that own it.
#[derive(Debug, Clone)]
pub struct SocketRecord {
    pub local_port: u16,
    pub listening: bool,
    pub pids: Vec<u32>,
}

/// Ports strictly ascending, hence no port twice.
pub open spec fn sorted_unique(s: Seq<PortForward>) -> bool {
    forall|i: int, j: int| 0 <= i < j < s.len() ==> s[i].local_port < s[j].local_port
}

/// Whether a forward list holds the port.
pub open spec fn holds_port(s: Seq<PortForward>, p: u16) -> bool {
    exists|i: int| 0 <= i < s.len() && s[i].local_port == p
}

/// A socket that stands for a forward of the process `pid`.
pub open spec fn is_forward_of(r: SocketRecord, pid: u32) -> bool {
    r.listening && r.pids@.contains(pid)
}

/// Two sorted lists without duplicates that hold the same ports are equal.
pub proof fn lemma_sorted_unique_determined(a: Seq<PortForward>, b: Seq<PortForward>)
    requires
        sorted_unique(a),
        sorted_unique(b),
        forall|p: u16| holds_port(a, p) <==> holds_port(b, p),
    ensures
        a == b,
    decreases a.len(),
{
    if a.len() == 0 {
        if b.len() > 0 {
            assert(holds_port(b, b[0].local_port));
        }
        assert(a =~= b);
    } else if b.len() == 0 {
        assert(holds_port(a, a[0].local_port));
    } else {
        let x = a[0].local_port;
        let y = b[0].local_port;
        assert(holds_port(a, x));
        assert(holds_port(b, y));
        if x < y {
            let j = choose|j: int| 0 <= j < b.len() && b[j].local_port == x;
            assert(b[0].local_port <= b[j].local_port);
        } else if y < x {
            let j = choose|j: int| 0 <= j < a.len() && a[j].local_port == y;
            assert(a[0].local_port <= a[j].local_port);
        }
        let ta = a.drop_first();
        let tb = b.drop_first();
        assert forall|p: u16| holds_port(ta, p) <==> holds_port(tb, p) by {
            if holds_port(ta, p) {
                let i = choose|i: int| 0 <= i < ta.len() && ta[i].local_port == p;
                assert(a[i + 1].local_port == p);
                assert(holds_port(b, p));
                let j = choose|j: int| 0 <= j < b.len() && b[j].local_port == p;
                if j == 0 {
                    assert(a[0].local_port < a[i + 1].local_port);
                }
                assert(tb[j - 1].local_port == p);
            }
            if holds_port(tb, p) {
                let i = choose|i: int| 0 <= i < tb.len() && tb[i].local_port == p;
                assert(b[i + 1].local_port == p);
                assert(holds_port(a, p));
                let j = choose|j: int| 0 <= j < a.len() && a[j].local_port == p;
                if j == 0 {
                    assert(b[0].local_port < b[i + 1].local_port);
                }
                assert(ta[j - 1].local_port == p);
            }
        }
        lemma_sorted_unique_determined(ta, tb);
        assert(a =~= seq![a[0]] + ta);
        assert(b =~= seq![b[0]] + tb);
    }
}

/// Inserts `port` into a sorted forward list without duplicates, at its
/// place; a port already held leaves the list as it was.
pub fn insert_sorted(forwards: &mut Vec<PortForward>, port: u16)
    requires
        sorted_unique(old(forwards)@),
    ensures
        sorted_unique(final(forwards)@),
        forall|p: u16| holds_port(final(forwards)@, p) <==> (holds_port(old(forwards)@, p) || p == port),
        holds_port(old(forwards)@, port) ==> final(forwards)@ == old(forwards)@,
        final(forwards)@.len() >= old(forwards)@.len(),
{
    let mut i: usize = 0;
    while i < forwards.len() && forwards[i].local_port < port
        invariant
            i <= forwards@.len(),
            forall|k: int| 0 <= k < i ==> forwards@[k].local_port < port,
        decreases forwards@.len() - i,
    {
        i = i + 1;
    }
    if i < forwards.len() && forwards[i].local_port == port {
        return;
    }
    let ghost before = forwards@;
    forwards.insert(i, PortForward { local_port: port });
    assert(forwards@ =~= before.subrange(0, i as int) + seq![PortForward { local_port: port }]
        + before.subrange(i as int, before.len() as int));
    assert forall|p: u16| holds_port(forwards@, p) <==> (holds_port(before, p) || p == port) by {
        if holds_port(before, p) {
            let k = choose|k: int| 0 <= k < before.len() && before[k].local_port == p;
            if k < i {
                assert(forwards@[k].local_port == p);
            } else {
                assert(forwards@[k + 1].local_port == p);
            }
        }
        if p == port {
            assert(forwards@[i as int].local_port == p);
        }
        if holds_port(forwards@, p) {
            let k = choose|k: int| 0 <= k < forwards@.len() && forwards@[k].local_port == p;
            if k < i {
                assert(before[k].local_port == p);
            } else if k > i {
                assert(before[k - 1].local_port == p);
            }
        }
    }
}

/// Removes the forward of `port` from a sorted list without duplicates, if
/// the list holds it.
pub fn remove_port(forwards: &mut Vec<PortForward>, port: u16)
    requires
        sorted_unique(old(forwards)@),
    ensures
        sorted_unique(final(forwards)@),
        forall|p: u16| holds_port(final(forwards)@, p) <==> (holds_port(old(forwards)@, p) && p != port),
        final(forwards)@.len() == if holds_port(old(forwards)@, port) {
            old(forwards)@.len() - 1
        } else {
            old(forwards)@.len() as int
        },
{
    let mut i: usize = 0;
    while i < forwards.len()
        invariant
            forwards@ == old(forwards)@,
            sorted_unique(forwards@),
            i <= forwards@.len(),
            forall|k: int| 0 <= k < i ==> forwards@[k].local_port != port,
        decreases forwards@.len() - i,
    {
        if forwards[i].local_port == port {
            let ghost before = forwards@;
            forwards.remove(i);
            assert(forwards@ =~= before.subrange(0, i as int) + before.subrange(i + 1, before.len() as int));
            assert forall|p: u16| holds_port(forwards@, p) <==> (holds_port(before, p) && p != port) by {
                if holds_port(before, p) && p != port {
                    let k = choose|k: int| 0 <= k < before.len() && before[k].local_port == p;
                    if k < i {
                        assert(forwards@[k].local_port == p);
                    } else {
                        assert(forwards@[k - 1].local_port == p);
                    }
                }
                if holds_port(forwards@, p) {
                    let k = choose|k: int| 0 <= k < forwards@.len() && forwards@[k].local_port == p;
                    if k < i {
                        assert(before[k].local_port == p);
                    } else {
                        assert(before[k + 1].local_port == p);
                        assert(before[i as int].local_port < before[k + 1].local_port);
                    }
                }
            }
            assert(holds_port(before, port));
            return;
        }
        i = i + 1;
    }
}

/// The forwards of the process `pid` among the machine's sockets: one entry
/// per distinct port of a listening socket that `pid` owns, in ascending
/// order. A port on which both address families listen appears once.
pub fn forwards_from_sockets(sockets: &Vec<SocketRecord>, pid: u32) -> (r: Vec<PortForward>)
    ensures
        sorted_unique(r@),
        forall|p: u16| holds_port(r@, p) <==> exists|i: int|
            0 <= i < sockets@.len() && is_forward_of(sockets@[i], pid) && sockets@[i].local_port == p,
{
    let mut r: Vec<PortForward> = Vec::new();
    let mut i: usize = 0;
    while i < sockets.len()
        invariant
            i <= sockets@.len(),
            sorted_unique(r@),
            forall|p: u16| holds_port(r@, p) <==> exists|k: int|
                0 <= k < i && is_forward_of(sockets@[k], pid) && sockets@[k].local_port == p,
        decreases sockets@.len() - i,
    {
        let s = &sockets[i];
        let mut owned = false;
        let mut j: usize = 0;
        while j < s.pids.len()
            invariant
                j <= s.pids@.len(),
                owned <==> exists|m: int| 0 <= m < j && s.pids@[m] == pid,
            decreases s.pids@.len() - j,
        {
            if s.pids[j] == pid {
                owned = true;
            }
            j = j + 1;
        }
        assert(owned <==> s.pids@.contains(pid));
        let ghost prev = r@;
        if s.listening && owned {
            insert_sorted(&mut r, s.local_port);
        }
        assert forall|p: u16| holds_port(r@, p) <==> exists|k: int|
            0 <= k < i + 1 && is_forward_of(sockets@[k], pid) && sockets@[k].local_port == p by {
            if exists|k: int| 0 <= k < i + 1 && is_forward_of(sockets@[k], pid) && sockets@[k].local_port == p {
                let k = choose|k: int| 0 <= k < i + 1 && is_forward_of(sockets@[k], pid) && sockets@[k].local_port == p;
                if k < i {
                    assert(holds_port(prev, p));
                }
            }
        }
        i = i + 1;
    }
    r
}

} // verus!
