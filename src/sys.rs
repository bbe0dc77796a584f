use std::collections::HashMap;
use vstd::prelude::*;

verus! {

broadcast use vstd::std_specs::hash::group_hash_axioms;

/// A local port in use, with the process that holds its socket when that
/// process could be found.
#[derive(Debug, PartialEq, Eq)]
pub struct PortInfo {
    pub port: u16,
    pub pid: Option<i32>,
    pub process_name: Option<String>,
    pub protocol: String,
}

/// The mathematical value of a port row.
pub struct PortInfoView {
    pub port: u16,
    pub pid: Option<i32>,
    pub process_name: Option<Seq<char>>,
    pub protocol: Seq<char>,
}

impl View for PortInfo {
    type V = PortInfoView;

    open spec fn view(&self) -> PortInfoView {
        PortInfoView {
            port: self.port,
            pid: self.pid,
            process_name: match self.process_name {
                Some(n) => Some(n@),
                None => None,
            },
            protocol: self.protocol@,
        }
    }
}

/// One row of the kernel's socket table: the local port and the socket's
/// inode.
#[derive(Debug, PartialEq, Eq)]
pub struct SocketEntry {
    pub port: u16,
    pub inode: u64,
}

/// A process and the inodes of the sockets among its open files. `name` is
/// absent when the process's status could not be read.
pub struct ProcessSockets {
    pub pid: i32,
    pub name: Option<String>,
    pub socket_inodes: Vec<u64>,
}

/// The name shown for a process: its own, or `unknown`.
pub open spec fn shown_name(name: Option<String>) -> Seq<char> {
    match name {
        Some(n) => n@,
        None => "unknown"@,
    }
}

/// The owners that one process contributes: each of its socket inodes maps
/// to its pid and shown name.
pub open spec fn owned_by(p: ProcessSockets) -> Map<u64, (i32, Seq<char>)> {
    Map::new(|k: u64| p.socket_inodes@.contains(k), |k: u64| (p.pid, shown_name(p.name)))
}

/// Which process owns each socket inode; where two processes hold the same
/// socket, the later one in `procs` is named.
pub open spec fn owners(procs: Seq<ProcessSockets>) -> Map<u64, (i32, Seq<char>)>
    decreases procs.len(),
{
    if procs.len() == 0 {
        Map::empty()
    } else {
        owners(procs.drop_last()).union_prefer_right(owned_by(procs.last()))
    }
}

/// The mathematical value of an owner table.
pub open spec fn owners_view(m: Map<u64, (i32, String)>) -> Map<u64, (i32, Seq<char>)> {
    Map::new(|k: u64| m.contains_key(k), |k: u64| (m[k].0, m[k].1@))
}

/// Builds the table from socket inode to owning process.
pub fn socket_owners(procs: &Vec<ProcessSockets>) -> (r: HashMap<u64, (i32, String)>)
    ensures
        owners_view(r@) == owners(procs@),
{
    let mut map: HashMap<u64, (i32, String)> = HashMap::new();
    let mut i: usize = 0;
    assert(owners_view(map@) =~= owners(procs@.subrange(0, 0)));
    while i < procs.len()
        invariant
            i <= procs@.len(),
            owners_view(map@) == owners(procs@.subrange(0, i as int)),
        decreases procs@.len() - i,
    {
        let p = &procs[i];
        let name = match &p.name {
            Some(n) => n.clone(),
            None => "unknown".to_owned(),
        };
        assert(name@ == shown_name(p.name));
        let ghost base = owners_view(map@);
        let mut j: usize = 0;
        while j < p.socket_inodes.len()
            invariant
                j <= p.socket_inodes@.len(),
                name@ == shown_name(p.name),
                owners_view(map@) == base.union_prefer_right(
                    Map::new(
                        |k: u64| p.socket_inodes@.subrange(0, j as int).contains(k),
                        |k: u64| (p.pid, shown_name(p.name)),
                    ),
                ),
            decreases p.socket_inodes@.len() - j,
        {
            let inode = p.socket_inodes[j];
            let ghost seen = p.socket_inodes@.subrange(0, j as int);
            let ghost prev = map@;
            let ghost old_added = Map::new(
                |k: u64| seen.contains(k),
                |k: u64| (p.pid, shown_name(p.name)),
            );
            assert(owners_view(prev) == base.union_prefer_right(old_added));
            let owner = (p.pid, name.clone());
            assert(owner.1@ == shown_name(p.name));
            map.insert(inode, owner);
            assert(map@ == prev.insert(inode, owner));
            assert forall|k: u64| #[trigger] p.socket_inodes@.subrange(0, j + 1).contains(k) <==> (seen.contains(k)
                || k == inode) by {
                let next = p.socket_inodes@.subrange(0, j + 1);
                if k == inode {
                    assert(next[j as int] == k);
                }
                if seen.contains(k) {
                    let m = choose|m: int| 0 <= m < seen.len() && seen[m] == k;
                    assert(next[m] == k);
                }
                if next.contains(k) && k != inode {
                    let m = choose|m: int| 0 <= m < next.len() && next[m] == k;
                    assert(seen[m] == k);
                }
            }
            j = j + 1;
            let ghost added = Map::new(
                |k: u64| p.socket_inodes@.subrange(0, j as int).contains(k),
                |k: u64| (p.pid, shown_name(p.name)),
            );
            assert forall|k: u64| #[trigger] owners_view(map@).contains_key(k) <==> base.union_prefer_right(added).contains_key(k) by {
                assert(p.socket_inodes@.subrange(0, j as int).contains(k) <==> (seen.contains(k) || k == inode));
                assert(owners_view(prev).contains_key(k) == prev.contains_key(k));
                assert(old_added.contains_key(k) == seen.contains(k));
                assert(base.union_prefer_right(old_added).contains_key(k) == (base.contains_key(k) || old_added.contains_key(k)));
            }
            assert forall|k: u64| #[trigger] owners_view(map@).contains_key(k) implies owners_view(map@)[k] == base.union_prefer_right(added)[k] by {
                assert(p.socket_inodes@.subrange(0, j as int).contains(k) <==> (seen.contains(k) || k == inode));
                assert(owners_view(prev).contains_key(k) == prev.contains_key(k));
                assert(old_added.contains_key(k) == seen.contains(k));
                if k != inode {
                    assert(owners_view(prev)[k] == owners_view(map@)[k]);
                    assert(base.union_prefer_right(old_added)[k] == base.union_prefer_right(added)[k]);
                }
            }
            assert(owners_view(map@) =~= base.union_prefer_right(
                Map::new(
                    |k: u64| p.socket_inodes@.subrange(0, j as int).contains(k),
                    |k: u64| (p.pid, shown_name(p.name)),
                ),
            ));
        }
        assert(p.socket_inodes@.subrange(0, j as int) =~= p.socket_inodes@);
        assert(procs@.subrange(0, i + 1).drop_last() =~= procs@.subrange(0, i as int));
        i = i + 1;
        assert(owners_view(map@) =~= owners(procs@.subrange(0, i as int)));
    }
    assert(procs@.subrange(0, i as int) =~= procs@);
    map
}

/// The row shown for one socket table entry.
pub open spec fn port_row(e: SocketEntry, owners: Map<u64, (i32, Seq<char>)>, protocol: Seq<char>) -> PortInfoView {
    PortInfoView {
        port: e.port,
        pid: if owners.contains_key(e.inode) { Some(owners[e.inode].0) } else { None },
        process_name: if owners.contains_key(e.inode) { Some(owners[e.inode].1) } else { None },
        protocol,
    }
}

/// The rows for one socket table, in its order.
pub open spec fn port_rows(
    entries: Seq<SocketEntry>,
    owners: Map<u64, (i32, Seq<char>)>,
    protocol: Seq<char>,
) -> Seq<PortInfoView> {
    entries.map_values(|e: SocketEntry| port_row(e, owners, protocol))
}

fn append_rows(
    out: &mut Vec<PortInfo>,
    entries: &Vec<SocketEntry>,
    owners: &HashMap<u64, (i32, String)>,
    protocol: &str,
)
    ensures
        final(out)@.map_values(|p: PortInfo| p@) == old(out)@.map_values(|p: PortInfo| p@)
            + port_rows(entries@, owners_view(owners@), protocol@),
{
    let ghost start = out@.map_values(|p: PortInfo| p@);
    let mut i: usize = 0;
    while i < entries.len()
        invariant
            i <= entries@.len(),
            out@.map_values(|p: PortInfo| p@) == start + port_rows(
                entries@.subrange(0, i as int),
                owners_view(owners@),
                protocol@,
            ),
        decreases entries@.len() - i,
    {
        let e = &entries[i];
        let info = owners.get(&e.inode);
        let row = PortInfo {
            port: e.port,
            pid: match info {
                Some(o) => Some(o.0),
                None => None,
            },
            process_name: match info {
                Some(o) => Some(o.1.clone()),
                None => None,
            },
            protocol: protocol.to_owned(),
        };
        let ghost before = out@.map_values(|p: PortInfo| p@);
        assert(row@ == port_row(*e, owners_view(owners@), protocol@));
        out.push(row);
        assert(out@.map_values(|p: PortInfo| p@) =~= before.push(row@));
        assert(entries@.subrange(0, i + 1) =~= entries@.subrange(0, i as int).push(*e));
        i = i + 1;
        assert(out@.map_values(|p: PortInfo| p@) =~= start + port_rows(
            entries@.subrange(0, i as int),
            owners_view(owners@),
            protocol@,
        ));
    }
    assert(entries@.subrange(0, i as int) =~= entries@);
}

/// The ports in use: the TCP table's rows, then the UDP table's, each
/// named with the process that owns its socket where there is one.
pub fn collect_ports(
    tcp: &Vec<SocketEntry>,
    udp: &Vec<SocketEntry>,
    owners: &HashMap<u64, (i32, String)>,
) -> (r: Vec<PortInfo>)
    ensures
        r@.map_values(|p: PortInfo| p@) == port_rows(tcp@, owners_view(owners@), "TCP"@) + port_rows(
            udp@,
            owners_view(owners@),
            "UDP"@,
        ),
{
    let mut out: Vec<PortInfo> = Vec::new();
    assert(out@.map_values(|p: PortInfo| p@) =~= Seq::<PortInfoView>::empty());
    append_rows(&mut out, tcp, owners, "TCP");
    append_rows(&mut out, udp, owners, "UDP");
    assert(Seq::<PortInfoView>::empty() + port_rows(tcp@, owners_view(owners@), "TCP"@) =~= port_rows(
        tcp@,
        owners_view(owners@),
        "TCP"@,
    ));
    out
}

} // verus!

verus! {

/// The answer to a request to kill a process, from whether the process was
/// found and whether the signal was delivered.
pub fn kill_outcome(found: bool, killed: bool) -> (r: Result<(), String>)
    ensures
        match r {
            Ok(()) => found && killed,
            Err(e) => if !found {
                e@ == "Process not found"@
            } else {
                !killed && e@ == "Failed to kill process"@
            },
        },
{
    if !found {
        Err("Process not found".to_owned())
    } else if killed {
        Ok(())
    } else {
        Err("Failed to kill process".to_owned())
    }
}

} // verus!
