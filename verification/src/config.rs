//! Node configuration: the command-line settings and what a node derives
//! from them, the cluster's peers above all.

use crate::text::{decimal, decimal_string, parse_u32, parse_u32_spec};
use vstd::prelude::*;

verus! {

/// Client port used when none is given.
pub const DEFAULT_CLIENT_PORT: u16 = 50051;

/// Raft port used when none is given.
pub const DEFAULT_RAFT_PORT: u16 = 60051;

/// Entries held in memory before the log is compacted, when not given.
pub const DEFAULT_SNAPSHOT_THRESHOLD: u64 = 1000;

/// The command-line settings of a node.
#[derive(Debug)]
pub struct CliConfig {
    /// This node's id.
    pub node_id: u32,
    /// Port of the client service.
    pub client_port: u16,
    /// Port of the Raft service.
    pub raft_port: u16,
    /// The cluster's nodes, as `id@host:port,id@host:port`.
    pub peers: String,
    /// Directory the node saves its state under.
    pub data_dir: String,
    /// Entries held in memory before the log is compacted.
    pub snapshot_threshold: u64,
}

/// Another node of the cluster.
#[derive(Debug)]
pub struct Peer {
    pub id: u32,
    pub raft_addr: String,
}

/// A node's full configuration.
#[derive(Debug)]
pub struct NodeConfig {
    pub node_id: u32,
    /// Address of the client service.
    pub client_addr: String,
    /// Address of the Raft service.
    pub raft_addr: String,
    pub peers: Vec<Peer>,
    pub data_dir: String,
    pub snapshot_threshold: u64,
}

/// `s` cut at every `sep`, the way `str::split` cuts it: `n` separators
/// give `n + 1` pieces, empty ones included.
pub open spec fn split_on(s: Seq<char>, sep: char) -> Seq<Seq<char>>
    decreases s.len(),
{
    if s.len() == 0 {
        seq![Seq::<char>::empty()]
    } else {
        let prev = split_on(s.drop_last(), sep);
        if s.last() == sep {
            prev.push(Seq::<char>::empty())
        } else {
            prev.update(prev.len() - 1, prev.last().push(s.last()))
        }
    }
}

/// Views of a sequence of strings.
pub open spec fn string_views(v: Seq<String>) -> Seq<Seq<char>> {
    v.map_values(|s: String| s@)
}

/// The peer one `id@address` item names, if it is well formed: exactly one
/// `@`, and a decimal `u32` before it.
pub open spec fn peer_item(item: Seq<char>) -> Option<(u32, Seq<char>)> {
    let parts = split_on(item, '@');
    if parts.len() == 2 {
        match parse_u32_spec(parts[0]) {
            Some(id) => Some((id, parts[1])),
            None => None,
        }
    } else {
        None
    }
}

/// The peers a `--peers` value lists, in order; malformed items are skipped.
pub open spec fn peers_listed(s: Seq<char>) -> Seq<(u32, Seq<char>)> {
    if s.len() == 0 {
        Seq::empty()
    } else {
        split_on(s, ',').filter_map(|item: Seq<char>| peer_item(item))
    }
}

/// Views of peers.
pub open spec fn peer_views(v: Seq<Peer>) -> Seq<(u32, Seq<char>)> {
    v.map_values(|p: Peer| (p.id, p.raft_addr@))
}

/// Cuts `s` at every `sep`.
pub fn split_text(s: &str, sep: char) -> (r: Vec<String>)
    ensures
        string_views(r@) == split_on(s@, sep),
{
    let n = s.unicode_len();
    let mut out: Vec<String> = Vec::new();
    let mut start: usize = 0;
    let mut i: usize = 0;
    proof {
        assert(s@.subrange(0, 0) =~= Seq::<char>::empty());
        assert(string_views(out@).push(s@.subrange(0, 0)) =~= seq![Seq::<char>::empty()]);
    }
    while i < n
        invariant
            n == s@.len(),
            start <= i <= n,
            split_on(s@.subrange(0, i as int), sep) == string_views(out@).push(s@.subrange(start as int, i as int)),
        decreases n - i,
    {
        let c = s.get_char(i);
        let ghost prefix = s@.subrange(0, i as int);
        let ghost next = s@.subrange(0, i as int + 1);
        proof {
            assert(next.drop_last() =~= prefix);
            assert(next.last() == c);
        }
        if c == sep {
            let piece = s.substring_char(start, i).to_owned();
            let ghost before = out@;
            out.push(piece);
            proof {
                assert(string_views(out@) =~= string_views(before).push(s@.subrange(start as int, i as int)));
                assert(s@.subrange(i as int + 1, i as int + 1) =~= Seq::<char>::empty());
            }
            start = i + 1;
        } else {
            proof {
                let prev = split_on(prefix, sep);
                assert(s@.subrange(start as int, i as int).push(c) =~= s@.subrange(start as int, i as int + 1));
                assert(prev.update(prev.len() - 1, prev.last().push(c)) =~= string_views(out@).push(
                    s@.subrange(start as int, i as int + 1),
                ));
            }
        }
        i = i + 1;
    }
    let last = s.substring_char(start, n).to_owned();
    let ghost before = out@;
    out.push(last);
    proof {
        assert(s@.subrange(0, n as int) =~= s@);
        assert(string_views(out@) =~= string_views(before).push(s@.subrange(start as int, n as int)));
    }
    out
}

/// Reads one `id@address` item.
fn parse_peer_item(item: &str) -> (r: Option<Peer>)
    ensures
        match peer_item(item@) {
            Some((id, addr)) => r is Some && r->0.id == id && r->0.raft_addr@ == addr,
            None => r is None,
        },
{
    let parts = split_text(item, '@');
    if parts.len() != 2 {
        return None;
    }
    match parse_u32(parts[0].as_str()) {
        Some(id) => Some(Peer { id, raft_addr: parts[1].clone() }),
        None => None,
    }
}

/// Reads a `--peers` value, `id@host:port` items separated by commas;
/// malformed items are skipped.
pub fn parse_peers(peers: &str) -> (r: Vec<Peer>)
    ensures
        peer_views(r@) == peers_listed(peers@),
{
    let mut out: Vec<Peer> = Vec::new();
    if peers.unicode_len() == 0 {
        assert(peer_views(out@) =~= Seq::<(u32, Seq<char>)>::empty());
        return out;
    }
    let items = split_text(peers, ',');
    let ghost f = |item: Seq<char>| peer_item(item);
    let ghost all = string_views(items@);
    let mut k: usize = 0;
    proof {
        assert(all.subrange(0, 0) =~= Seq::<Seq<char>>::empty());
        assert(peer_views(out@) =~= all.subrange(0, 0).filter_map(f));
    }
    while k < items.len()
        invariant
            k <= items.len(),
            all == string_views(items@),
            all == split_on(peers@, ','),
            f == (|item: Seq<char>| peer_item(item)),
            peer_views(out@) == all.subrange(0, k as int).filter_map(f),
        decreases items.len() - k,
    {
        let ghost before = out@;
        let text = items[k].as_str();
        let parsed = parse_peer_item(text);
        proof {
            assert(all.subrange(0, k as int + 1).drop_last() =~= all.subrange(0, k as int));
            assert(all.subrange(0, k as int + 1).last() == items@[k as int]@);
        }
        let ghost item = items@[k as int]@;
        let ghost next = all.subrange(0, k as int + 1);
        match parsed {
            Some(p) => {
                let ghost pv = (p.id, p.raft_addr@);
                out.push(p);
                proof {
                    assert(text@ == item);
                    assert(peer_item(item) == Some(pv));
                    assert(f(item) == Some(pv));
                    assert(next.filter_map(f) == next.drop_last().filter_map(f) + seq![pv]);
                    assert(peer_views(out@) =~= peer_views(before) + seq![pv]);
                }
            },
            None => {
                proof {
                    assert(text@ == item);
                    assert(peer_item(item) is None);
                    assert(f(item) is None);
                    assert(next.filter_map(f) == next.drop_last().filter_map(f));
                }
            },
        }
        k = k + 1;
    }
    proof {
        assert(all.subrange(0, items.len() as int) =~= all);
    }
    out
}

/// `host:port` text for a service on the local machine.
pub open spec fn local_address(port: u16) -> Seq<char> {
    "127.0.0.1:"@ + decimal(port as nat)
}

fn local_address_text(port: u16) -> (r: String)
    ensures
        r@ == local_address(port),
{
    String::from_str("127.0.0.1:").concat(decimal_string(port as u64).as_str())
}

impl NodeConfig {
    /// The configuration a node runs with, from its command line: services
    /// on the local machine at the given ports, and the peers the `--peers`
    /// value lists.
    pub fn from_cli(cli: CliConfig) -> (r: NodeConfig)
        ensures
            r.node_id == cli.node_id,
            r.client_addr@ == local_address(cli.client_port),
            r.raft_addr@ == local_address(cli.raft_port),
            peer_views(r.peers@) == peers_listed(cli.peers@),
            r.data_dir@ == cli.data_dir@,
            r.snapshot_threshold == cli.snapshot_threshold,
    {
        let peers = parse_peers(cli.peers.as_str());
        NodeConfig {
            node_id: cli.node_id,
            client_addr: local_address_text(cli.client_port),
            raft_addr: local_address_text(cli.raft_port),
            peers,
            data_dir: cli.data_dir,
            snapshot_threshold: cli.snapshot_threshold,
        }
    }

    /// The ids of the other nodes, in order.
    pub fn peer_ids(&self) -> (r: Vec<u32>)
        ensures
            r@ == peer_views(self.peers@).map_values(|p: (u32, Seq<char>)| p.0),
    {
        let mut out: Vec<u32> = Vec::new();
        let mut i: usize = 0;
        while i < self.peers.len()
            invariant
                i <= self.peers.len(),
                out@ =~= peer_views(self.peers@).map_values(|p: (u32, Seq<char>)| p.0).subrange(0, i as int),
            decreases self.peers.len() - i,
        {
            out.push(self.peers[i].id);
            i = i + 1;
        }
        out
    }
}

} // verus!
