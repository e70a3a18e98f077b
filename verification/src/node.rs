//! Node-level views: the chain summary a node reports, and what it knows
//! about a peer.

use vstd::prelude::*;

use crate::chain::{header_view_spec, BlockHeader, BlockHeaderView, U256};
use crate::genesis_config::ChainId;
use crate::hash::HashValue;

verus! {

/// The state of a Merkle accumulator: its root, the frozen subtree roots,
/// and its size.
#[derive(Debug, PartialEq, Eq)]
pub struct AccumulatorInfo {
    pub accumulator_root: HashValue,
    pub frozen_subtree_roots: Vec<HashValue>,
    pub num_leaves: u64,
    pub num_nodes: u64,
}

/// What the chain knows about one block: its identity, the cumulative
/// difficulty, and the two accumulators after executing it.
#[derive(Debug, PartialEq, Eq)]
pub struct BlockInfo {
    pub block_id: HashValue,
    pub total_difficulty: U256,
    pub txn_accumulator_info: AccumulatorInfo,
    pub block_accumulator_info: AccumulatorInfo,
}

/// The head of a chain: its header and block info.
#[derive(Debug, PartialEq, Eq)]
pub struct ChainStatus {
    pub head: BlockHeader,
    pub info: BlockInfo,
}

/// A chain as a node reports it: identity, genesis, and current head.
#[derive(Debug, PartialEq, Eq)]
pub struct ChainInfo {
    pub chain_id: ChainId,
    pub genesis_hash: HashValue,
    pub status: ChainStatus,
}

/// A chain summary as it travels outbound.
#[derive(Debug, PartialEq, Eq)]
pub struct ChainInfoView {
    pub chain_id: u8,
    pub genesis_hash: HashValue,
    pub head: BlockHeaderView,
    pub block_info: BlockInfo,
}

impl ChainInfoView {
    /// Renders a chain summary.
    pub fn from_info(info: ChainInfo) -> (r: ChainInfoView)
        ensures
            r.chain_id == info.chain_id.spec_id(),
            r.genesis_hash == info.genesis_hash,
            r.head == header_view_spec(info.status.head),
            r.block_info == info.status.info,
    {
        let ChainInfo { chain_id, genesis_hash, status } = info;
        let ChainStatus { head, info: block_info } = status;
        ChainInfoView {
            chain_id: chain_id.id(),
            genesis_hash,
            head: BlockHeaderView::from_header(head),
            block_info,
        }
    }
}

/// What a node knows about a peer.
#[derive(Debug, PartialEq, Eq)]
pub struct PeerInfo {
    pub peer_id: Vec<u8>,
    pub chain_info: ChainInfo,
    pub notif_protocols: Vec<String>,
    pub rpc_protocols: Vec<String>,
}

/// A peer as it travels outbound: the protocol lists joined with commas.
#[derive(Debug, PartialEq, Eq)]
pub struct PeerInfoView {
    pub peer_id: Vec<u8>,
    pub chain_info: ChainInfoView,
    pub notif_protocols: String,
    pub rpc_protocols: String,
}

/// The views of a list of strings.
pub open spec fn string_views(ss: Seq<String>) -> Seq<Seq<char>> {
    Seq::new(ss.len(), |i: int| ss[i]@)
}

/// The strings joined with a comma between neighbours.
pub open spec fn join_commas(ss: Seq<Seq<char>>) -> Seq<char>
    decreases ss.len(),
{
    if ss.len() == 0 {
        Seq::empty()
    } else if ss.len() == 1 {
        ss[0]
    } else {
        ss[0] + seq![','] + join_commas(ss.drop_first())
    }
}

/// Joins the strings from index `i` on with commas.
fn join_commas_from(ss: &Vec<String>, i: usize) -> (r: String)
    requires
        i <= ss@.len(),
    ensures
        r@ == join_commas(string_views(ss@).skip(i as int)),
    decreases ss@.len() - i,
{
    proof {
        reveal_strlit(",");
    }
    if i >= ss.len() {
        let out = String::new();
        proof {
            assert(string_views(ss@).skip(i as int) =~= Seq::<Seq<char>>::empty());
        }
        out
    } else if i + 1 == ss.len() {
        let out = ss[i].as_str().to_owned();
        proof {
            assert(string_views(ss@).skip(i as int).len() == 1);
            assert(string_views(ss@).skip(i as int)[0] == ss@[i as int]@);
        }
        out
    } else {
        let mut out = ss[i].as_str().to_owned();
        out.append(",");
        let tail = join_commas_from(ss, i + 1);
        out.append(tail.as_str());
        proof {
            let views = string_views(ss@).skip(i as int);
            assert(views[0] == ss@[i as int]@);
            assert(views.drop_first() =~= string_views(ss@).skip(i + 1));
            assert(out@ =~= views[0] + seq![','] + join_commas(views.drop_first()));
        }
        out
    }
}

impl PeerInfoView {
    /// Renders a peer summary.
    pub fn from_peer(info: PeerInfo) -> (r: PeerInfoView)
        ensures
            r.peer_id == info.peer_id,
            r.chain_info.chain_id == info.chain_info.chain_id.spec_id(),
            r.chain_info.genesis_hash == info.chain_info.genesis_hash,
            r.chain_info.head == header_view_spec(info.chain_info.status.head),
            r.chain_info.block_info == info.chain_info.status.info,
            r.notif_protocols@ == join_commas(string_views(info.notif_protocols@)),
            r.rpc_protocols@ == join_commas(string_views(info.rpc_protocols@)),
    {
        let PeerInfo { peer_id, chain_info, notif_protocols, rpc_protocols } = info;
        let notif = join_commas_from(&notif_protocols, 0);
        let rpc = join_commas_from(&rpc_protocols, 0);
        proof {
            assert(string_views(notif_protocols@).skip(0) =~= string_views(notif_protocols@));
            assert(string_views(rpc_protocols@).skip(0) =~= string_views(rpc_protocols@));
        }
        PeerInfoView {
            peer_id,
            chain_info: ChainInfoView::from_info(chain_info),
            notif_protocols: notif,
            rpc_protocols: rpc,
        }
    }
}

} // verus!
