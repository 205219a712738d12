//! Model of the stream-forwarding bridge.
//!
//! After authentication the two sides exchange session metadata exactly
//! once, then forward an unbounded set of independent links, each pairing
//! one local-socket connection with one peer stream. The bridge state
//! records the metadata exchange and, per link, the bytes relayed in each
//! direction. The contracts pin down the bridge's guarantees: metadata
//! before any link, per-link byte order, and independence - no operation
//! on one link touches another, and a failed link leaves the rest of the
//! run able to open new links. The concurrent byte copies themselves run
//! outside the crate, beyond what Verus can see; this model states the
//! guarantees each pairing must keep, and the accept-action functions
//! decide the outer loops.

use vstd::prelude::*;

verus! {

/// Whether a link is still relaying or has ended.
#[derive(Clone, Copy, Debug, PartialEq, Eq, Structural)]
pub enum LinkStatus {
    Open,
    Failed,
    Closed,
}

/// One forwarded link: the bytes it relayed toward the peer and toward
/// the local socket, in order, and whether it still runs.
pub struct Link {
    pub to_peer: Vec<u8>,
    pub to_local: Vec<u8>,
    pub status: LinkStatus,
}

/// Mathematical model of one link.
#[verifier::ext_equal]
pub struct LinkModel {
    pub to_peer: Seq<u8>,
    pub to_local: Seq<u8>,
    pub status: LinkStatus,
}

impl View for Link {
    type V = LinkModel;

    open spec fn view(&self) -> LinkModel {
        LinkModel { to_peer: self.to_peer@, to_local: self.to_local@, status: self.status }
    }
}

/// One side's bridge run: whether the single metadata exchange happened,
/// and every link opened so far, in order of opening.
pub struct Bridge {
    pub meta_sent: bool,
    pub links: Vec<Link>,
}

/// Mathematical model of a bridge run.
#[verifier::ext_equal]
pub struct BridgeModel {
    pub meta_sent: bool,
    pub links: Seq<LinkModel>,
}

impl View for Bridge {
    type V = BridgeModel;

    open spec fn view(&self) -> BridgeModel {
        BridgeModel { meta_sent: self.meta_sent, links: self.links@.map_values(|l: Link| l@) }
    }
}

/// A fresh link that has relayed nothing yet.
pub open spec fn spec_fresh_link() -> LinkModel {
    LinkModel { to_peer: Seq::empty(), to_local: Seq::empty(), status: LinkStatus::Open }
}

/// Effect of opening a link: one fresh link appended, nothing else moved.
pub open spec fn spec_open_link(m: BridgeModel) -> BridgeModel {
    BridgeModel { meta_sent: m.meta_sent, links: m.links.push(spec_fresh_link()) }
}

/// Effect of relaying `bytes` toward the peer on link `id`: appended, in
/// order, to that link's peer-bound stream; nothing else moves.
pub open spec fn spec_relay_to_peer(m: BridgeModel, id: int, bytes: Seq<u8>) -> BridgeModel
    recommends
        0 <= id < m.links.len(),
{
    BridgeModel {
        meta_sent: m.meta_sent,
        links: m.links.update(
            id,
            LinkModel { to_peer: m.links[id].to_peer + bytes, ..m.links[id] },
        ),
    }
}

/// Effect of relaying `bytes` toward the local socket on link `id`.
pub open spec fn spec_relay_to_local(m: BridgeModel, id: int, bytes: Seq<u8>) -> BridgeModel
    recommends
        0 <= id < m.links.len(),
{
    BridgeModel {
        meta_sent: m.meta_sent,
        links: m.links.update(
            id,
            LinkModel { to_local: m.links[id].to_local + bytes, ..m.links[id] },
        ),
    }
}

/// Effect of a link ending: its status alone changes, to `Failed` when
/// one of its endpoints errored, else to `Closed`.
pub open spec fn spec_end_link(m: BridgeModel, id: int, failed: bool) -> BridgeModel
    recommends
        0 <= id < m.links.len(),
{
    BridgeModel {
        meta_sent: m.meta_sent,
        links: m.links.update(
            id,
            LinkModel {
                status: if failed {
                    LinkStatus::Failed
                } else {
                    LinkStatus::Closed
                },
                ..m.links[id]
            },
        ),
    }
}

impl Bridge {
    /// A fresh run, before the metadata exchange.
    pub fn new() -> (r: Bridge)
        ensures
            !r@.meta_sent,
            r@.links.len() == 0,
    {
        let r = Bridge { meta_sent: false, links: Vec::new() };
        proof {
            assert(r@.links =~= Seq::<LinkModel>::empty());
        }
        r
    }

    /// The one metadata exchange of the run. It can happen only once:
    /// a second call does not meet the precondition.
    pub fn send_metadata(&mut self)
        requires
            !old(self)@.meta_sent,
        ensures
            final(self)@.meta_sent,
            final(self)@.links == old(self)@.links,
    {
        self.meta_sent = true;
    }

    /// Open one link, pairing a new local-socket connection with a new
    /// peer stream. Links exist only after the metadata exchange.
    pub fn open_link(&mut self) -> (id: usize)
        requires
            old(self)@.meta_sent,
        ensures
            id == old(self)@.links.len(),
            final(self)@ == spec_open_link(old(self)@),
    {
        let id = self.links.len();
        self.links.push(Link { to_peer: Vec::new(), to_local: Vec::new(), status: LinkStatus::Open });
        proof {
            assert(self@ =~= spec_open_link(old(self)@));
        }
        id
    }

    /// Relay `bytes` toward the peer on link `id`, in order.
    pub fn relay_to_peer(&mut self, id: usize, bytes: &Vec<u8>)
        requires
            id < old(self)@.links.len(),
            old(self)@.links[id as int].status is Open,
        ensures
            final(self)@ == spec_relay_to_peer(old(self)@, id as int, bytes@),
    {
        let link = &mut self.links[id];
        let ghost p0 = link.to_peer@;
        let ghost l0 = link.to_local@;
        let ghost st0 = link.status;
        let mut k: usize = 0;
        while k < bytes.len()
            invariant
                k <= bytes@.len(),
                link.to_peer@ == p0 + bytes@.take(k as int),
                link.to_local@ == l0,
                link.status == st0,
            decreases bytes@.len() - k,
        {
            link.to_peer.push(bytes[k]);
            k = k + 1;
            proof {
                assert(link.to_peer@ =~= p0 + bytes@.take(k as int));
            }
        }
        proof {
            assert(bytes@.take(bytes@.len() as int) =~= bytes@);
        }
        proof {
            assert(self@ =~= spec_relay_to_peer(old(self)@, id as int, bytes@));
        }
    }

    /// Relay `bytes` toward the local socket on link `id`, in order.
    pub fn relay_to_local(&mut self, id: usize, bytes: &Vec<u8>)
        requires
            id < old(self)@.links.len(),
            old(self)@.links[id as int].status is Open,
        ensures
            final(self)@ == spec_relay_to_local(old(self)@, id as int, bytes@),
    {
        let link = &mut self.links[id];
        let ghost p0 = link.to_peer@;
        let ghost l0 = link.to_local@;
        let ghost st0 = link.status;
        let mut k: usize = 0;
        while k < bytes.len()
            invariant
                k <= bytes@.len(),
                link.to_local@ == l0 + bytes@.take(k as int),
                link.to_peer@ == p0,
                link.status == st0,
            decreases bytes@.len() - k,
        {
            link.to_local.push(bytes[k]);
            k = k + 1;
            proof {
                assert(link.to_local@ =~= l0 + bytes@.take(k as int));
            }
        }
        proof {
            assert(bytes@.take(bytes@.len() as int) =~= bytes@);
        }
        proof {
            assert(self@ =~= spec_relay_to_local(old(self)@, id as int, bytes@));
        }
    }

    /// Link `id` ended: one of its endpoints closed or errored. Only its
    /// status changes; the run and every other link go on.
    pub fn end_link(&mut self, id: usize, failed: bool)
        requires
            id < old(self)@.links.len(),
        ensures
            final(self)@ == spec_end_link(old(self)@, id as int, failed),
    {
        let link = &mut self.links[id];
        link.status = if failed {
            LinkStatus::Failed
        } else {
            LinkStatus::Closed
        };
        proof {
            assert(self@ =~= spec_end_link(old(self)@, id as int, failed));
        }
    }
}

/// The run's invariant: links exist only after the one metadata exchange.
pub open spec fn bridge_inv(m: BridgeModel) -> bool {
    m.links.len() > 0 ==> m.meta_sent
}

/// Metadata comes first and exactly once: a fresh bridge satisfies the
/// invariant, and every operation preserves it - opening a link under its
/// own precondition that the metadata exchange already happened. Since
/// `send_metadata` requires the exchange not to have happened yet and no
/// operation ever clears it, each run has at most one exchange.
pub proof fn lemma_metadata_before_links(m: BridgeModel, id: int, bytes: Seq<u8>, failed: bool)
    requires
        bridge_inv(m),
        0 <= id < m.links.len(),
    ensures
        m.meta_sent ==> bridge_inv(spec_open_link(m)),
        bridge_inv(spec_relay_to_peer(m, id, bytes)),
        bridge_inv(spec_relay_to_local(m, id, bytes)),
        bridge_inv(spec_end_link(m, id, failed)),
{
}

/// What a side's outer accept loop does next.
#[derive(Clone, Copy, Debug, PartialEq, Eq, Structural)]
pub enum AcceptAction {
    /// The accept succeeded: open a link for the new pairing.
    OpenLink,
    /// The accept failed and the whole run ends with an error.
    FailRun,
    /// The accept failed; log it and keep accepting.
    LogAndContinue,
}

/// The host's accept loop: a failure to accept a peer stream means the
/// shared connection died, and the run ends.
pub fn host_accept_action(accept_ok: bool) -> (r: AcceptAction)
    ensures
        r is OpenLink <==> accept_ok,
        r is FailRun <==> !accept_ok,
{
    if accept_ok {
        AcceptAction::OpenLink
    } else {
        AcceptAction::FailRun
    }
}

/// The guest's accept loop: a failure to accept one local connection is
/// logged and the loop goes on.
pub fn guest_accept_action(accept_ok: bool) -> (r: AcceptAction)
    ensures
        r is OpenLink <==> accept_ok,
        r is LogAndContinue <==> !accept_ok,
{
    if accept_ok {
        AcceptAction::OpenLink
    } else {
        AcceptAction::LogAndContinue
    }
}

/// Link independence: relaying on one link leaves every other link of the
/// bridge exactly as it was, in both directions, and a link that ends
/// leaves the others untouched too.
pub proof fn lemma_link_isolation(m: BridgeModel, i: int, j: int, bytes: Seq<u8>, failed: bool)
    requires
        0 <= i < m.links.len(),
        0 <= j < m.links.len(),
        i != j,
    ensures
        spec_relay_to_peer(m, i, bytes).links[j] == m.links[j],
        spec_relay_to_local(m, i, bytes).links[j] == m.links[j],
        spec_end_link(m, i, failed).links[j] == m.links[j],
{
}

/// Per-link ordering: two relays on the same link deliver both payloads
/// to that link's own stream, in order, concatenated back to back.
pub proof fn lemma_relay_order(m: BridgeModel, i: int, first: Seq<u8>, second: Seq<u8>)
    requires
        0 <= i < m.links.len(),
    ensures
        spec_relay_to_peer(spec_relay_to_peer(m, i, first), i, second).links[i].to_peer
            == m.links[i].to_peer + first + second,
        spec_relay_to_local(spec_relay_to_local(m, i, first), i, second).links[i].to_local
            == m.links[i].to_local + first + second,
{
    assert(spec_relay_to_peer(spec_relay_to_peer(m, i, first), i, second).links[i].to_peer =~= m.links[i].to_peer
        + first + second);
    assert(spec_relay_to_local(spec_relay_to_local(m, i, first), i, second).links[i].to_local
        =~= m.links[i].to_local + first + second);
}

/// A failed link does not end the run: after any link fails, opening a
/// new link still appends a fresh open link, and every link other than
/// the failed one is exactly as it was.
pub proof fn lemma_failure_is_contained(m: BridgeModel, i: int)
    requires
        0 <= i < m.links.len(),
    ensures
        spec_open_link(spec_end_link(m, i, true)).links.len() == m.links.len() + 1,
        spec_open_link(spec_end_link(m, i, true)).links.last() == spec_fresh_link(),
        forall|j: int|
            0 <= j < m.links.len() && j != i ==> spec_open_link(spec_end_link(m, i, true)).links[j]
                == m.links[j],
{
}

} // verus!
