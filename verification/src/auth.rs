//! Pre-shared-secret authentication between host and guest.
//!
//! The host generates a 32-byte alphanumeric secret per run and hands it
//! to the guest out of band. Over the first bidirectional stream the guest
//! sends the raw secret bytes; the host answers one byte, `1` to accept,
//! `0` to reject. Each role is a small state machine; the host run is a
//! single-use rendezvous that authenticates only its first inbound
//! connection.

use rand::Rng;
use vstd::prelude::*;
use vstd::string::StringExecFns;

verus! {

/// Length in bytes of the pre-shared secret.
pub const SECRET_LEN: usize = 32;

/// The application-protocol identifier both endpoints present to the
/// transport; connections with another identifier are rejected there.
pub fn protocol_alpn() -> (r: Vec<u8>)
    ensures
        r@ =~= seq![3u8, 1u8, 4u8, 1u8, 5u8, 9u8, 2u8, 6u8],
{
    let mut v: Vec<u8> = Vec::new();
    v.push(3);
    v.push(1);
    v.push(4);
    v.push(1);
    v.push(5);
    v.push(9);
    v.push(2);
    v.push(6);
    v
}

pub open spec fn is_alnum_byte(b: u8) -> bool {
    (48 <= b <= 57) || (65 <= b <= 90) || (97 <= b <= 122)
}

/// Relies on rand's `Alphanumeric` distribution: every sample is one of
/// the ASCII bytes `0`-`9`, `A`-`Z`, `a`-`z`; taking 32 samples gives 32
/// bytes. Nothing else is assumed of the random values.
#[verifier::external_body]
pub fn generate_secret() -> (s: Vec<u8>)
    ensures
        s@.len() == SECRET_LEN,
        forall|i: int| 0 <= i < s@.len() ==> is_alnum_byte(s@[i]),
{
    rand::thread_rng().sample_iter(&rand::distributions::Alphanumeric).take(SECRET_LEN).collect()
}

/// A guest-supplied secret matches exactly when it equals the host's
/// secret byte for byte.
pub open spec fn secret_matches(expected: Seq<u8>, provided: Seq<u8>) -> bool {
    expected == provided
}

/// The byte the host answers on the authentication stream.
pub open spec fn spec_decision_byte(expected: Seq<u8>, provided: Seq<u8>) -> u8 {
    if secret_matches(expected, provided) {
        1
    } else {
        0
    }
}

/// Byte-for-byte comparison of the guest's bytes against the host's secret.
pub fn check_secret(expected: &Vec<u8>, provided: &Vec<u8>) -> (r: bool)
    ensures
        r <==> secret_matches(expected@, provided@),
{
    if expected.len() != provided.len() {
        proof {
            assert(expected@ != provided@);
        }
        return false;
    }
    let mut i: usize = 0;
    while i < expected.len()
        invariant
            expected@.len() == provided@.len(),
            i <= expected@.len(),
            forall|k: int| 0 <= k < i ==> expected@[k] == provided@[k],
        decreases expected@.len() - i,
    {
        if expected[i] != provided[i] {
            return false;
        }
        i = i + 1;
    }
    proof {
        assert(expected@ =~= provided@);
    }
    true
}

/// The host's one-byte answer: `1` exactly on a byte-for-byte match.
pub fn host_decision_byte(expected: &Vec<u8>, provided: &Vec<u8>) -> (b: u8)
    ensures
        b == spec_decision_byte(expected@, provided@),
        b == 1 <==> secret_matches(expected@, provided@),
{
    if check_secret(expected, provided) {
        1
    } else {
        0
    }
}

/// What the guest makes of the host's answer byte.
pub open spec fn spec_guest_accepts(b: u8) -> bool {
    b == 1
}

/// The guest is let in exactly on the byte `1`.
pub fn guest_accepts(b: u8) -> (r: bool)
    ensures
        r <==> spec_guest_accepts(b),
{
    b == 1
}

/// A secret of the wrong length never matches a 32-byte secret.
pub proof fn lemma_wrong_length_rejected(expected: Seq<u8>, provided: Seq<u8>)
    requires
        expected.len() == SECRET_LEN,
        provided.len() != SECRET_LEN,
    ensures
        !secret_matches(expected, provided),
        spec_decision_byte(expected, provided) == 0,
{
}

/// The two roles agree: on a matching secret the host answers `1` and the
/// guest is let in; on any other secret the host answers `0` and the guest
/// is rejected.
pub proof fn lemma_auth_outcome(expected: Seq<u8>, provided: Seq<u8>)
    ensures
        secret_matches(expected, provided) ==> spec_decision_byte(expected, provided) == 1
            && spec_guest_accepts(spec_decision_byte(expected, provided)),
        !secret_matches(expected, provided) ==> spec_decision_byte(expected, provided) == 0
            && !spec_guest_accepts(spec_decision_byte(expected, provided)),
{
}

/// Progress message shown to the guest when the host accepts the secret.
pub fn guest_success_message() -> (s: String)
    ensures
        s@ == "Host let you in."@,
{
    String::from_str("Host let you in.")
}

/// Phases of the host's handshake.
#[derive(Clone, Copy, Debug, PartialEq, Eq, Structural)]
pub enum HostPhase {
    Init,
    Listening,
    Authenticating,
    Authenticated,
    Rejected,
}

/// One host run: its phase, how many inbound connections arrived, and
/// which of them, if any, is the single rendezvous under authentication.
pub struct HostRun {
    pub phase: HostPhase,
    pub connections: u64,
    pub rendezvous: Option<u64>,
}

/// Effect of one inbound connection on a host run: only a listening run
/// takes it as its rendezvous; any later connection is counted and ignored.
pub open spec fn spec_on_connection(r: HostRun) -> HostRun
    recommends
        r.connections < u64::MAX,
{
    if r.phase is Listening {
        HostRun {
            phase: HostPhase::Authenticating,
            connections: (r.connections + 1) as u64,
            rendezvous: Some((r.connections + 1) as u64),
        }
    } else {
        HostRun { connections: (r.connections + 1) as u64, ..r }
    }
}

/// Effect of the rendezvous connection's secret on a host run: evaluated
/// only while authenticating; elsewhere the run is unchanged.
pub open spec fn spec_on_secret(r: HostRun, matches: bool) -> HostRun {
    if r.phase is Authenticating {
        if matches {
            HostRun { phase: HostPhase::Authenticated, ..r }
        } else {
            HostRun { phase: HostPhase::Rejected, ..r }
        }
    } else {
        r
    }
}

impl HostRun {
    /// A fresh run, before the transport endpoint listens.
    pub fn new() -> (r: HostRun)
        ensures
            r.phase is Init,
            r.connections == 0,
            r.rendezvous is None,
    {
        HostRun { phase: HostPhase::Init, connections: 0, rendezvous: None }
    }

    /// The endpoint is bound and the join instruction printed.
    pub fn start_listening(&mut self)
        requires
            old(self).phase is Init,
        ensures
            final(self).phase is Listening,
            final(self).connections == old(self).connections,
            final(self).rendezvous == old(self).rendezvous,
    {
        self.phase = HostPhase::Listening;
    }

    /// One inbound connection arrived. Returns whether this run takes it
    /// for authentication: true only for the first connection of a
    /// listening run.
    pub fn on_connection(&mut self) -> (accepted: bool)
        requires
            old(self).connections < u64::MAX,
        ensures
            *final(self) == spec_on_connection(*old(self)),
            accepted <==> old(self).phase is Listening,
    {
        self.connections = self.connections + 1;
        if matches!(self.phase, HostPhase::Listening) {
            self.phase = HostPhase::Authenticating;
            self.rendezvous = Some(self.connections);
            true
        } else {
            false
        }
    }

    /// The rendezvous connection sent `provided`. Returns the answer byte
    /// to write on the stream, or `None` when this run is not
    /// authenticating and nothing is evaluated.
    pub fn on_secret(&mut self, expected: &Vec<u8>, provided: &Vec<u8>) -> (b: Option<u8>)
        ensures
            *final(self) == spec_on_secret(*old(self), secret_matches(expected@, provided@)),
            b is Some <==> old(self).phase is Authenticating,
            b matches Some(v) ==> v == spec_decision_byte(expected@, provided@),
    {
        if matches!(self.phase, HostPhase::Authenticating) {
            let byte = host_decision_byte(expected, provided);
            if byte == 1 {
                self.phase = HostPhase::Authenticated;
            } else {
                self.phase = HostPhase::Rejected;
            }
            Some(byte)
        } else {
            None
        }
    }
}

/// Single-use rendezvous: after a listening run takes its first inbound
/// connection, a second connection changes nothing but the count - the
/// rendezvous stays the first connection, and the later one is never
/// evaluated against the secret.
pub proof fn lemma_single_rendezvous(r: HostRun)
    requires
        r.phase is Listening,
        r.connections + 2 <= u64::MAX,
    ensures
        spec_on_connection(spec_on_connection(r)).rendezvous == Some((r.connections + 1) as u64),
        spec_on_connection(spec_on_connection(r)).phase == spec_on_connection(r).phase,
        spec_on_connection(spec_on_connection(r)).rendezvous == spec_on_connection(r).rendezvous,
{
}

/// Phases of the guest's handshake.
#[derive(Clone, Copy, Debug, PartialEq, Eq, Structural)]
pub enum GuestPhase {
    Init,
    Connecting,
    AwaitingDecision,
    Authenticated,
    Rejected,
}

/// Effect of the host's answer byte on a waiting guest: `1` lets it in,
/// anything else rejects it; in any other phase nothing changes.
pub open spec fn spec_guest_on_decision(p: GuestPhase, b: u8) -> GuestPhase {
    if p is AwaitingDecision {
        if spec_guest_accepts(b) {
            GuestPhase::Authenticated
        } else {
            GuestPhase::Rejected
        }
    } else {
        p
    }
}

/// One step of the guest state machine on the host's answer byte.
pub fn guest_on_decision(p: GuestPhase, b: u8) -> (r: GuestPhase)
    ensures
        r == spec_guest_on_decision(p, b),
{
    if matches!(p, GuestPhase::AwaitingDecision) {
        if guest_accepts(b) {
            GuestPhase::Authenticated
        } else {
            GuestPhase::Rejected
        }
    } else {
        p
    }
}

} // verus!
