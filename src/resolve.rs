//! What a target resolves through: an IPv4 address is used as it is, a
//! name is looked up as `host:port`, retrying a bounded number of times.
use vstd::prelude::*;
use vstd::string::StringExecFns;
use crate::codec::{AddrData, AddrView};

verus! {

/// How many times a failed lookup is tried again.
pub const DNS_RETRIES: u32 = 5;

/// The decimal digit `d`.
pub open spec fn digit(d: nat) -> char {
    seq!['0', '1', '2', '3', '4', '5', '6', '7', '8', '9'][d as int]
}

/// The decimal text of `n`, without leading zeros.
pub open spec fn decimal(n: nat) -> Seq<char>
    decreases n,
{
    if n < 10 {
        seq![digit(n)]
    } else {
        decimal(n / 10) + seq![digit(n % 10)]
    }
}

/// The text `host:port`.
pub open spec fn host_port_text(host: Seq<char>, port: u16) -> Seq<char> {
    host + seq![':'] + decimal(port as nat)
}

/// Relies on u16's ToString (its Display): the decimal digits of the
/// number, without sign or leading zeros.
#[verifier::external_body]
fn port_text(port: u16) -> (r: String)
    ensures
        r@ == decimal(port as nat),
{
    port.to_string()
}

/// The socket address text `host:port`.
pub fn host_port(host: &str, port: u16) -> (r: String)
    ensures
        r@ == host_port_text(host@, port),
{
    let mut s = host.to_owned();
    proof {
        reveal_strlit(":");
    }
    s.append(":");
    let p = port_text(port);
    s.append(p.as_str());
    assert(s@ =~= host_port_text(host@, port));
    s
}

/// How a target is reached.
#[derive(Clone, Debug, PartialEq, Eq)]
pub enum Resolution {
    /// This address and port, with no lookup.
    Direct([u8; 4], u16),
    /// The first address that a lookup of this `host:port` text gives.
    Lookup(String),
}

/// Decides how `addr` and `port` are reached.
pub fn resolve_addr(addr: &AddrData, port: u16) -> (r: Resolution)
    ensures
        match addr@ {
            AddrView::IPv4(ip) => r matches Resolution::Direct(a, p) && a@ == ip && p == port,
            AddrView::DomainName(name) => r matches Resolution::Lookup(t) && t@ == host_port_text(
                name,
                port,
            ),
        },
{
    match addr {
        AddrData::IPv4(ip) => Resolution::Direct(*ip, port),
        AddrData::DomainName(host) => Resolution::Lookup(host_port(host.as_str(), port)),
    }
}

/// What follows a failed lookup.
#[derive(Clone, Copy, Debug, PartialEq, Eq)]
pub enum RetryAction {
    Retry,
    GiveUp,
}

/// After `failures` failed lookups, with at most `retries` retries.
pub open spec fn retry_action(failures: nat, retries: nat) -> RetryAction {
    if failures > retries {
        RetryAction::GiveUp
    } else {
        RetryAction::Retry
    }
}

/// The count of failed lookups of one resolution.
pub struct RetryState {
    retries: u32,
    failures: u64,
}

impl RetryState {
    pub closed spec fn retries(&self) -> nat {
        self.retries as nat
    }

    pub closed spec fn failures(&self) -> nat {
        self.failures as nat
    }

    /// No lookup made yet, with at most `retries` retries.
    pub fn new(retries: u32) -> (r: RetryState)
        ensures
            r.retries() == retries,
            r.failures() == 0,
    {
        RetryState { retries, failures: 0 }
    }

    /// Records a failed lookup and says whether to try again.
    pub fn on_failure(&mut self) -> (r: RetryAction)
        requires
            old(self).failures() <= old(self).retries(),
        ensures
            final(self).retries() == old(self).retries(),
            final(self).failures() == old(self).failures() + 1,
            r == retry_action(final(self).failures(), final(self).retries()),
    {
        self.failures = self.failures + 1;
        if self.failures > self.retries as u64 {
            RetryAction::GiveUp
        } else {
            RetryAction::Retry
        }
    }
}

/// The end of a resolution.
pub ghost struct ResolveRun {
    pub succeeded: bool,
    pub attempts: nat,
}

/// A resolution whose lookups succeed as `outcomes` says, the count of
/// failures so far being `failures`.
pub open spec fn resolve_run(outcomes: Seq<bool>, failures: nat, retries: nat) -> ResolveRun
    decreases outcomes.len(),
{
    if outcomes.len() == 0 {
        ResolveRun { succeeded: false, attempts: 0 }
    } else if outcomes[0] {
        ResolveRun { succeeded: true, attempts: 1 }
    } else if retry_action(failures + 1, retries) == RetryAction::GiveUp {
        ResolveRun { succeeded: false, attempts: 1 }
    } else {
        let rest = resolve_run(outcomes.drop_first(), failures + 1, retries);
        ResolveRun { succeeded: rest.succeeded, attempts: rest.attempts + 1 }
    }
}

/// With lookups that fail `k` times, `k` at most the retries, and then
/// succeed, the resolution succeeds at attempt `k + 1`. With lookups that
/// always fail, it gives up after exactly `retries + 1` attempts.
pub proof fn lemma_resolve_retries(outcomes: Seq<bool>, retries: nat, k: nat)
    ensures
        k <= retries && k < outcomes.len() && outcomes[k as int] && (forall|i: int|
            0 <= i < k ==> !outcomes[i]) ==> resolve_run(outcomes, 0, retries) == (ResolveRun {
            succeeded: true,
            attempts: k + 1,
        }),
        retries < outcomes.len() && (forall|i: int| 0 <= i <= retries ==> !outcomes[i])
            ==> resolve_run(outcomes, 0, retries) == (ResolveRun {
            succeeded: false,
            attempts: retries + 1,
        }),
{
    lemma_resolve_from(outcomes, 0, retries, k);
}

proof fn lemma_resolve_from(outcomes: Seq<bool>, f: nat, retries: nat, k: nat)
    requires
        f <= retries,
    ensures
        f + k <= retries && k < outcomes.len() && outcomes[k as int] && (forall|i: int|
            0 <= i < k ==> !outcomes[i]) ==> resolve_run(outcomes, f, retries) == (ResolveRun {
            succeeded: true,
            attempts: k + 1,
        }),
        retries - f < outcomes.len() && (forall|i: int| 0 <= i <= retries - f ==> !outcomes[i])
            ==> resolve_run(outcomes, f, retries) == (ResolveRun {
            succeeded: false,
            attempts: (retries - f + 1) as nat,
        }),
    decreases outcomes.len(),
{
    if outcomes.len() > 0 && f < retries {
        let rest = outcomes.drop_first();
        if k > 0 {
            lemma_resolve_from(rest, f + 1, retries, (k - 1) as nat);
        } else {
            lemma_resolve_from(rest, f + 1, retries, 0);
        }
        if retries - f < outcomes.len() && (forall|i: int| 0 <= i <= retries - f ==> !outcomes[i]) {
            assert forall|i: int| 0 <= i <= retries - (f + 1) implies !rest[i] by {
                assert(!outcomes[i + 1]);
            }
        }
        if f + k <= retries && k < outcomes.len() && outcomes[k as int] && k > 0 && (forall|i: int|
            0 <= i < k ==> !outcomes[i]) {
            assert forall|i: int| 0 <= i < k - 1 implies !rest[i] by {
                assert(!outcomes[i + 1]);
            }
            assert(rest[k - 1] == outcomes[k as int]);
            assert(!outcomes[0]);
        }
    }
}

} // verus!
