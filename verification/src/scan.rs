//! The subnet scan, as a state machine.
//!
//! The scan enumerates candidate host numbers 1 through 244 inside the local
//! /24 subnet, skipping the node's own address, and probes each candidate in
//! turn. The first live peer is asked for the genesis node's address, which
//! ends the scan; if the whole range is exhausted the scan reports that no
//! genesis node exists, and the caller becomes genesis itself.
//!
//! Probing is I/O, so the machine only decides: the caller performs each
//! [`ScanAction`] and feeds the outcome back as a [`ScanEvent`].

use vstd::prelude::*;

use crate::addr::Ipv4;

verus! {

/// The fixed service port every node listens on.
pub const PORT: u16 = 9999;

/// The smallest candidate host number of a scan.
pub const FIRST_HOST: u8 = 1;

/// The largest candidate host number of a scan.
pub const LAST_HOST: u8 = 244;

/// What the scan asks its driver to do next.
#[derive(Clone, PartialEq, Eq, Debug)]
pub enum ScanAction {
    /// Ask the node at this address whether it is alive.
    Probe(Ipv4),
    /// A live peer was found there: ask it for the genesis node's address.
    FetchGenesis(Ipv4),
    /// The scan is over; the learned genesis address, if any peer was found.
    Finished(Option<String>),
}

/// The outcome of the action the driver last performed.
#[derive(Clone, PartialEq, Eq, Debug)]
pub enum ScanEvent {
    /// Whether the probed candidate answered the liveness check in time.
    Alive(bool),
    /// The genesis address the live peer reported, or `None` when the
    /// follow-up request failed in any way.
    Genesis(Option<String>),
}

/// Where the scan stands between two actions.
#[derive(Clone, Copy, PartialEq, Eq, Structural, Debug)]
pub enum ScanPhase {
    /// Waiting for the liveness answer of candidate host `current`.
    Probing { current: u8 },
    /// Waiting for the genesis address of the live peer at host `peer`.
    Fetching { peer: u8 },
    /// The scan has emitted `Finished` and takes no further event.
    Done,
}

/// A running scan: the local address it must never probe, and its phase.
#[derive(Clone, Copy, PartialEq, Eq, Structural, Debug)]
pub struct ScanState {
    pub local: Ipv4,
    pub phase: ScanPhase,
}

/// The smallest candidate host number `i` with `from <= i <= LAST_HOST` that
/// is not the local host number, or `None` when the range is exhausted.
pub open spec fn spec_next_candidate(local_d: u8, from: u8) -> Option<u8> {
    if from > LAST_HOST {
        None
    } else if from != local_d {
        Some(from)
    } else if from < LAST_HOST {
        Some((from + 1) as u8)
    } else {
        None
    }
}

fn next_candidate(local_d: u8, from: u8) -> (r: Option<u8>)
    ensures
        r == spec_next_candidate(local_d, from),
{
    if from > LAST_HOST {
        None
    } else if from != local_d {
        Some(from)
    } else if from < LAST_HOST {
        Some(from + 1)
    } else {
        None
    }
}

impl ScanState {
    /// The candidate address with host number `n` in the local subnet.
    pub open spec fn candidate(self, n: u8) -> Ipv4 {
        self.local.spec_prefix().spec_host(n)
    }

    pub open spec fn wf(self) -> bool {
        match self.phase {
            ScanPhase::Probing { current } => FIRST_HOST <= current <= LAST_HOST
                && current != self.local.d,
            ScanPhase::Fetching { peer } => FIRST_HOST <= peer <= LAST_HOST
                && peer != self.local.d,
            ScanPhase::Done => true,
        }
    }

    /// Which kind of event the phase is waiting for.
    pub open spec fn event_fits(self, ev: ScanEvent) -> bool {
        match self.phase {
            ScanPhase::Probing { .. } => ev is Alive,
            ScanPhase::Fetching { .. } => ev is Genesis,
            ScanPhase::Done => false,
        }
    }

    /// The candidate just finished without a result: move on to the next
    /// one, or end the scan with no genesis found.
    pub open spec fn spec_advance(self, cur: u8) -> (ScanState, ScanAction) {
        if cur >= LAST_HOST {
            (ScanState { phase: ScanPhase::Done, ..self }, ScanAction::Finished(None))
        } else {
            match spec_next_candidate(self.local.d, (cur + 1) as u8) {
                Some(i) => (
                    ScanState { phase: ScanPhase::Probing { current: i }, ..self },
                    ScanAction::Probe(self.candidate(i)),
                ),
                None => (ScanState { phase: ScanPhase::Done, ..self }, ScanAction::Finished(None)),
            }
        }
    }

    pub open spec fn spec_start(local: Ipv4) -> (ScanState, ScanAction) {
        let s = ScanState { local, phase: ScanPhase::Done };
        match spec_next_candidate(local.d, FIRST_HOST) {
            Some(i) => (
                ScanState { local, phase: ScanPhase::Probing { current: i } },
                ScanAction::Probe(s.candidate(i)),
            ),
            None => (s, ScanAction::Finished(None)),
        }
    }

    pub open spec fn spec_step(self, ev: ScanEvent) -> (ScanState, ScanAction) {
        match self.phase {
            ScanPhase::Probing { current } => match ev {
                ScanEvent::Alive(true) => (
                    ScanState { phase: ScanPhase::Fetching { peer: current }, ..self },
                    ScanAction::FetchGenesis(self.candidate(current)),
                ),
                _ => self.spec_advance(current),
            },
            ScanPhase::Fetching { peer } => match ev {
                ScanEvent::Genesis(Some(g)) => (
                    ScanState { phase: ScanPhase::Done, ..self },
                    ScanAction::Finished(Some(g)),
                ),
                _ => self.spec_advance(peer),
            },
            ScanPhase::Done => (self, ScanAction::Finished(None)),
        }
    }

    /// Begin a scan from the given local address: the first action probes
    /// the first candidate of the range, which is never the local address.
    pub fn start(local: Ipv4) -> (r: (ScanState, ScanAction))
        ensures
            r == ScanState::spec_start(local),
            r.0.wf(),
            r.0.local == local,
            r.1 matches ScanAction::Probe(a) ==> a != local && a.spec_prefix()
                == local.spec_prefix(),
    {
        match next_candidate(local.d, FIRST_HOST) {
            Some(i) => {
                let s = ScanState { local, phase: ScanPhase::Probing { current: i } };
                let c = s.local.prefix().host(i);
                (s, ScanAction::Probe(c))
            },
            None => (
                ScanState { local, phase: ScanPhase::Done },
                ScanAction::Finished(None),
            ),
        }
    }

    fn advance(&mut self, cur: u8) -> (r: ScanAction)
        requires
            FIRST_HOST <= cur <= LAST_HOST,
        ensures
            (*final(self), r) == old(self).spec_advance(cur),
    {
        if cur >= LAST_HOST {
            self.phase = ScanPhase::Done;
            ScanAction::Finished(None)
        } else {
            match next_candidate(self.local.d, cur + 1) {
                Some(i) => {
                    self.phase = ScanPhase::Probing { current: i };
                    ScanAction::Probe(self.local.prefix().host(i))
                },
                None => {
                    self.phase = ScanPhase::Done;
                    ScanAction::Finished(None)
                },
            }
        }
    }

    /// Feed the outcome of the last action back in; the result is the next
    /// action to perform. A probe is never aimed at the local address.
    pub fn step(&mut self, ev: ScanEvent) -> (r: ScanAction)
        requires
            old(self).wf(),
            old(self).event_fits(ev),
        ensures
            (*final(self), r) == old(self).spec_step(ev),
            final(self).wf(),
            final(self).local == old(self).local,
            r matches ScanAction::Probe(a) ==> a != old(self).local && a.spec_prefix()
                == old(self).local.spec_prefix(),
    {
        let ph = self.phase;
        match ev {
            ScanEvent::Alive(ok) => match ph {
                ScanPhase::Probing { current } => {
                    if ok {
                        self.phase = ScanPhase::Fetching { peer: current };
                        ScanAction::FetchGenesis(self.local.prefix().host(current))
                    } else {
                        self.advance(current)
                    }
                },
                _ => {
                    proof {
                        assert(false);
                    }
                    ScanAction::Finished(None)
                },
            },
            ScanEvent::Genesis(g) => match ph {
                ScanPhase::Fetching { peer } => match g {
                    Some(gip) => {
                        self.phase = ScanPhase::Done;
                        ScanAction::Finished(Some(gip))
                    },
                    None => self.advance(peer),
                },
                _ => {
                    proof {
                        assert(false);
                    }
                    ScanAction::Finished(None)
                },
            },
        }
    }
}

/// What a whole scan returns when, from state `s`, the driver feeds back the
/// events `evs` one by one: `Some(g)` once the machine emits `Finished(g)`,
/// `None` while the scan is still waiting for further events.
pub open spec fn run_outcome(s: ScanState, evs: Seq<ScanEvent>) -> Option<Option<String>>
    decreases evs.len(),
{
    if evs.len() == 0 {
        None
    } else {
        let (s2, a) = s.spec_step(evs[0]);
        match a {
            ScanAction::Finished(g) => Some(g),
            _ => run_outcome(s2, evs.drop_first()),
        }
    }
}

/// The scanner never probes the node's own address: whatever phase a
/// well-formed scan is in and whatever event comes back, a probe the step
/// emits targets an address of the local subnet other than the local one.
pub proof fn lemma_never_probes_self(s: ScanState, ev: ScanEvent)
    requires
        s.wf(),
    ensures
        ({
            let (s2, a) = s.spec_step(ev);
            a matches ScanAction::Probe(t) ==> t != s.local && t.spec_prefix()
                == s.local.spec_prefix()
        }),
        ({
            let (s0, a0) = ScanState::spec_start(s.local);
            a0 matches ScanAction::Probe(t) ==> t != s.local && t.spec_prefix()
                == s.local.spec_prefix()
        }),
{
}

/// Skipping the local address by octets also skips it by text: a probe's
/// target never shares the local address's dotted-decimal form, which is
/// the comparison the deployment makes on the wire.
pub proof fn lemma_probe_differs_in_text(s: ScanState, ev: ScanEvent)
    requires
        s.wf(),
    ensures
        ({
            let (s2, a) = s.spec_step(ev);
            a matches ScanAction::Probe(t) ==> t.spec_dotted() != s.local.spec_dotted()
        }),
{
    let (s2, a) = s.spec_step(ev);
    match a {
        ScanAction::Probe(t) => {
            if t.spec_dotted() == s.local.spec_dotted() {
                crate::addr::lemma_dotted_injective(t, s.local);
            }
        },
        _ => {},
    }
}

proof fn lemma_all_dead_from(s: ScanState, evs: Seq<ScanEvent>)
    requires
        s.wf(),
        s.phase matches ScanPhase::Probing { current: cur } && evs.len() + cur >= 245,
        forall|i: int| 0 <= i < evs.len() ==> evs[i] == ScanEvent::Alive(false),
        evs.len() >= 1,
    ensures
        run_outcome(s, evs) == Some(Option::<String>::None),
    decreases evs.len(),
{
    match s.phase {
        ScanPhase::Probing { current } => {
            assert(evs[0] == ScanEvent::Alive(false));
            let (s2, a) = s.spec_step(evs[0]);
            if current >= LAST_HOST {
                assert(a == ScanAction::Finished(Option::<String>::None));
            } else {
                match spec_next_candidate(s.local.d, (current + 1) as u8) {
                    Some(i) => {
                        assert(i >= current + 1);
                        assert(forall|k: int|
                            0 <= k < evs.drop_first().len() ==> evs.drop_first()[k]
                                == ScanEvent::Alive(false));
                        lemma_all_dead_from(s2, evs.drop_first());
                    },
                    None => {
                        assert(a == ScanAction::Finished(Option::<String>::None));
                    },
                }
            }
        },
        _ => {
            assert(false);
        },
    }
}

/// No live peer anywhere: a scan whose probes all come back dead ends by
/// reporting that no genesis node exists, provided the driver supplies
/// enough answers to cover the whole candidate range.
pub proof fn lemma_all_dead_scan_yields_none(local: Ipv4, evs: Seq<ScanEvent>)
    requires
        forall|i: int| 0 <= i < evs.len() ==> evs[i] == ScanEvent::Alive(false),
        evs.len() >= 244,
    ensures
        ({
            let (s0, a0) = ScanState::spec_start(local);
            run_outcome(s0, evs) == Some(Option::<String>::None)
        }),
{
    let (s0, a0) = ScanState::spec_start(local);
    lemma_all_dead_from(s0, evs);
}

/// Whether the node at a probed address is taken to be alive: only an
/// explicit success status counts; a timeout or transport failure (`None`)
/// and every non-success status yield `false`.
pub open spec fn spec_probe_outcome(status: Option<u16>) -> bool {
    match status {
        Some(code) => 200 <= code < 300,
        None => false,
    }
}

/// Classify the outcome of one liveness probe from the HTTP status it got,
/// if it got one at all.
pub fn probe_outcome(status: Option<u16>) -> (r: bool)
    ensures
        r == spec_probe_outcome(status),
{
    match status {
        Some(code) => 200 <= code && code < 300,
        None => false,
    }
}

} // verus!
