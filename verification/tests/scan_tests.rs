use genesis_discovery::Ipv4;
use genesis_discovery::ScanAction;
use genesis_discovery::ScanEvent;
use genesis_discovery::ScanState;
use genesis_discovery::probe_outcome;

/// Drive a whole scan: `alive` says which host numbers answer the liveness
/// probe, `genesis` is what a live peer reports. Returns the scan's result
/// and every address that was probed.
fn drive_scan(
    local: Ipv4,
    alive: impl Fn(u8) -> bool,
    genesis: impl Fn(u8) -> Option<String>,
) -> (Option<String>, Vec<Ipv4>) {
    let mut probed: Vec<Ipv4> = Vec::new();
    let (mut st, mut act) = ScanState::start(local);
    loop {
        match act {
            ScanAction::Probe(a) => {
                probed.push(a);
                act = st.step(ScanEvent::Alive(alive(a.d)));
            }
            ScanAction::FetchGenesis(a) => {
                act = st.step(ScanEvent::Genesis(genesis(a.d)));
            }
            ScanAction::Finished(g) => return (g, probed),
        }
    }
}

fn host(d: u8) -> Ipv4 {
    Ipv4 { a: 192, b: 168, c: 1, d }
}

#[test]
fn scan_finds_peer_and_learns_genesis() {
    // Subnet 192.168.1, local address 192.168.1.5, a live peer at
    // 192.168.1.10 that reports genesis 192.168.1.2.
    let local = host(5);
    let (got, probed) = drive_scan(
        local,
        |d| d == 10,
        |d| {
            assert_eq!(d, 10);
            Some(String::from("192.168.1.2"))
        },
    );
    assert_eq!(got, Some(String::from("192.168.1.2")));
    assert!(!probed.contains(&local));
    let order: Vec<u8> = probed.iter().map(|a| a.d).collect();
    assert_eq!(order, vec![1, 2, 3, 4, 6, 7, 8, 9, 10]);
}

#[test]
fn scan_with_no_live_peer_returns_none() {
    // No address in the range answers except (at most) the node itself.
    let local = host(5);
    let (got, probed) = drive_scan(local, |_| false, |_| None);
    assert_eq!(got, None);
    assert_eq!(probed.len(), 243);
    assert!(!probed.contains(&local));
    for a in &probed {
        assert_eq!((a.a, a.b, a.c), (192, 168, 1));
        assert!(1 <= a.d && a.d <= 244);
    }
}

#[test]
fn scan_never_probes_self_even_at_range_edges() {
    for own in [1u8, 2, 100, 244] {
        let local = host(own);
        let (got, probed) = drive_scan(local, |_| false, |_| None);
        assert_eq!(got, None);
        assert_eq!(probed.len(), 243);
        assert!(!probed.contains(&local));
    }
}

#[test]
fn scan_probes_whole_range_when_local_is_outside_it() {
    // A local host number outside 1..=244 excludes nothing.
    let local = host(250);
    let (got, probed) = drive_scan(local, |_| false, |_| None);
    assert_eq!(got, None);
    assert_eq!(probed.len(), 244);
    assert_eq!(probed.first().map(|a| a.d), Some(1));
    assert_eq!(probed.last().map(|a| a.d), Some(244));
}

#[test]
fn scan_continues_after_failed_genesis_fetch() {
    // The peer at .3 is alive but its genesis reply fails; the peer at .7
    // answers properly. The scan moves on rather than giving up.
    let local = host(5);
    let (got, probed) = drive_scan(
        local,
        |d| d == 3 || d == 7,
        |d| if d == 7 { Some(String::from("192.168.1.9")) } else { None },
    );
    assert_eq!(got, Some(String::from("192.168.1.9")));
    let order: Vec<u8> = probed.iter().map(|a| a.d).collect();
    assert_eq!(order, vec![1, 2, 3, 4, 6, 7]);
}

#[test]
fn first_live_peer_wins() {
    // Two live peers: only the first is ever asked, and its answer is kept.
    let local = host(1);
    let (got, probed) = drive_scan(
        local,
        |d| d == 20 || d == 30,
        |d| Some(format!("192.168.1.{}", d)),
    );
    assert_eq!(got, Some(String::from("192.168.1.20")));
    assert_eq!(probed.last().map(|a| a.d), Some(20));
}

#[test]
fn probe_outcome_accepts_only_success_statuses() {
    assert!(probe_outcome(Some(200)));
    assert!(probe_outcome(Some(204)));
    assert!(probe_outcome(Some(299)));
    assert!(!probe_outcome(Some(300)));
    assert!(!probe_outcome(Some(404)));
    assert!(!probe_outcome(Some(500)));
    assert!(!probe_outcome(Some(199)));
    assert!(!probe_outcome(None));
}
