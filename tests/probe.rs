use std::collections::HashSet;

use twitch_recover::probe::{ProbeScan, ProbeStep};
use twitch_recover::utils::{check_status, get_random_header};
use twitch_recover::{TwitchRecoverError, TwitchRecoverErrorKind, VodRecover, VodRecoverOptions};

/// Drives a scan to its end, answering 200 for the addresses in `live`;
/// each batch's outcomes are recorded last to first.
fn drive(mut scan: ProbeScan, live: &HashSet<String>) -> (Result<String, TwitchRecoverError>, usize) {
    let mut probes = 0;
    loop {
        match scan.next_step() {
            ProbeStep::Probe(batch) => {
                probes += batch.len();
                for offset in (0..batch.len()).rev() {
                    let status = if live.contains(&batch[offset]) { 200 } else { 404 };
                    scan.record(offset, status);
                }
            }
            ProbeStep::Done(r) => return (r, probes),
        }
    }
}

#[test]
fn scan_without_live_probes_every_candidate() {
    let vod = VodRecover::from_manual("streamer_name", "vod_id", 100000);
    let scan = vod.probe_scan(&VodRecoverOptions::default());
    let (result, probes) = drive(scan, &HashSet::new());
    assert!(matches!(result, Err(TwitchRecoverError::VodNotFound)));
    assert_eq!(probes, 60 * 17);
}

#[test]
fn scan_finds_the_single_live_candidate_anywhere_in_its_batch() {
    let vod = VodRecover::from_manual("streamer_name", "vod_id", 100000);
    let urls = vod.generate_all_urls();
    for index in [0, 5, 16, 17, 500, 1019] {
        let live: HashSet<String> = [urls[index].clone()].into_iter().collect();
        let scan = vod.probe_scan(&VodRecoverOptions::default());
        let (result, probes) = drive(scan, &live);
        assert_eq!(result.unwrap(), urls[index]);
        assert_eq!(probes, (index / 17 + 1) * 17);
    }
}

#[test]
fn scan_first_recorded_live_wins() {
    let batches = vec![vec!["a".to_string(), "b".to_string()], vec!["c".to_string()]];
    let mut scan = ProbeScan::new(batches);
    match scan.next_step() {
        ProbeStep::Probe(b) => assert_eq!(b, vec!["a", "b"]),
        _ => panic!("expected a batch"),
    }
    scan.record(1, 200);
    scan.record(0, 200);
    match scan.next_step() {
        ProbeStep::Done(Ok(u)) => assert_eq!(u, "b"),
        _ => panic!("expected the found address"),
    }
}

#[test]
fn scan_ignores_out_of_range_and_early_records() {
    let mut scan = ProbeScan::new(vec![vec!["a".to_string()]]);
    scan.record(0, 200);
    match scan.next_step() {
        ProbeStep::Probe(b) => assert_eq!(b, vec!["a"]),
        _ => panic!("expected a batch"),
    }
    scan.record(3, 200);
    scan.record(0, 500);
    match scan.next_step() {
        ProbeStep::Done(Err(e)) => assert_eq!(e.kind(), TwitchRecoverErrorKind::VodNotFound),
        _ => panic!("expected the end of the scan"),
    }
}

#[test]
fn scan_over_nothing_ends_at_once() {
    let mut scan = ProbeScan::new(Vec::new());
    assert!(matches!(scan.next_step(), ProbeStep::Done(Err(TwitchRecoverError::VodNotFound))));
}

#[test]
fn random_header_is_a_known_agent() {
    let ua = get_random_header().unwrap();
    assert!(ua.starts_with("Mozilla/5.0"));
}

#[test]
fn status_check() {
    assert!(check_status(200, "u").is_ok());
    match check_status(404, "https://x") {
        Err(TwitchRecoverError::BadResponseCode(s, u)) => {
            assert_eq!(s, 404);
            assert_eq!(u, "https://x");
        }
        _ => panic!("expected a response code error"),
    }
}
