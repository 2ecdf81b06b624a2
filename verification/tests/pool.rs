use grin_core::global::{set_local_chain_type, ChainTypes};
use grin_pool::job::{upstream_job_id, JobTemplate};
use grin_pool::pipeline::ShareReport;
use grin_pool::pool::{Config, Pool, DEFAULT_DIFFICULTY};
use grin_pool::share::{
    grade_solution, screen_share, ProofCheck, Share, ShareError, ShareOutcome,
};
use grin_pool::worker::{Outbound, ShareCount};
use grin_util::ToHex;

/// The pre-header, nonce and proof of the first block of the main network.
fn genesis_parts() -> (String, u64, Vec<u64>) {
    set_local_chain_type(ChainTypes::Mainnet);
    let genesis = grin_core::genesis::genesis_main();
    let mut pre_pow = genesis.header.pre_pow();
    let without_nonce = pre_pow.len() - 8;
    pre_pow.truncate(without_nonce);
    (pre_pow.to_hex(), genesis.header.pow.nonce, genesis.header.pow.proof.nonces.clone())
}

fn genesis_difficulty() -> u64 {
    set_local_chain_type(ChainTypes::Mainnet);
    grin_core::genesis::genesis_main().header.pow.to_unscaled_difficulty().to_num()
}

fn upstream_job(height: u64, upstream_id: u64, pre_pow: &str) -> JobTemplate {
    JobTemplate { job_id: upstream_id, height, pre_pow: pre_pow.to_string(), difficulty: 1 }
}

/// A pool with workers "alice-rig" and "bob-rig" logged in and promoted.
fn pool_with_two_workers(difficulty: u64) -> Pool {
    let mut pool = Pool::new(Config { difficulty });
    pool.apply_config();
    pool.register("1001".to_string(), 1);
    pool.register("1002".to_string(), 2);
    pool.workers.worker_mut(0).log_in("alice".to_string(), "rig".to_string());
    pool.workers.worker_mut(1).log_in("bob".to_string(), "rig".to_string());
    pool.process_worker_messages();
    pool
}

fn keys(pool: &Pool) -> Vec<String> {
    (0..pool.workers.len()).map(|i| pool.workers.key(i).clone()).collect()
}

fn some_proof(seed: u64) -> Vec<u64> {
    (0..42u64).map(|i| seed + 17 * i).collect()
}

fn share(job_id: u64, height: u64, edge_bits: u32, pow: Vec<u64>) -> Share {
    Share { job_id, height, edge_bits, nonce: 42, pow, worker_id: 0 }
}

#[test]
fn new_pool() {
    let pool = Pool::new(Config { difficulty: 3 });
    assert_eq!(pool.id, "Grin Pool");
    assert_eq!(DEFAULT_DIFFICULTY, 8);
    assert_eq!(pool.difficulty, 8);
    assert_eq!(pool.config, Config { difficulty: 3 });
    assert_eq!(pool.job.height, 0);
    assert_eq!(pool.job.job_id, 0);
    assert_eq!(pool.job.pre_pow, "");
    assert_eq!(pool.workers.len(), 0);
    assert!(pool.duplicates.is_empty());
    assert!(pool.job_versions.is_empty());
    assert!(pool.submitted.is_empty());
}

#[test]
fn apply_config_sets_the_difficulty() {
    let mut pool = Pool::new(Config { difficulty: 3 });
    pool.apply_config();
    assert_eq!(pool.difficulty, 3);
}

#[test]
fn register_uses_configured_difficulty() {
    let mut pool = Pool::new(Config { difficulty: 3 });
    pool.register("4211".to_string(), 7);
    assert_eq!(keys(&pool), vec!["4211"]);
    let w = pool.workers.worker(0);
    assert_eq!(w.connection_id, 7);
    assert_eq!(w.full_id(), "4211");
    assert_eq!(w.status.difficulty, 3);
    assert!(!w.authenticated);
}

#[test]
fn new_job_gets_derived_id_and_is_broadcast() {
    let mut pool = pool_with_two_workers(8);
    pool.register("1003".to_string(), 3);
    pool.accept_new_job(&upstream_job(100, 7, "ab12"));
    assert_eq!(pool.job.job_id, 100007);
    assert_eq!(pool.job.height, 100);
    assert_eq!(pool.job.pre_pow, "ab12");
    assert_eq!(pool.job_versions.len(), 1);
    assert_eq!(pool.job_versions.get(&100007), Some(&"ab12".to_string()));
    // the two authenticated workers got the job, the third did not
    for i in 0..2 {
        let w = pool.workers.worker_mut(i);
        assert_eq!(w.status.height, 100);
        assert_eq!(w.status.difficulty, 8);
        assert_eq!(w.worker_shares.height, 100);
        assert!(!w.needs_job);
        let out = w.take_outbox();
        assert_eq!(out.len(), 1);
        match &out[0] {
            Outbound::Job { job, response } => {
                assert_eq!(job.job_id, 100007);
                assert_eq!(job.height, 100);
                assert_eq!(job.pre_pow, "ab12");
                assert_eq!(job.difficulty, 8);
                assert!(!*response);
            }
            other => panic!("unexpected message {:?}", other),
        }
    }
    assert!(pool.workers.worker_mut(2).outbox.is_empty());
    assert_eq!(pool.workers.worker_mut(2).status.height, 0);
}

#[test]
fn same_pre_header_is_no_new_job() {
    let mut pool = pool_with_two_workers(8);
    pool.accept_new_job(&upstream_job(100, 7, "ab12"));
    pool.workers.worker_mut(0).take_outbox();
    pool.accept_new_job(&upstream_job(100, 8, "ab12"));
    assert_eq!(pool.job.job_id, 100007);
    assert_eq!(pool.job_versions.len(), 1);
    assert!(pool.workers.worker_mut(0).outbox.is_empty());
}

#[test]
fn versions_at_one_height_are_all_kept() {
    let mut pool = pool_with_two_workers(8);
    pool.accept_new_job(&upstream_job(100, 7, "ab12"));
    pool.duplicates.observe(&vec![1, 2, 3], 1);
    pool.accept_new_job(&upstream_job(100, 8, "ab13"));
    assert_eq!(pool.job.job_id, 100008);
    assert_eq!(pool.job_versions.len(), 2);
    assert_eq!(pool.job_versions.get(&100007), Some(&"ab12".to_string()));
    assert_eq!(pool.job_versions.get(&100008), Some(&"ab13".to_string()));
    assert!(pool.duplicates.contains(&vec![1, 2, 3]));
}

#[test]
fn new_height_starts_a_new_epoch() {
    let mut pool = pool_with_two_workers(8);
    pool.accept_new_job(&upstream_job(100, 7, "ab12"));
    pool.duplicates.observe(&vec![1, 2, 3], 1);
    pool.accept_new_job(&upstream_job(101, 2, "cd34"));
    assert_eq!(pool.job.job_id, 101002);
    assert!(pool.duplicates.is_empty());
    assert_eq!(pool.job_versions.len(), 1);
    assert_eq!(pool.job_versions.get(&101002), Some(&"cd34".to_string()));
    assert_eq!(pool.job_versions.get(&100007), None);
}

#[test]
fn send_jobs_reaches_only_waiting_workers() {
    let mut pool = pool_with_two_workers(5);
    pool.register("1003".to_string(), 3);
    pool.accept_new_job(&upstream_job(100, 7, "ab12"));
    for i in 0..pool.workers.len() {
        pool.workers.worker_mut(i).take_outbox();
    }
    // nobody waits
    pool.send_jobs();
    assert!((0..pool.workers.len()).all(|i| pool.workers.worker(i).outbox.is_empty()));
    // bob asks for a job; the third worker asks too but is not logged in
    pool.workers.worker_mut(1).request_job();
    pool.workers.worker_mut(1).record(ShareOutcome::Accepted, 31);
    pool.workers.worker_mut(2).request_job();
    pool.send_jobs();
    assert!(pool.workers.worker_mut(0).outbox.is_empty());
    assert!(pool.workers.worker_mut(2).outbox.is_empty());
    assert!(pool.workers.worker_mut(2).needs_job);
    let bob = pool.workers.worker_mut(1);
    assert!(!bob.needs_job);
    assert!(bob.worker_shares.by_edge_bits.is_empty());
    assert_eq!(bob.status.difficulty, 5);
    let out = bob.take_outbox();
    assert_eq!(out.len(), 2);
    match &out[1] {
        Outbound::Job { job, response } => {
            assert_eq!(job.job_id, 100007);
            assert_eq!(job.difficulty, 5);
            assert!(*response);
        }
        other => panic!("unexpected message {:?}", other),
    }
}

#[test]
fn login_promotes_the_worker() {
    let mut pool = Pool::new(Config { difficulty: 8 });
    pool.apply_config();
    pool.register("1001".to_string(), 1);
    pool.register("1002".to_string(), 2);
    pool.accept_new_job(&upstream_job(100, 7, "ab12"));
    pool.workers.worker_mut(0).record(ShareOutcome::InvalidSize, 12);
    pool.workers.worker_mut(1).record(ShareOutcome::InvalidSize, 12);
    pool.process_worker_messages();
    // nobody logged in: nothing moves
    assert_eq!(keys(&pool), vec!["1001", "1002"]);
    assert_eq!(pool.workers.worker_mut(0).worker_shares.by_edge_bits.len(), 1);

    pool.workers.worker_mut(0).log_in("alice".to_string(), "rig".to_string());
    pool.process_worker_messages();
    assert_eq!(keys(&pool), vec!["1002", "alice-rig"]);
    let alice = pool.workers.worker(1);
    assert_eq!(alice.connection_id, 1);
    assert!(alice.worker_shares.by_edge_bits.is_empty());
    assert_eq!(alice.worker_shares.height, 100);
    assert_eq!(alice.worker_shares.difficulty, 8);
    // the other worker keeps its tallies
    assert_eq!(pool.workers.worker_mut(0).worker_shares.by_edge_bits.len(), 1);
}

#[test]
fn clean_workers_drops_failed_connections() {
    let mut pool = pool_with_two_workers(8);
    pool.register("1003".to_string(), 3);
    assert_eq!(pool.clean_workers(), 3);
    pool.workers.worker_mut(0).set_error();
    pool.workers.worker_mut(2).set_error();
    assert_eq!(pool.clean_workers(), 1);
    assert_eq!(keys(&pool), vec!["bob-rig"]);
}

#[test]
fn same_proof_twice_is_a_duplicate() {
    let mut pool = pool_with_two_workers(8);
    pool.accept_new_job(&upstream_job(100, 7, "ab12"));
    let first = pool.process_share(0, &share(100007, 100, 31, some_proof(1000)));
    // the first goes on to the later stages (and fails the proof of work)
    assert_eq!(first, ShareReport { outcome: ShareOutcome::InvalidProof, check: ProofCheck::Failed });
    assert!(pool.duplicates.contains(&some_proof(1000)));
    // the second stops at the first stage, from the same worker or another
    let second = pool.process_share(0, &share(100007, 100, 31, some_proof(1000)));
    assert_eq!(second.outcome, ShareOutcome::Duplicate);
    let third = pool.process_share(1, &share(5, 99, 3, some_proof(1000)));
    assert_eq!(third.outcome, ShareOutcome::Duplicate);
    assert_eq!(
        pool.workers.worker_mut(0).status.count,
        ShareCount { accepted: 0, rejected: 2, stale: 0 }
    );
    assert_eq!(
        pool.workers.worker_mut(1).status.count,
        ShareCount { accepted: 0, rejected: 1, stale: 0 }
    );
    let out = pool.workers.worker_mut(1).take_outbox();
    match out.last() {
        Some(Outbound::SubmitError(e)) => {
            assert_eq!(*e, ShareError::FailedValidation);
            assert_eq!(e.code(), -32502);
        }
        other => panic!("unexpected message {:?}", other),
    }
}

#[test]
fn stale_share_is_rejected_whatever_its_proof() {
    let (pre_pow, nonce, proof) = genesis_parts();
    let mut pool = pool_with_two_workers(1);
    pool.accept_new_job(&upstream_job(100, 7, &pre_pow));
    // a valid solution, but for height 99
    let stale =
        Share { job_id: 100007, height: 99, edge_bits: 29, nonce, pow: proof, worker_id: 1 };
    let report = pool.process_share(0, &stale);
    assert_eq!(report.outcome, ShareOutcome::Stale);
    assert_eq!(report.check, ProofCheck::Failed);
    assert_eq!(
        pool.workers.worker_mut(0).status.count,
        ShareCount { accepted: 0, rejected: 0, stale: 1 }
    );
    assert_eq!(
        pool.workers.worker_mut(0).worker_shares.by_edge_bits.get(&29),
        Some(&ShareCount { accepted: 0, rejected: 0, stale: 1 })
    );
    let out = pool.workers.worker_mut(0).take_outbox();
    match out.last() {
        Some(Outbound::SubmitError(e)) => {
            assert_eq!(e.code(), -32503);
            assert_eq!(e.message(), "Solution submitted too late");
        }
        other => panic!("unexpected message {:?}", other),
    }
    assert!(pool.submitted.is_empty());
}

#[test]
fn invalid_size_and_unknown_job() {
    let mut pool = pool_with_two_workers(8);
    pool.accept_new_job(&upstream_job(100, 7, "ab12"));
    let r = pool.process_share(0, &share(100007, 100, 28, some_proof(1)));
    assert_eq!(r.outcome, ShareOutcome::InvalidSize);
    let r = pool.process_share(0, &share(100007, 100, 30, some_proof(2)));
    assert_eq!(r.outcome, ShareOutcome::InvalidSize);
    let r = pool.process_share(0, &share(100008, 100, 31, some_proof(3)));
    assert_eq!(r.outcome, ShareOutcome::UnknownJob);
    assert_eq!(
        pool.workers.worker_mut(0).status.count,
        ShareCount { accepted: 0, rejected: 3, stale: 0 }
    );
    // even the rejected proof vectors count as seen
    assert!(pool.duplicates.contains(&some_proof(1)));
    assert!(pool.duplicates.contains(&some_proof(3)));
    assert_eq!(pool.duplicates.first_submitter(&some_proof(3)), Some(0));
}

#[test]
fn valid_solution_is_accepted_and_forwarded() {
    let (pre_pow, nonce, proof) = genesis_parts();
    let difficulty = genesis_difficulty();
    let mut pool = pool_with_two_workers(1);
    pool.accept_new_job(&upstream_job(100, 7, &pre_pow));
    assert_eq!(pool.job.job_id, 100007);
    let good = Share {
        job_id: 100007,
        height: 100,
        edge_bits: 29,
        nonce,
        pow: proof.clone(),
        worker_id: 2,
    };
    let report = pool.process_share(1, &good);
    assert_eq!(
        report,
        ShareReport { outcome: ShareOutcome::Accepted, check: ProofCheck::Verified { difficulty } }
    );
    assert_eq!(
        pool.workers.worker_mut(1).status.count,
        ShareCount { accepted: 1, rejected: 0, stale: 0 }
    );
    let out = pool.workers.worker_mut(1).take_outbox();
    assert!(matches!(out.last(), Some(Outbound::SubmitOk)));
    // forwarded under the upstream's own identifier, credited to the worker
    let forwarded = pool.take_submitted();
    assert!(pool.submitted.is_empty());
    assert_eq!(forwarded.len(), 1);
    assert_eq!(forwarded[0].worker, "bob-rig");
    assert_eq!(forwarded[0].share.job_id, 7);
    assert_eq!(forwarded[0].share.height, 100);
    assert_eq!(forwarded[0].share.edge_bits, 29);
    assert_eq!(forwarded[0].share.nonce, nonce);
    assert_eq!(forwarded[0].share.pow, proof);
    assert_eq!(forwarded[0].share.worker_id, 2);
    assert_eq!(pool.duplicates.first_submitter(&proof), Some(2));
}

#[test]
fn solution_below_the_worker_difficulty() {
    let (pre_pow, nonce, proof) = genesis_parts();
    let difficulty = genesis_difficulty();
    if difficulty == u64::MAX {
        return;
    }
    let mut pool = pool_with_two_workers(difficulty + 1);
    pool.accept_new_job(&upstream_job(100, 7, &pre_pow));
    let good = Share { job_id: 100007, height: 100, edge_bits: 29, nonce, pow: proof, worker_id: 1 };
    let report = pool.process_share(0, &good);
    assert_eq!(
        report,
        ShareReport {
            outcome: ShareOutcome::BelowTarget,
            check: ProofCheck::Verified { difficulty }
        }
    );
    assert!(pool.submitted.is_empty());
    let out = pool.workers.worker_mut(0).take_outbox();
    match out.last() {
        Some(Outbound::SubmitError(e)) => {
            assert_eq!(e.message(), "Failed to validate solution");
        }
        other => panic!("unexpected message {:?}", other),
    }
}

#[test]
fn solution_for_an_older_job_of_the_height() {
    let (pre_pow, nonce, proof) = genesis_parts();
    let mut pool = pool_with_two_workers(1);
    pool.accept_new_job(&upstream_job(100, 7, &pre_pow));
    pool.accept_new_job(&upstream_job(100, 8, "ab12"));
    assert_eq!(pool.job.job_id, 100008);
    // the older job is still known, and the share is checked against the
    // pre-header that it was issued with
    let right =
        Share { job_id: 100007, height: 100, edge_bits: 29, nonce, pow: proof.clone(), worker_id: 1 };
    assert_eq!(pool.process_share(0, &right).outcome, ShareOutcome::Accepted);
    assert_eq!(pool.take_submitted()[0].share.job_id, 7);

    // against the pre-header of the current job the proof does not hold
    let mut pool = pool_with_two_workers(1);
    pool.accept_new_job(&upstream_job(100, 7, &pre_pow));
    pool.accept_new_job(&upstream_job(100, 8, "ab12"));
    let wrong = Share { job_id: 100008, height: 100, edge_bits: 29, nonce, pow: proof, worker_id: 1 };
    assert_eq!(pool.process_share(0, &wrong).outcome, ShareOutcome::InvalidProof);
}

#[test]
fn accepted_proof_can_come_again_at_the_next_height() {
    let (pre_pow, nonce, proof) = genesis_parts();
    let mut pool = pool_with_two_workers(1);
    pool.accept_new_job(&upstream_job(100, 7, &pre_pow));
    let at_100 =
        Share { job_id: 100007, height: 100, edge_bits: 29, nonce, pow: proof.clone(), worker_id: 1 };
    assert_eq!(pool.process_share(0, &at_100).outcome, ShareOutcome::Accepted);
    assert_eq!(pool.process_share(0, &at_100).outcome, ShareOutcome::Duplicate);
    // the same pre-header is no new job, so the upstream's next job differs
    // in it; here it is the same header with upper-case digits
    pool.accept_new_job(&upstream_job(101, 7, &pre_pow.to_uppercase()));
    assert_eq!(pool.job.job_id, 101007);
    let at_101 =
        Share { job_id: 101007, height: 101, edge_bits: 29, nonce, pow: proof, worker_id: 1 };
    assert_eq!(pool.process_share(0, &at_101).outcome, ShareOutcome::Accepted);
    let forwarded = pool.take_submitted();
    assert_eq!(forwarded.len(), 2);
    assert_eq!(forwarded[0].share.job_id, 7);
    assert_eq!(forwarded[1].share.job_id, 101007 % 101);
    // the old job is no longer known
    assert_eq!(pool.process_share(1, &share(100007, 101, 29, some_proof(5))).outcome, ShareOutcome::UnknownJob);
}

#[test]
fn process_shares_takes_workers_and_shares_in_order() {
    let (pre_pow, nonce, proof) = genesis_parts();
    let difficulty = genesis_difficulty();
    let mut pool = pool_with_two_workers(1);
    pool.accept_new_job(&upstream_job(100, 7, &pre_pow));
    let good = Share { job_id: 100007, height: 100, edge_bits: 29, nonce, pow: proof, worker_id: 0 };
    // bob submitted the good share first, but alice stands first in the registry
    pool.workers.worker_mut(1).submit(good.clone());
    pool.workers.worker_mut(1).submit(share(100007, 99, 31, some_proof(9)));
    pool.workers.worker_mut(0).submit(share(100007, 100, 12, some_proof(7)));
    pool.workers.worker_mut(0).submit(good.clone());
    pool.workers.worker_mut(0).submit(good);
    let reports = pool.process_shares();
    assert_eq!(reports.len(), 2);
    assert_eq!(
        reports[0],
        vec![
            ShareReport { outcome: ShareOutcome::InvalidSize, check: ProofCheck::Failed },
            ShareReport {
                outcome: ShareOutcome::Accepted,
                check: ProofCheck::Verified { difficulty }
            },
            ShareReport { outcome: ShareOutcome::Duplicate, check: ProofCheck::Failed },
        ]
    );
    assert_eq!(
        reports[1],
        vec![
            ShareReport { outcome: ShareOutcome::Duplicate, check: ProofCheck::Failed },
            ShareReport { outcome: ShareOutcome::Stale, check: ProofCheck::Failed },
        ]
    );
    assert!((0..pool.workers.len()).all(|i| pool.workers.worker(i).shares.is_empty()));
    assert_eq!(
        pool.workers.worker_mut(0).status.count,
        ShareCount { accepted: 1, rejected: 2, stale: 0 }
    );
    assert_eq!(
        pool.workers.worker_mut(1).status.count,
        ShareCount { accepted: 0, rejected: 1, stale: 1 }
    );
    let forwarded = pool.take_submitted();
    assert_eq!(forwarded.len(), 1);
    assert_eq!(forwarded[0].worker, "alice-rig");
    assert_eq!(forwarded[0].share.job_id, 7);
    assert_eq!(forwarded[0].share.worker_id, 1);
    // nothing is left to do
    assert!(pool.has_room_for_shares());
    let reports = pool.process_shares();
    assert_eq!(reports, vec![vec![], vec![]]);
}

#[test]
fn process_queue_reports_each_share() {
    let mut pool = pool_with_two_workers(8);
    pool.accept_new_job(&upstream_job(100, 7, "ab12"));
    let shares = vec![
        share(100007, 100, 31, some_proof(1)),
        share(100007, 100, 31, some_proof(1)),
        share(100007, 101, 31, some_proof(2)),
    ];
    let reports = pool.process_queue(1, &shares);
    assert_eq!(
        reports.iter().map(|r| r.outcome).collect::<Vec<_>>(),
        vec![ShareOutcome::InvalidProof, ShareOutcome::Duplicate, ShareOutcome::Stale]
    );
    assert_eq!(
        pool.workers.worker(1).status.count,
        ShareCount { accepted: 0, rejected: 2, stale: 1 }
    );
    assert_eq!(pool.workers.worker(0).status.count, ShareCount::zero());
    assert!(pool.process_queue(0, &vec![]).is_empty());
}

#[test]
fn full_tallies_leave_no_room_for_shares() {
    let mut pool = pool_with_two_workers(8);
    assert!(pool.has_room_for_shares());
    pool.workers.worker_mut(1).status.count.rejected = u64::MAX - 1;
    pool.workers.worker_mut(1).submit(share(1, 1, 31, some_proof(1)));
    assert!(pool.has_room_for_shares());
    pool.workers.worker_mut(1).submit(share(1, 1, 31, some_proof(2)));
    assert!(!pool.has_room_for_shares());
    assert!(pool.workers.worker(0).has_room_for_queue());
    assert!(!pool.workers.worker(1).has_room_for_queue());
}

#[test]
fn scenario_job_100007() {
    // the job of height 100 with the upstream's identifier 7
    let mut pool = pool_with_two_workers(8);
    pool.accept_new_job(&upstream_job(100, 7, "ab12"));
    assert_eq!(pool.job.job_id, 100007);
    assert_eq!(pool.workers.worker_mut(0).status.difficulty, 8);
    // a share for it passes the stages that need no proof-of-work check
    let known = pool.job_versions.contains_key(&100007);
    assert_eq!(screen_share(false, 31, 100, pool.job.height, known), None);
    // with a difficulty above the worker's it is accepted
    assert_eq!(
        grade_solution(ProofCheck::Verified { difficulty: 9 }, 8),
        ShareOutcome::Accepted
    );
    // and goes upstream as job 7
    assert_eq!(upstream_job_id(100007, 100), 7);
}
