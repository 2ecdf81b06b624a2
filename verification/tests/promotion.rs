use grin_pool::job::JobTemplate;
use grin_pool::pool::{Config, Pool};
use grin_pool::share::ShareOutcome;

fn keys(pool: &Pool) -> Vec<String> {
    (0..pool.workers.len()).map(|i| pool.workers.key(i).clone()).collect()
}

fn connections(pool: &Pool) -> Vec<u64> {
    (0..pool.workers.len()).map(|i| pool.workers.worker(i).connection_id).collect()
}

fn settled(pool: &Pool) -> bool {
    (0..pool.workers.len()).all(|i| *pool.workers.key(i) == pool.workers.worker(i).full_id())
}

#[test]
fn promotion_leaves_every_worker_under_its_identifier() {
    let mut pool = Pool::new(Config { difficulty: 8 });
    for (i, key) in ["11", "22", "33", "44"].iter().enumerate() {
        pool.register(key.to_string(), i as u64);
    }
    pool.workers.worker_mut(0).log_in("alice".to_string(), "a".to_string());
    pool.workers.worker_mut(2).log_in("carol".to_string(), "c".to_string());
    assert!(!settled(&pool));
    pool.process_worker_messages();
    assert!(settled(&pool));
    assert_eq!(keys(&pool), vec!["22", "44", "alice-a", "carol-c"]);
    assert_eq!(connections(&pool), vec![1, 3, 0, 2]);
    // a second round changes nothing
    pool.process_worker_messages();
    assert_eq!(keys(&pool), vec!["22", "44", "alice-a", "carol-c"]);
}

#[test]
fn two_workers_with_one_identifier() {
    let mut pool = Pool::new(Config { difficulty: 8 });
    pool.register("11".to_string(), 1);
    pool.register("22".to_string(), 2);
    pool.register("33".to_string(), 3);
    pool.workers.worker_mut(0).log_in("alice".to_string(), "rig".to_string());
    pool.workers.worker_mut(1).log_in("alice".to_string(), "rig".to_string());
    pool.process_worker_messages();
    // the one that is moved later takes the place
    assert_eq!(keys(&pool), vec!["33", "alice-rig"]);
    assert_eq!(connections(&pool), vec![3, 2]);
    assert!(settled(&pool));
}

#[test]
fn identifier_that_is_another_workers_placeholder() {
    let mut pool = Pool::new(Config { difficulty: 8 });
    pool.register("11".to_string(), 1);
    pool.register("x-y".to_string(), 2);
    pool.workers.worker_mut(0).log_in("x".to_string(), "y".to_string());
    pool.process_worker_messages();
    assert_eq!(keys(&pool), vec!["x-y"]);
    assert_eq!(connections(&pool), vec![1]);
    assert!(settled(&pool));
}

#[test]
fn promotion_resets_only_the_promoted() {
    let mut pool = Pool::new(Config { difficulty: 6 });
    pool.apply_config();
    pool.register("11".to_string(), 1);
    pool.register("22".to_string(), 2);
    let job = JobTemplate { job_id: 3, height: 250, pre_pow: "00".to_string(), difficulty: 1 };
    pool.accept_new_job(&job);
    for i in 0..2 {
        pool.workers.worker_mut(i).record(ShareOutcome::Stale, 31);
        pool.workers.worker_mut(i).record(ShareOutcome::Accepted, 29);
    }
    pool.workers.worker_mut(1).log_in("bob".to_string(), "rig".to_string());
    pool.process_worker_messages();
    assert_eq!(keys(&pool), vec!["11", "bob-rig"]);
    let kept = pool.workers.worker(0);
    assert_eq!(kept.worker_shares.by_edge_bits.len(), 2);
    assert_eq!(kept.worker_shares.height, 0);
    let bob = pool.workers.worker(1);
    assert!(bob.worker_shares.by_edge_bits.is_empty());
    assert_eq!(bob.worker_shares.height, 250);
    assert_eq!(bob.worker_shares.difficulty, 6);
    // what was counted since the connection stays
    assert_eq!(bob.status.count.accepted, 1);
    assert_eq!(bob.status.count.stale, 1);
}

#[test]
fn register_under_a_key_in_use_replaces_the_record() {
    let mut pool = Pool::new(Config { difficulty: 8 });
    pool.register("11".to_string(), 1);
    pool.register("22".to_string(), 2);
    pool.register("11".to_string(), 3);
    assert_eq!(keys(&pool), vec!["11", "22"]);
    assert_eq!(connections(&pool), vec![3, 2]);
}
