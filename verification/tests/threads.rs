use vernier_ffi::threads::{
    build_scoped_pool, build_worker_pool, policy_pool, pool_thread_name, read_count,
    resolve_threads, resolve_threads_given, resolve_threads_raw, PoolKind, ThreadPolicy,
    WarnLatches, REENTRY_WARNING,
};

fn resolve_no_py(arg: Option<usize>, available: Option<usize>) -> ThreadPolicy {
    let mut latches = WarnLatches { reentry: false, env: false };
    let (policy, _) = resolve_threads_given(&mut latches, false, arg, &None, available);
    policy
}

#[test]
fn none_one_and_invalid_env_resolve_sequential() {
    assert_eq!(resolve_no_py(None, Some(8)), ThreadPolicy::Sequential);
    assert_eq!(resolve_no_py(Some(1), Some(8)), ThreadPolicy::Sequential);
}

#[test]
fn explicit_n_builds_pool() {
    assert_eq!(resolve_no_py(Some(4), Some(8)), ThreadPolicy::Pool(4));
}

#[test]
fn zero_resolves_to_available_or_sequential() {
    for available in [None, Some(1), Some(2), Some(64)] {
        match resolve_no_py(Some(0), available) {
            ThreadPolicy::Sequential => {}
            ThreadPolicy::Pool(n) => assert!(n >= 2),
        }
    }
}

#[test]
fn build_pool_succeeds_for_small_n() {
    let pool = build_scoped_pool(2).expect("pool builds");
    assert_eq!(pool.current_num_threads(), 2);
}

#[test]
fn counts_are_read_with_spaces_around_them() {
    assert_eq!(read_count("4"), Some(4));
    assert_eq!(read_count("  +12\t"), Some(12));
    assert_eq!(read_count("\u{2003}7\u{a0}"), Some(7));
    assert_eq!(read_count(""), None);
    assert_eq!(read_count("4.0"), None);
    assert_eq!(read_count("-1"), None);
    assert_eq!(read_count("99999999999999999999999"), None);
    for n in [0usize, 1, 9, 10, 12345, usize::MAX] {
        assert_eq!(read_count(&n.to_string()), Some(n));
    }
}

#[test]
fn the_argument_wins_over_the_variable() {
    let env = Some("8".to_string());
    assert_eq!(resolve_threads_raw(Some(3), &env, Some(16)), Some((3, false)));
    assert_eq!(resolve_threads_raw(None, &env, Some(16)), Some((8, true)));
    assert_eq!(resolve_threads_raw(None, &None, Some(16)), None);
    assert_eq!(resolve_threads_raw(None, &Some("lots".to_string()), Some(16)), None);
    assert_eq!(resolve_threads_raw(Some(0), &None, Some(16)), Some((16, false)));
    assert_eq!(resolve_threads_raw(Some(0), &None, None), Some((1, false)));
}

#[test]
fn each_warning_is_given_once() {
    let mut latches = WarnLatches { reentry: false, env: false };
    let env = Some("4".to_string());
    let (policy, warning) = resolve_threads_given(&mut latches, false, None, &env, None);
    assert_eq!(policy, ThreadPolicy::Pool(4));
    assert_eq!(warning.as_deref(), Some("vernier: num_threads=4 (from VERNIER_NUM_THREADS)"));
    let (policy, warning) = resolve_threads_given(&mut latches, false, None, &env, None);
    assert_eq!(policy, ThreadPolicy::Pool(4));
    assert_eq!(warning, None);
    let (policy, warning) = resolve_threads_given(&mut latches, true, Some(4), &None, None);
    assert_eq!(policy, ThreadPolicy::Sequential);
    assert_eq!(warning.as_deref(), Some(REENTRY_WARNING));
    let (_, warning) = resolve_threads_given(&mut latches, true, Some(4), &None, None);
    assert_eq!(warning, None);
}

#[test]
fn workers_of_a_pool_work_alone() {
    let pool = build_scoped_pool(2).expect("pool builds");
    let policy = pool.install(|| {
        let mut latches = WarnLatches { reentry: false, env: false };
        resolve_threads(&mut latches, Some(8), &None, None).0
    });
    assert_eq!(policy, ThreadPolicy::Sequential);
    let mut latches = WarnLatches { reentry: false, env: false };
    assert_eq!(resolve_threads(&mut latches, Some(8), &None, None).0, ThreadPolicy::Pool(8));
}

#[test]
fn pools_name_their_threads() {
    assert_eq!(pool_thread_name(PoolKind::Scoped, 3), "vernier-rayon-3");
    assert_eq!(pool_thread_name(PoolKind::Background(5), 0), "vernier-bg-rayon-0");
    let pool = build_worker_pool(1, 0).expect("pool builds");
    assert_eq!(pool.current_num_threads(), 1);
}

#[test]
fn a_policy_asks_for_its_pool() {
    assert!(policy_pool(ThreadPolicy::Sequential).unwrap().is_none());
    let pool = policy_pool(ThreadPolicy::Pool(3)).unwrap().expect("pool builds");
    assert_eq!(pool.current_num_threads(), 3);
}
