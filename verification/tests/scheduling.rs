use vernier_ffi::thread_sched::{
    affinity_outcome, apply_scheduling, nice_outcome, pin_after, priority_value, scheduling_outcome,
    set_thread_affinity,
};

#[test]
fn priority_line_has_exact_values() {
    assert_eq!(priority_value(-20), 99);
    assert_eq!(priority_value(19), 0);
    assert_eq!(priority_value(0), 48);
    assert_eq!(priority_value(5), 36);
    assert_eq!(priority_value(18), 3);
    assert_eq!(priority_value(-100), 99);
    assert_eq!(priority_value(i32::MAX), 0);
}

#[test]
fn priority_matches_the_rounded_quotient() {
    for nice in -30..30 {
        let clamped: i32 = nice.clamp(-20, 19);
        let exact = (f64::from(19 - clamped) * (99.0 / 39.0)).round() as u8;
        assert_eq!(priority_value(nice), exact, "nice {nice}");
    }
}

#[test]
fn outcomes_name_the_failing_call() {
    assert_eq!(nice_outcome(Ok(())), Ok(()));
    assert_eq!(
        nice_outcome(Err("OS(1)".to_string())),
        Err("set_current_thread_priority: OS(1)".to_string())
    );
    assert_eq!(affinity_outcome(3, true), Ok(()));
    assert_eq!(
        affinity_outcome(3, false),
        Err("set_for_current(3) returned false".to_string())
    );
    assert_eq!(
        scheduling_outcome(Err("a".to_string()), Some(Err("b".to_string()))),
        Err("nice: a".to_string())
    );
    assert_eq!(
        scheduling_outcome(Ok(()), Some(Err("b".to_string()))),
        Err("affinity: b".to_string())
    );
    assert_eq!(scheduling_outcome(Ok(()), None), Ok(()));
}

#[test]
fn no_core_is_asked_for_where_the_nice_value_failed() {
    assert_eq!(pin_after(&Ok(()), Some(3)), Some(3));
    assert_eq!(pin_after(&Ok(()), None), None);
    assert_eq!(pin_after(&Err("a".to_string()), Some(3)), None);
}

#[test]
fn scheduling_reports_only_known_failures() {
    if let Err(e) = apply_scheduling(19, None) {
        assert!(e.starts_with("nice: set_current_thread_priority: "), "{e}");
    }
    if let Err(e) = apply_scheduling(5, Some(1023)) {
        assert!(
            e.starts_with("nice: set_current_thread_priority: ")
                || e == "affinity: set_for_current(1023) returned false",
            "{e}"
        );
    }
}

#[test]
fn a_core_is_refused_by_its_number() {
    if let Err(e) = set_thread_affinity(1023) {
        assert_eq!(e, "set_for_current(1023) returned false");
    }
}
