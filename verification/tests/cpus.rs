use tmux_status::cpu::{cpu_count, guard_cpu_count};

#[test]
fn zero_cpus_count_as_one() {
    assert_eq!(guard_cpu_count(0), 1);
}

#[test]
fn a_reported_count_is_kept() {
    assert_eq!(guard_cpu_count(1), 1);
    assert_eq!(guard_cpu_count(4), 4);
    assert_eq!(guard_cpu_count(usize::MAX), usize::MAX);
}

#[test]
fn this_machine_has_a_cpu() {
    assert!(cpu_count() >= 1);
    assert_eq!(cpu_count(), guard_cpu_count(num_cpus::get()));
}
