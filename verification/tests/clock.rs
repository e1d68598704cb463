use o324_daemon::common::utils::{generate_random_id, unix_now_ms};

#[test]
fn clock_reads_milliseconds_since_epoch() {
    let now = unix_now_ms().expect("clock after the epoch");
    assert!(now > 1_600_000_000_000);
}

#[test]
fn random_ids_are_alphanumeric() {
    let id = generate_random_id(12);
    assert_eq!(id.len(), 12);
    assert!(id.chars().all(|c| c.is_ascii_alphanumeric()));
    assert_eq!(generate_random_id(0), "");
}
