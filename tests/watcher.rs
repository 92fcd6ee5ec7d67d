use monitoring_service::watcher::{bytes_equal, ChangeDetector};

fn triggers(outputs: &[&[u8]]) -> Vec<bool> {
    let mut d = ChangeDetector::new();
    outputs.iter().map(|o| d.observe(o.to_vec())).collect()
}

#[test]
fn alternating_outputs_trigger_twice_after_baseline() {
    let a: &[u8] = b"1700000000\n";
    let b: &[u8] = b"1700000001\n";
    let fired = triggers(&[a, a, b, b, a]);
    assert_eq!(fired, vec![true, false, true, false, true]);
    assert_eq!(fired.iter().skip(1).filter(|f| **f).count(), 2);
}

#[test]
fn empty_first_output_does_not_trigger() {
    let a: &[u8] = b"";
    let b: &[u8] = b"x";
    let fired = triggers(&[a, a, b, b, a]);
    assert_eq!(fired, vec![false, false, true, false, true]);
    assert_eq!(fired.iter().filter(|f| **f).count(), 2);
}

#[test]
fn bytes_compare_exactly() {
    assert!(bytes_equal(&vec![1, 2, 3], &vec![1, 2, 3]));
    assert!(!bytes_equal(&vec![1, 2, 3], &vec![1, 2, 4]));
    assert!(!bytes_equal(&vec![1, 2], &vec![1, 2, 3]));
    assert!(bytes_equal(&vec![], &vec![]));
}
