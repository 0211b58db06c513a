use wind::publisher::retry_write;
use wind::types::ReliabilityLevel;

#[test]
fn only_reliable_writes_are_retried() {
    assert!(!retry_write(ReliabilityLevel::BestEffort, 1));
    assert!(retry_write(ReliabilityLevel::Reliable, 1));
    assert!(retry_write(ReliabilityLevel::Reliable, 3));
    assert!(!retry_write(ReliabilityLevel::Reliable, 4));
}
