use filetransfer::clock::monotonic_ns;
use filetransfer::ids::transfer_id;
use filetransfer::options::CcAlgorithm;
use filetransfer::telemetry::TelemetrySink;
use filetransfer::Mode;

#[test]
fn mode_words_fold_case() {
    assert_eq!(Mode::from_str("datagram"), Some(Mode::Datagram));
    assert_eq!(Mode::from_str("dg"), Some(Mode::Datagram));
    assert_eq!(Mode::from_str("DG"), Some(Mode::Datagram));
    assert_eq!(Mode::from_str("DataGram"), Some(Mode::Datagram));
    assert_eq!(Mode::from_str("stream"), Some(Mode::Stream));
    assert_eq!(Mode::from_str("STR"), Some(Mode::Stream));
    assert_eq!(Mode::from_str("Stream"), Some(Mode::Stream));
}

#[test]
fn unknown_mode_words_are_rejected() {
    assert_eq!(Mode::from_str(""), None);
    assert_eq!(Mode::from_str("datagrams"), None);
    assert_eq!(Mode::from_str("d g"), None);
    assert_eq!(Mode::from_str("streaM "), None);
}

#[test]
fn cca_names_are_exact() {
    assert_eq!(CcAlgorithm::from_str("Cubic"), Some(CcAlgorithm::Cubic));
    assert_eq!(CcAlgorithm::from_str("Bbr"), Some(CcAlgorithm::Bbr));
    assert_eq!(CcAlgorithm::from_str("Copa"), Some(CcAlgorithm::Copa));
}

#[test]
fn unknown_cca_fails_fast() {
    assert_eq!(CcAlgorithm::from_str("cubic"), None);
    assert_eq!(CcAlgorithm::from_str("BBR"), None);
    assert_eq!(CcAlgorithm::from_str("Reno"), None);
    assert_eq!(CcAlgorithm::from_str(""), None);
}

#[test]
fn telemetry_flushes_on_cadence() {
    let mut sink = TelemetrySink::new(3);
    assert!(!sink.record()); // 1
    assert!(!sink.record()); // 2
    assert!(sink.record()); // 3: flush due
    assert!(!sink.record()); // 4
    assert!(!sink.record()); // 5
    assert!(sink.record()); // 6: flush due
    assert_eq!(sink.count, 6);
}

#[test]
fn telemetry_cadence_of_one_always_flushes() {
    let mut sink = TelemetrySink::new(1);
    assert!(sink.record());
    assert!(sink.record());
}

#[test]
fn transfer_id_is_deterministic() {
    let a = transfer_id("data/input.bin", 3000);
    let b = transfer_id("data/input.bin", 3000);
    assert_eq!(a, b);
}

#[test]
fn transfer_id_depends_on_path_and_size() {
    let base = transfer_id("data/input.bin", 3000);
    assert_ne!(base, transfer_id("data/other.bin", 3000));
    assert_ne!(base, transfer_id("data/input.bin", 3001));
}

#[test]
fn clock_reads_a_timestamp() {
    assert!(monotonic_ns() > 0);
}
