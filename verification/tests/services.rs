use cyb_core::mining::{decode_seed, meets_difficulty, try_nonce, MiningState};
use cyb_core::services::{
    get_target_triple, init_output_ok, ipfs_binary_candidates, CybServices, TargetArch, TargetOs,
};

#[test]
fn test_meets_difficulty() {
    assert!(meets_difficulty(&[0, 0, 0, 1], 24));
    assert!(!meets_difficulty(&[0, 0, 1, 0], 24));
    assert!(meets_difficulty(&[0, 0, 0, 0], 32));
    assert!(meets_difficulty(&[0x0F], 0));
    assert!(!meets_difficulty(&[0x0F], 5));
    assert!(meets_difficulty(&[0x0F], 4));
}

#[test]
fn decode_seed_hex_or_raw() {
    // Valid hex decodes, either case, high nibble first.
    assert_eq!(decode_seed("0a1b"), vec![0x0A, 0x1B]);
    assert_eq!(decode_seed("FF00"), vec![0xFF, 0x00]);
    assert_eq!(decode_seed(""), Vec::<u8>::new());
    // Odd length or a non-digit falls back to the raw bytes.
    assert_eq!(decode_seed("abc"), b"abc".to_vec());
    assert_eq!(decode_seed("seed!"), b"seed!".to_vec());
}

#[test]
fn try_nonce_finds_proof_at_zero_difficulty() {
    let seed = decode_seed("00ff");
    let p = try_nonce(&seed, "addr", 7, 42, 0).expect("difficulty 0 always passes");
    assert_eq!(p.nonce, 42);
    assert_eq!(p.timestamp, 7);
    // The proof carries the digest as 64 lower-case hex digits.
    assert_eq!(p.hash.len(), 64);
    assert!(p.hash.chars().all(|c| c.is_ascii_hexdigit() && !c.is_ascii_uppercase()));
    // The digest is a function of the input alone.
    let q = try_nonce(&seed, "addr", 7, 42, 0).unwrap();
    assert_eq!(p.hash, q.hash);
    // A different nonce gives a different digest.
    let r = try_nonce(&seed, "addr", 7, 43, 0).unwrap();
    assert_ne!(p.hash, r.hash);
    // An impossible difficulty finds nothing.
    assert!(try_nonce(&seed, "addr", 7, 42, 257).is_none());
}

#[test]
fn mining_state_bookkeeping() {
    let mut s = MiningState::new();
    assert!(!s.is_mining());
    assert_eq!(s.hash_count(), 0);
    assert_eq!(s.pending_count(), 0);
    assert!(s.begin());
    assert!(s.is_mining());
    // Starting twice fails and changes nothing.
    assert!(!s.begin());
    assert!(s.is_mining());
    s.record_hashes(10);
    s.record_hashes(5);
    assert_eq!(s.hash_count(), 15);
    let seed = decode_seed("00");
    let p = try_nonce(&seed, "a", 1, 2, 0).unwrap();
    s.push_proof(p);
    assert_eq!(s.pending_count(), 1);
    let taken = s.take_proofs();
    assert_eq!(taken.len(), 1);
    assert_eq!(taken[0].nonce, 2);
    assert_eq!(s.pending_count(), 0);
    s.end();
    assert!(!s.is_mining());
    assert_eq!(s.hash_count(), 15);
    // A fresh run resets the counter.
    assert!(s.begin());
    assert_eq!(s.hash_count(), 0);
}

#[test]
fn services_start_idle() {
    let s = CybServices::new();
    assert!(!s.mining.is_mining());
    assert_eq!(s.mining.hash_count(), 0);
}

#[test]
fn target_triples() {
    assert_eq!(get_target_triple(TargetOs::MacOs, TargetArch::Aarch64), "aarch64-apple-darwin");
    assert_eq!(get_target_triple(TargetOs::MacOs, TargetArch::X86_64), "x86_64-apple-darwin");
    assert_eq!(
        get_target_triple(TargetOs::Linux, TargetArch::Aarch64),
        "aarch64-unknown-linux-gnu"
    );
    assert_eq!(
        get_target_triple(TargetOs::Linux, TargetArch::X86_64),
        "x86_64-unknown-linux-gnu"
    );
    assert_eq!(get_target_triple(TargetOs::Windows, TargetArch::X86_64), "x86_64-pc-windows-msvc");
    assert_eq!(get_target_triple(TargetOs::OtherOs, TargetArch::Aarch64), "unknown");
}

#[test]
fn binary_candidates_in_probe_order() {
    let c = ipfs_binary_candidates("/app", "aarch64-apple-darwin");
    assert_eq!(c.len(), 4);
    assert_eq!(c[0], "/app/ipfs");
    assert_eq!(c[1], "/app/ipfs-aarch64-apple-darwin");
    assert_eq!(c[2], "/app/../../bin/ipfs-aarch64-apple-darwin");
    assert_eq!(c[3], "/app/../../../bin/ipfs-aarch64-apple-darwin");
}

#[test]
fn init_output_classification() {
    assert!(init_output_ok(true, b""));
    assert!(init_output_ok(true, b"whatever"));
    assert!(init_output_ok(false, b"Error: repo already exists"));
    assert!(!init_output_ok(false, b"Error: permission denied"));
    assert!(!init_output_ok(false, b""));
    assert!(!init_output_ok(false, b"alread"));
}
