use std::path::PathBuf;
use studio_core::spool::{chunk_file, Chunk, Spool, SpoolError};

fn remove_acknowledged(stored: &mut Vec<Chunk>, acked: &[u64]) {
    stored.retain(|c| !acked.contains(&c.sequence));
}

#[test]
fn atomic_ordered_recovery_and_prune() {
    let s = Spool::open(PathBuf::from("spool"), 10);
    let mut stored: Vec<Chunk> = Vec::new();
    let c = Chunk::new(2, 20, vec![2]);
    s.append(&c, &stored).unwrap();
    stored.push(c);
    let c = Chunk::new(1, 10, vec![1]);
    s.append(&c, &stored).unwrap();
    stored.push(c);
    assert_eq!(s.pending(&stored).unwrap()[0].sequence, 1);
    let acked = s.acknowledge_through(&stored, 1).unwrap();
    remove_acknowledged(&mut stored, &acked);
    assert_eq!(s.pending(&stored).unwrap()[0].sequence, 2);
}

#[test]
fn enforces_limit() {
    let s = Spool::open(PathBuf::from("spool"), 1);
    assert!(s.append(&Chunk::new(1, 0, vec![1, 2]), &Vec::new()).is_err());
}

#[test]
fn checksum_is_sha256_hex() {
    let c = Chunk::new(7, 70, b"abc".to_vec());
    assert_eq!(c.sha256, "ba7816bf8f01cfea414140de5dae2223b00361a396177a9cb410ff61f20015ad");
    assert!(c.verify());
    let mut tampered = c.clone();
    tampered.payload[0] = b'x';
    assert!(!tampered.verify());
    let empty = Chunk::new(0, 0, Vec::new());
    assert_eq!(empty.sha256, "e3b0c44298fc1c149afbf4c8996fb92427ae41e4649b934ca495991b7852b855");
}

#[test]
fn spool_errors_and_usage() {
    let s = Spool::open(PathBuf::from("spool"), 5);
    let mut bad = Chunk::new(3, 0, vec![1]);
    bad.sha256 = "00".into();
    assert_eq!(s.append(&bad, &Vec::new()), Err(SpoolError::Checksum));
    let stored = vec![Chunk::new(1, 0, vec![1, 2]), bad.clone(), Chunk::new(4, 0, vec![9])];
    assert_eq!(s.used_bytes(&stored), Ok(3));
    assert_eq!(s.append(&Chunk::new(5, 0, vec![1, 2]), &stored), Ok(()));
    assert_eq!(s.append(&Chunk::new(5, 0, vec![1, 2, 3]), &stored), Err(SpoolError::Full));
    let pending = s.pending(&stored).unwrap();
    assert_eq!(pending.iter().map(|c| c.sequence).collect::<Vec<_>>(), vec![1, 4]);
    let dup = vec![Chunk::new(2, 0, vec![1]), Chunk::new(2, 5, vec![2])];
    assert_eq!(s.pending(&dup), Err(SpoolError::Unordered));
    assert_eq!(s.used_bytes(&dup), Err(SpoolError::Unordered));
    assert_eq!(s.append(&Chunk::new(9, 0, vec![]), &dup), Err(SpoolError::Unordered));
    assert_eq!(SpoolError::Full.message(), "spool limit reached");
}

#[test]
fn acknowledgement_names_pending_chunks_at_or_below() {
    let s = Spool::open(PathBuf::from("spool"), 100);
    let stored = vec![
        Chunk::new(9, 0, vec![1]),
        Chunk::new(3, 0, vec![1]),
        Chunk::new(5, 0, vec![1]),
        Chunk::new(1, 0, vec![1]),
    ];
    assert_eq!(s.acknowledge_through(&stored, 5).unwrap(), vec![1, 3, 5]);
    assert_eq!(s.acknowledge_through(&stored, 0).unwrap(), Vec::<u64>::new());
    let pending = s.pending(&stored).unwrap();
    assert_eq!(pending.iter().map(|c| c.sequence).collect::<Vec<_>>(), vec![1, 3, 5, 9]);
}

#[test]
fn chunk_file_paths() {
    assert_eq!(chunk_file(5), "00000000000000000005.json");
    assert_eq!(chunk_file(u64::MAX), "18446744073709551615.json");
    assert_eq!(chunk_file(0), "00000000000000000000.json");
    assert_eq!(chunk_file(12), "00000000000000000012.json");
    let s = Spool::open(PathBuf::from("/var/spool"), 7);
    assert_eq!(s.root, PathBuf::from("/var/spool"));
    assert_eq!(s.limit_bytes, 7);
}

#[test]
fn checksum_text_is_sixty_four_hex_digits() {
    for payload in [Vec::new(), vec![0u8], vec![255u8; 1000]] {
        let c = Chunk::new(1, 0, payload);
        assert_eq!(c.sha256.len(), 64);
        assert!(c.sha256.chars().all(|ch| ch.is_ascii_hexdigit() && !ch.is_ascii_uppercase()));
    }
}

#[test]
fn used_bytes_is_the_pending_payload() {
    let s = Spool::open(PathBuf::from("spool"), 100);
    let mut bad = Chunk::new(2, 0, vec![7, 7, 7, 7]);
    bad.sha256 = "0".repeat(64);
    let stored = vec![Chunk::new(9, 0, vec![1, 2, 3]), bad, Chunk::new(4, 0, vec![5])];
    let pending = s.pending(&stored).unwrap();
    let total: u64 = pending.iter().map(|c| c.payload.len() as u64).sum();
    assert_eq!(s.used_bytes(&stored), Ok(total));
    assert_eq!(total, 4);
    assert_eq!(Spool::open(PathBuf::from("spool"), 1).used_bytes(&Vec::new()), Ok(0));
}

#[test]
fn checked_spool_calls() {
    let s = Spool::open(PathBuf::from("spool"), 3);
    let stored = vec![Chunk::new(1, 0, vec![1, 2])];
    assert_eq!(s.try_used_bytes(&stored), Some(Ok(2)));
    assert_eq!(s.try_append(&Chunk::new(2, 0, vec![3]), &stored), Some(Ok(())));
    assert_eq!(s.try_append(&Chunk::new(2, 0, vec![3, 4]), &stored), Some(Err(SpoolError::Full)));
    let mut bad = Chunk::new(2, 0, vec![3]);
    bad.payload = vec![4];
    assert_eq!(s.try_append(&bad, &stored), Some(Err(SpoolError::Checksum)));
    let dup = vec![Chunk::new(2, 0, vec![1]), Chunk::new(2, 5, vec![2])];
    assert_eq!(s.try_used_bytes(&dup), Some(Err(SpoolError::Unordered)));
    assert_eq!(s.try_append(&Chunk::new(3, 0, vec![]), &dup), Some(Err(SpoolError::Unordered)));
}
