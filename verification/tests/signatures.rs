use ed25519_dalek::{Signer, SigningKey, VerifyingKey};
use fleetcore::command::{BaseJournal, FireJournal, ReportJournal};
use fleetcore::commitment::Commitment;
use fleetcore::hashing::{appended, commit_board};
use fleetcore::outcome::Outcome;
use fleetcore::signature::{
    check_signature, generate_keys_from_random, key_array, sign_with_random, signature_array,
    signature_bytes,
};
use fleetcore::store::SessionStore;
use sha2::{Digest, Sha256};

fn hex(bytes: &[u8]) -> String {
    let mut s = String::new();
    for b in bytes {
        s.push_str(&format!("{:02x}", b));
    }
    s
}

fn base_of(game: &str, fleet: &str, board: Commitment) -> BaseJournal {
    BaseJournal { gameid: game.to_string(), fleet: fleet.to_string(), board }
}

fn not_a_key() -> [u8; 32] {
    for b in 0u8..=255 {
        let mut bytes = [0u8; 32];
        bytes[0] = b;
        if VerifyingKey::from_bytes(&bytes).is_err() {
            return bytes;
        }
    }
    panic!("every candidate decoded");
}

#[test]
fn commitments_are_sha256_of_board_and_nonce() {
    assert_eq!(
        hex(&commit_board(&vec![], &"".to_string()).bytes),
        "e3b0c44298fc1c149afbf4c8996fb92427ae41e4649b934ca495991b7852b855"
    );
    assert_eq!(
        hex(&commit_board(&vec![97, 98], &"c".to_string()).bytes),
        "ba7816bf8f01cfea414140de5dae2223b00361a396177a9cb410ff61f20015ad"
    );
    assert_eq!(
        hex(&commit_board(&vec![], &"abc".to_string()).bytes),
        "ba7816bf8f01cfea414140de5dae2223b00361a396177a9cb410ff61f20015ad"
    );
    let board: Vec<u8> = vec![0, 1, 2, 3, 4, 6, 8, 20, 21, 22, 23, 25, 26, 27, 40, 41, 43, 44];
    let mut hasher = Sha256::new();
    hasher.update(&board);
    hasher.update("nonce é".as_bytes());
    let expected: [u8; 32] = hasher.finalize().into();
    assert_eq!(commit_board(&board, &"nonce é".to_string()).bytes, expected);
    assert_ne!(commit_board(&board, &"other".to_string()).bytes, expected);
}

#[test]
fn appended_puts_bytes_together() {
    assert_eq!(appended(&vec![1, 2], &vec![3]), vec![1, 2, 3]);
    assert_eq!(appended(&vec![], &vec![]), Vec::<u8>::new());
    assert_eq!(appended(&vec![], &vec![9, 9]), vec![9, 9]);
    assert_eq!(appended(&vec![7], &vec![]), vec![7]);
}

#[test]
fn keys_come_from_the_hash_of_the_random_string() {
    let (seed, public) = generate_keys_from_random("abc");
    assert_eq!(hex(&seed), "ba7816bf8f01cfea414140de5dae2223b00361a396177a9cb410ff61f20015ad");
    let expected = SigningKey::from_bytes(&seed).verifying_key().to_bytes();
    assert_eq!(public, expected);
    assert_ne!(public, seed);
    let (other_seed, other_public) = generate_keys_from_random("abd");
    assert_ne!(other_seed, seed);
    assert_ne!(other_public, public);
}

#[test]
fn signatures_are_those_of_ed25519() {
    let message: Vec<u8> = b"attested bytes".to_vec();
    let signature = sign_with_random("abc", &message);
    assert_eq!(signature.len(), 64);
    let (seed, _) = generate_keys_from_random("abc");
    let expected = SigningKey::from_bytes(&seed).sign(&message).to_bytes();
    assert_eq!(signature, expected.to_vec());
    assert_ne!(sign_with_random("abc", &b"other bytes".to_vec()), signature);
    assert_ne!(sign_with_random("abd", &message), signature);
}

#[test]
fn check_signature_accepts_only_the_right_signature() {
    let message: Vec<u8> = b"attested bytes".to_vec();
    let (_, public) = generate_keys_from_random("abc");
    let signature = sign_with_random("abc", &message);
    assert!(check_signature(&public, &message, &signature));
    assert!(!check_signature(&public, &b"attested byteS".to_vec(), &signature));
    let mut tampered = signature.clone();
    tampered[10] ^= 1;
    assert!(!check_signature(&public, &message, &tampered));
    let (_, other) = generate_keys_from_random("abd");
    assert!(!check_signature(&other, &message, &signature));
    assert!(!check_signature(&public, &message, &signature[..63].to_vec()));
    let mut longer = signature.clone();
    longer.push(0);
    assert!(!check_signature(&public, &message, &longer));
    assert!(!check_signature(&public, &message, &vec![]));
    assert!(!check_signature(&not_a_key(), &message, &signature));
}

#[test]
fn byte_copies_keep_the_bytes() {
    let bytes: Vec<u8> = (0u8..64).collect();
    assert_eq!(signature_array(&bytes).to_vec(), bytes);
    assert_eq!(signature_bytes(&signature_array(&bytes)), bytes);
    let key: Vec<u8> = (100u8..132).collect();
    assert_eq!(key_array(&key).to_vec(), key);
}

#[test]
fn handle_join_checks_key_and_signature() {
    let board = Commitment::new([4u8; 32]);
    let journal = base_of("g", "ann", board);
    let message: Vec<u8> = b"join journal".to_vec();
    let (_, public) = generate_keys_from_random("ann-seed");
    let signature = sign_with_random("ann-seed", &message);
    let mut store = SessionStore::new();

    let reply = store.handle_join(&journal, &None, &message, &signature, 5);
    assert_eq!(reply.outcome, Outcome::MissingKey);
    assert_eq!(reply.result, "Missing verifying key");
    assert_eq!(reply.event, "Verifying key is missing in join request");

    for len in [0usize, 31, 33, 64] {
        let reply = store.handle_join(&journal, &Some(vec![1u8; len]), &message, &signature, 5);
        assert_eq!(reply.outcome, Outcome::InvalidKey);
    }
    let reply = store.handle_join(&journal, &Some(not_a_key().to_vec()), &message, &signature, 5);
    assert_eq!(reply.outcome, Outcome::InvalidKey);
    assert_eq!(reply.result, "Invalid verifying key");

    let reply = store.handle_join(&journal, &Some(public.to_vec()), &b"other".to_vec(), &signature, 5);
    assert_eq!(reply.outcome, Outcome::InvalidSignature);
    assert_eq!(reply.result, "Invalid signature");
    let reply = store.handle_join(&journal, &Some(public.to_vec()), &message, &vec![0u8; 10], 5);
    assert_eq!(reply.outcome, Outcome::InvalidSignature);
    assert_eq!(store.len(), 0);

    let reply = store.handle_join(&journal, &Some(public.to_vec()), &message, &signature, 5);
    assert_eq!(reply.outcome, Outcome::Accepted);
    assert_eq!(reply.result, "OK");
    assert_eq!(store.len(), 1);
    assert_eq!(store.session(0).player_key(0), public);
}

fn signed_session() -> SessionStore {
    let mut store = SessionStore::new();
    for (name, seed) in [("ann", 1u8), ("ben", 2u8)] {
        let journal = base_of("g", name, Commitment::new([seed; 32]));
        let message = format!("join {}", name).into_bytes();
        let (_, public) = generate_keys_from_random(name);
        let signature = sign_with_random(name, &message);
        let reply = store.handle_join(&journal, &Some(public.to_vec()), &message, &signature, 5);
        assert_eq!(reply.outcome, Outcome::Accepted);
    }
    store
}

#[test]
fn handlers_authenticate_with_the_key_bound_at_join() {
    let mut store = signed_session();
    let shot = FireJournal {
        gameid: "g".to_string(),
        fleet: "ann".to_string(),
        board: Commitment::new([1u8; 32]),
        target: "ben".to_string(),
        pos: 17,
    };
    let message: Vec<u8> = b"fire journal".to_vec();
    let by_ben = sign_with_random("ben", &message);
    let reply = store.handle_fire(&shot, &message, &by_ben, 10);
    assert_eq!(reply.outcome, Outcome::InvalidSignature);
    assert_eq!(reply.event, "Invalid signature in fire request");
    let by_ann = sign_with_random("ann", &message);
    let reply = store.handle_fire(&shot, &b"fire journaL".to_vec(), &by_ann, 10);
    assert_eq!(reply.outcome, Outcome::InvalidSignature);
    let reply = store.handle_fire(&shot, &message, &by_ann, 10);
    assert_eq!(reply.outcome, Outcome::Accepted);
    assert_eq!(store.session(0).report_owed_by(), Some("ben".to_string()));

    let report = ReportJournal {
        gameid: "g".to_string(),
        fleet: "ben".to_string(),
        report: "Miss".to_string(),
        pos: 17,
        board: Commitment::new([2u8; 32]),
        next_board: Commitment::new([3u8; 32]),
    };
    let message: Vec<u8> = b"report journal".to_vec();
    let reply = store.handle_report(&report, &message, &sign_with_random("ann", &message), 11);
    assert_eq!(reply.outcome, Outcome::InvalidSignature);
    let reply = store.handle_report(&report, &message, &sign_with_random("ben", &message), 11);
    assert_eq!(reply.outcome, Outcome::Accepted);
    assert_eq!(store.session(0).turn_holder(), Some("ben".to_string()));

    let wave = base_of("g", "ben", Commitment::new([3u8; 32]));
    let message: Vec<u8> = b"wave journal".to_vec();
    let reply = store.handle_wave(&wave, &message, &sign_with_random("ann", &message), 12);
    assert_eq!(reply.outcome, Outcome::InvalidSignature);
    let reply = store.handle_wave(&wave, &message, &sign_with_random("ben", &message), 12);
    assert_eq!(reply.outcome, Outcome::Accepted);
    assert_eq!(store.session(0).turn_holder(), Some("ann".to_string()));

    let claim = base_of("g", "ann", Commitment::new([1u8; 32]));
    let message: Vec<u8> = b"win journal".to_vec();
    let reply = store.handle_win(&claim, &message, &sign_with_random("ben", &message), 13);
    assert_eq!(reply.outcome, Outcome::InvalidSignature);
    assert!(store.session(0).victory_claim().is_none());
    let reply = store.handle_win(&claim, &message, &sign_with_random("ann", &message), 13);
    assert_eq!(reply.outcome, Outcome::ClaimStarted);
}

#[test]
fn handlers_look_for_the_session_and_the_player_first() {
    let mut store = signed_session();
    let message: Vec<u8> = b"m".to_vec();
    let signature = sign_with_random("ann", &message);
    let reply = store.handle_wave(&base_of("x", "ann", Commitment::new([1u8; 32])), &message, &signature, 1);
    assert_eq!(reply.outcome, Outcome::SessionNotFound);
    let reply = store.handle_wave(&base_of("g", "zed", Commitment::new([1u8; 32])), &message, &signature, 1);
    assert_eq!(reply.outcome, Outcome::PlayerNotFound);
    assert!(store.is_signed_by(&"g".to_string(), &"ann".to_string(), &message, &signature));
    assert!(!store.is_signed_by(&"g".to_string(), &"ben".to_string(), &message, &signature));
    assert!(!store.is_signed_by(&"g".to_string(), &"zed".to_string(), &message, &signature));
    assert!(!store.is_signed_by(&"x".to_string(), &"ann".to_string(), &message, &signature));
}
