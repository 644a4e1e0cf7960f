use decentis::crypto::handshake::{
    build_initiator, build_responder, generate_static_keypair, HandshakeError, Keypair,
};
use decentis::crypto::identity::{
    derive_virtual_ip, load_or_generate_identity, new_identity, parse_record, write_record,
    IdentityError, IdentityFile,
};
use decentis::crypto::replay::ReplayFilter;
use decentis::crypto::session::{ActiveSession, SessionError};
use decentis::transport::handshake::{initiate_noise_handshake, respond_noise_handshake};

#[test]
fn test_in_order() {
    let mut filter = ReplayFilter::new();
    assert!(filter.check_and_mark(1));
    assert!(filter.check_and_mark(2));
    assert!(filter.check_and_mark(3));
}

#[test]
fn test_duplicate_rejection() {
    let mut filter = ReplayFilter::new();
    assert!(filter.check_and_mark(10));
    assert!(!filter.check_and_mark(10), "Duplicate should be rejected");
}

#[test]
fn test_out_of_order_acceptance() {
    let mut filter = ReplayFilter::new();
    assert!(filter.check_and_mark(10)); // window shifts to 10
    assert!(filter.check_and_mark(8)); // out of order, but within window
    assert!(!filter.check_and_mark(8)); // duplicate out of order
}

#[test]
fn test_too_old_rejection() {
    let mut filter = ReplayFilter::new();
    assert!(filter.check_and_mark(200));
    assert!(
        !filter.check_and_mark(50),
        "Delta >= 128 should be rejected"
    );
}

#[test]
fn window_edge_is_127_behind() {
    let mut filter = ReplayFilter::new();
    assert!(filter.check_and_mark(200));
    assert!(filter.check_and_mark(73));
    assert!(!filter.check_and_mark(72));
    assert!(!filter.check_and_mark(73));
}

#[test]
fn a_far_jump_forgets_what_it_leaves_behind() {
    let mut filter = ReplayFilter::new();
    assert!(filter.check_and_mark(5));
    assert!(filter.check_and_mark(5 + 128));
    assert!(filter.check_and_mark(6));
    assert!(!filter.check_and_mark(5));
    assert!(filter.check_and_mark(u64::MAX));
    assert!(!filter.check_and_mark(u64::MAX));
    assert!(filter.check_and_mark(u64::MAX - 127));
    assert!(!filter.check_and_mark(u64::MAX - 128));
}

#[test]
fn the_first_packet_may_have_number_zero() {
    let mut filter = ReplayFilter::new();
    assert!(filter.check_and_mark(0));
    assert!(!filter.check_and_mark(0));
    assert!(filter.check_and_mark(1));
}

#[test]
fn test_noise_ik_handshake() {
    // 1. Generate keys for Node A (Initiator) and Node B (Responder)
    let key_a = generate_static_keypair().unwrap();
    let key_b = generate_static_keypair().unwrap();

    // 2. Initialize states. Node A knows Node B's public key.
    let mut initiator = build_initiator(&key_a, &key_b.public).unwrap();
    let mut responder = build_responder(&key_b).unwrap();

    let mut buf_a = vec![0u8; 65535];
    let mut buf_b = vec![0u8; 65535];

    // --- HANDSHAKE PHASE ---

    // Step 1: Initiator -> Responder (writes the IK init frame)
    let len_1 = initiator.write_message(&[], &mut buf_a).unwrap();

    // Step 2: Responder reads the frame. It now knows who the Initiator is.
    responder.read_message(&buf_a[..len_1], &mut buf_b).unwrap();

    // Step 3: Responder -> Initiator (writes the IK response frame)
    let len_2 = responder.write_message(&[], &mut buf_a).unwrap();

    // Step 4: Initiator reads the response.
    initiator.read_message(&buf_a[..len_2], &mut buf_b).unwrap();

    // --- TRANSPORT PHASE ---
    // Both sides should now automatically transition into Stateless Transport mode
    let transport_a = initiator.into_stateless_transport_mode().unwrap();
    let transport_b = responder.into_stateless_transport_mode().unwrap();

    // Test encryption/decryption
    let secret_msg = b"Decentis Zero-Trust Payload";
    let mut ciphertext = vec![0u8; 65535];
    let mut plaintext = vec![0u8; 65535];

    // Node A encrypts
    let cipher_len = transport_a
        .write_message(0, secret_msg, &mut ciphertext)
        .unwrap();

    // Node B decrypts
    let plain_len = transport_b
        .read_message(0, &ciphertext[..cipher_len], &mut plaintext)
        .unwrap();

    assert_eq!(&plaintext[..plain_len], secret_msg);
}

#[test]
fn test_secure_session_exchange() {
    let key_a = generate_static_keypair().unwrap();
    let key_b = generate_static_keypair().unwrap();

    let mut initiator = build_initiator(&key_a, &key_b.public).unwrap();
    let mut responder = build_responder(&key_b).unwrap();

    let mut buf_a = vec![0u8; 1024];
    let mut buf_b = vec![0u8; 1024];

    // Do Handshake
    let len_1 = initiator.write_message(&[], &mut buf_a).unwrap();
    responder.read_message(&buf_a[..len_1], &mut buf_b).unwrap();
    let len_2 = responder.write_message(&[], &mut buf_a).unwrap();
    initiator.read_message(&buf_a[..len_2], &mut buf_b).unwrap();

    // Transition to Sessions
    let mut session_a = ActiveSession::new(initiator.into_stateless_transport_mode().unwrap());
    let mut session_b = ActiveSession::new(responder.into_stateless_transport_mode().unwrap());

    // Test Encryption / Decryption with Replay Filter
    let secret = b"Target acquired.";
    let mut cipher = vec![0u8; 1024];
    let mut plain = vec![0u8; 1024];

    // A encrypts
    let (seq, c_len) = session_a.encrypt(secret, &mut cipher).unwrap();

    // B decrypts
    let p_len = session_b
        .decrypt(seq, &cipher[..c_len], &mut plain)
        .unwrap();
    assert_eq!(&plain[..p_len], secret);

    // Test Replay Block: B attempts to decrypt the EXACT same packet again
    let replay_result = session_b.decrypt(seq, &cipher[..c_len], &mut plain);
    assert!(
        replay_result.is_err(),
        "Session failed to block a replay attack!"
    );
}

fn sessions() -> (ActiveSession, ActiveSession) {
    let a = generate_static_keypair().unwrap();
    let b = generate_static_keypair().unwrap();
    let (initiation, opening) = initiate_noise_handshake(&a, &b.public).unwrap();
    let (acceptance, reply) = respond_noise_handshake(&b, Some(&opening)).unwrap();
    let near = initiation.finish(Some(&reply)).unwrap();
    let (far, remote) = acceptance.finish().unwrap();
    assert_eq!(remote, a.public);
    (near, far)
}

#[test]
fn an_undisturbed_handshake_gives_a_pair_of_sessions() {
    let (mut near, mut far) = sessions();
    let mut cipher = vec![0u8; 64];
    let mut plain = vec![0u8; 64];
    for round in 0..3u64 {
        let (seq, len) = near.encrypt(b"there", &mut cipher).unwrap();
        assert_eq!(seq, round);
        assert_eq!(len, 5 + 16);
        assert_ne!(&cipher[..5], b"there");
        assert_eq!(far.decrypt(seq, &cipher[..len], &mut plain).unwrap(), 5);
        assert_eq!(&plain[..5], b"there");
        let (seq, len) = far.encrypt(b"and back", &mut cipher).unwrap();
        assert_eq!(seq, round);
        assert_eq!(near.decrypt(seq, &cipher[..len], &mut plain).unwrap(), 8);
        assert_eq!(&plain[..8], b"and back");
    }
}

#[test]
fn an_altered_packet_is_not_decrypted_and_not_offered_again() {
    let (mut near, mut far) = sessions();
    let mut cipher = vec![0u8; 64];
    let mut plain = vec![0u8; 64];
    let (seq, len) = near.encrypt(b"payload", &mut cipher).unwrap();
    cipher[0] ^= 1;
    assert!(matches!(
        far.decrypt(seq, &cipher[..len], &mut plain),
        Err(SessionError::Decryption(_))
    ));
    cipher[0] ^= 1;
    assert!(matches!(
        far.decrypt(seq, &cipher[..len], &mut plain),
        Err(SessionError::Replayed(0))
    ));
}

#[test]
fn a_packet_that_does_not_fit_uses_up_its_number() {
    let (mut near, mut far) = sessions();
    let mut small = vec![0u8; 10];
    assert!(matches!(
        near.encrypt(b"too long for it", &mut small),
        Err(SessionError::Encryption(_))
    ));
    assert_eq!(small, vec![0u8; 10]);
    let mut cipher = vec![0u8; 64];
    let (seq, len) = near.encrypt(b"x", &mut cipher).unwrap();
    assert_eq!(seq, 1);
    let mut plain = vec![0u8; 64];
    assert_eq!(far.decrypt(1, &cipher[..len], &mut plain).unwrap(), 1);
}

#[test]
fn a_stream_that_closes_early_ends_the_handshake() {
    let a = generate_static_keypair().unwrap();
    let b = generate_static_keypair().unwrap();
    let (initiation, _) = initiate_noise_handshake(&a, &b.public).unwrap();
    assert!(matches!(
        initiation.finish(None),
        Err(HandshakeError::Closed)
    ));
    assert!(matches!(
        respond_noise_handshake(&b, None),
        Err(HandshakeError::Closed)
    ));
}

#[test]
fn a_handshake_for_another_node_is_not_read() {
    let a = generate_static_keypair().unwrap();
    let b = generate_static_keypair().unwrap();
    let c = generate_static_keypair().unwrap();
    let (initiation, opening) = initiate_noise_handshake(&a, &b.public).unwrap();
    assert!(matches!(
        respond_noise_handshake(&c, Some(&opening)),
        Err(HandshakeError::Read(_))
    ));
    assert!(matches!(
        initiation.finish(Some(&[0u8; 48])),
        Err(HandshakeError::Read(_))
    ));
}

#[test]
fn generated_keys_differ_and_have_their_length() {
    let a = generate_static_keypair().unwrap();
    let b = generate_static_keypair().unwrap();
    assert_eq!(a.public.len(), 32);
    assert_eq!(a.private.len(), 32);
    assert_ne!(a.public, a.private);
    assert_ne!(a.private, b.private);
}

#[test]
fn an_identity_is_loaded_from_its_record() {
    let record: Vec<u8> = (0..64).collect();
    let identity = load_or_generate_identity(IdentityFile::Present(record.clone())).unwrap();
    assert_eq!(identity.keypair.public, (0..32).collect::<Vec<u8>>());
    assert_eq!(identity.keypair.private, (32..64).collect::<Vec<u8>>());
    assert!(identity.record.is_none());
    assert_eq!(write_record(&identity.keypair), record);
}

#[test]
fn a_missing_or_misshapen_identity_is_replaced() {
    for stored in [
        IdentityFile::Absent,
        IdentityFile::Present(vec![0u8; 63]),
        IdentityFile::Present(vec![0u8; 65]),
        IdentityFile::Present(Vec::new()),
    ] {
        let identity = load_or_generate_identity(stored).unwrap();
        let record = identity.record.unwrap();
        let restored = parse_record(&record).unwrap();
        assert_eq!(restored.public, identity.keypair.public);
        assert_eq!(restored.private, identity.keypair.private);
        let again = load_or_generate_identity(IdentityFile::Present(record)).unwrap();
        assert_eq!(again.keypair.private, identity.keypair.private);
        assert!(again.record.is_none());
    }
}

#[test]
fn an_identity_that_cannot_be_read_or_made_is_an_error() {
    assert!(matches!(
        load_or_generate_identity(IdentityFile::Unreadable),
        Err(IdentityError::Unreadable)
    ));
    assert!(matches!(
        new_identity(Err(HandshakeError::Closed)),
        Err(IdentityError::Generation(HandshakeError::Closed))
    ));
    let keypair = Keypair {
        private: vec![1u8; 32],
        public: vec![2u8; 32],
    };
    let identity = new_identity(Ok(keypair)).unwrap();
    let mut expected = vec![2u8; 32];
    expected.extend_from_slice(&[1u8; 32]);
    assert_eq!(identity.record, Some(expected));
}

#[test]
fn a_packet_has_at_most_65535_bytes() {
    let (mut near, mut far) = sessions();
    let mut cipher = vec![0u8; 70_000];
    let mut plain = vec![0u8; 70_000];
    let (seq, len) = near.encrypt(&vec![7u8; 65_519], &mut cipher).unwrap();
    assert_eq!(len, 65_535);
    assert_eq!(far.decrypt(seq, &cipher[..len], &mut plain).unwrap(), 65_519);
    assert!(matches!(
        near.encrypt(&vec![7u8; 65_520], &mut cipher),
        Err(SessionError::Encryption(_))
    ));
    assert!(matches!(
        far.decrypt(5, &cipher[..65_536], &mut plain),
        Err(SessionError::Decryption(_))
    ));
    assert!(matches!(
        far.decrypt(u64::MAX, &cipher[..16], &mut plain),
        Err(SessionError::Decryption(_))
    ));
}

#[test]
fn a_responder_learns_who_dials_from_the_first_packet() {
    let a = generate_static_keypair().unwrap();
    let b = generate_static_keypair().unwrap();
    let mut responder = build_responder(&b).unwrap();
    assert!(responder.get_remote_static().is_none());
    let (_, opening) = initiate_noise_handshake(&a, &b.public).unwrap();
    let mut payload = vec![0u8; 1024];
    assert_eq!(responder.read_message(&opening, &mut payload).unwrap(), 0);
    assert_eq!(responder.get_remote_static(), Some(&a.public[..]));
}

#[test]
fn a_virtual_address_comes_from_the_digest_of_the_key() {
    for key in [[0u8; 32], [7u8; 32]] {
        let digest = blake3::hash(&key);
        let bytes = digest.as_bytes();
        assert_eq!(
            derive_virtual_ip(&key).to_be_bytes(),
            [10, 99, bytes[0], bytes[1]]
        );
    }
}
