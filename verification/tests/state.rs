//! The durable state record, its compatibility predicate and its identifiers.

use vole_field::model::config::{ModelConfig, CARRY_CHANNELS};
use vole_field::scene::SceneId;
use vole_field::state::compat::Expectation;
use vole_field::state::error::StateError;
use vole_field::state::hashes::{config_hash, hash32, hash_hex, hex32, state_hash};
use vole_field::state::persist::{closed_store, creates_store, parse_id, PersistError};
use vole_field::state::record::{StateRecord, HEADER_LEN, MAGIC};

fn cfg() -> ModelConfig {
    ModelConfig::default()
}

fn record() -> StateRecord {
    let cfg = cfg();
    let n = 4 * cfg.hidden_channels * cfg.height * cfg.width;
    let k = 4 * CARRY_CHANNELS * cfg.height * cfg.width;
    let h: Vec<u8> = (0..n).map(|i| (i % 251) as u8).collect();
    let c: Vec<u8> = (0..n).map(|i| ((i * 7) % 253) as u8).collect();
    let carry: Vec<u8> = (0..k).map(|i| ((i * 13) % 247) as u8).collect();
    StateRecord::new([1u8; 32], [2u8; 32], SceneId::MovingShape01, 256, &cfg, h, c, carry)
}

#[test]
fn header_layout_is_exactly_as_documented() {
    let r = record();
    let bytes = r.encode();
    assert_eq!(&bytes[0..8], &MAGIC);
    assert_eq!(u32::from_le_bytes(bytes[8..12].try_into().unwrap()), 1);
    assert_eq!(
        u32::from_le_bytes(bytes[12..16].try_into().unwrap()) as usize,
        HEADER_LEN
    );
    assert_eq!(bytes.len(), HEADER_LEN + r.raw_payload().len());
    assert_eq!(&bytes[HEADER_LEN..], &r.raw_payload()[..]);
    assert_eq!(
        u64::from_le_bytes(bytes[120..128].try_into().unwrap()) as usize,
        r.tensor_bytes()
    );
    assert_eq!(
        u64::from_le_bytes(bytes[128..136].try_into().unwrap()) as usize,
        r.tensor_bytes()
    );
    assert_eq!(
        u64::from_le_bytes(bytes[136..144].try_into().unwrap()) as usize,
        r.carry_bytes_len()
    );
    assert_eq!(
        u32::from_le_bytes(bytes[104..108].try_into().unwrap()) as usize,
        CARRY_CHANNELS
    );
    assert_eq!(u32::from_le_bytes(bytes[116..120].try_into().unwrap()), 0);
}

#[test]
fn encode_decode_round_trips() {
    let r = record();
    let back = StateRecord::decode(&r.encode()).unwrap();
    assert_eq!(back, r);
}

#[test]
fn accepted_bytes_are_the_encoding() {
    let r = record();
    let bytes = r.encode();
    let mut taken = Vec::new();
    for i in 0..HEADER_LEN {
        let mut b = bytes.clone();
        b[i] ^= 1;
        b.extend_from_slice(&[9, 9, 9]);
        if let Ok(m) = StateRecord::decode(&b) {
            let again = m.encode();
            for (j, x) in again.iter().enumerate() {
                assert!((116..120).contains(&j) || *x == b[j], "byte {j} after a change at {i}");
            }
            assert_eq!(StateRecord::decode(&b[..again.len()]), Ok(m));
            taken.push(i);
        }
    }
    // The two provenance hashes, the context length and the reserved field.
    let free: Vec<usize> = (16..80).chain(96..100).chain(116..120).collect();
    assert_eq!(taken, free);
}

#[test]
fn tampering_is_caught() {
    let r = record();
    let mut bytes = r.encode();
    let last = bytes.len() - 1;
    bytes[last] ^= 0x01;
    match StateRecord::decode(&bytes) {
        Err(StateError::StateHashMismatch { stored, computed }) => {
            assert_ne!(stored, computed)
        }
        other => panic!("expected StateHashMismatch, got {other:?}"),
    }
    let mut bad_version = r.encode();
    bad_version[8] = 9;
    assert_eq!(
        StateRecord::decode(&bad_version),
        Err(StateError::UnsupportedVersion(9))
    );
    let mut bad_magic = r.encode();
    bad_magic[0] = b'X';
    assert!(matches!(
        StateRecord::decode(&bad_magic),
        Err(StateError::BadMagic(_))
    ));
    assert!(matches!(
        StateRecord::decode(&r.encode()[..100]),
        Err(StateError::Truncated { .. })
    ));
}

#[test]
fn compatibility_reports_every_check_and_finds_the_failure() {
    let r = record();
    let ok = Expectation {
        model_weights_hash: [1u8; 32],
        config_hash: [2u8; 32],
        scene: SceneId::MovingShape01,
        context_len: 256,
        cfg: cfg(),
    };
    let checks = r.compatibility(&ok);
    assert!(checks.iter().all(|c| c.ok), "{checks:?}");
    assert!(r.first_rejection(&checks).is_none());

    let wrong_scene = Expectation { scene: SceneId::MovingShape02, ..ok.clone() };
    let checks = r.compatibility(&wrong_scene);
    assert_eq!(r.first_rejection(&checks).unwrap().name, "scene_identity");
    // The other checks still ran and still passed.
    assert_eq!(checks.iter().filter(|c| c.ok).count(), checks.len() - 1);

    let wrong_weights = Expectation { model_weights_hash: [9u8; 32], ..ok.clone() };
    let checks = r.compatibility(&wrong_weights);
    assert_eq!(r.first_rejection(&checks).unwrap().name, "model_weights_hash");

    let wrong_len = Expectation { context_len: 128, ..ok };
    let checks = r.compatibility(&wrong_len);
    assert_eq!(r.first_rejection(&checks).unwrap().name, "context_length");
}

#[test]
fn raw_payload_is_the_unframed_byte_string() {
    let r = record();
    let raw = r.raw_payload();
    let back = StateRecord::from_raw_payload(
        &raw,
        &cfg(),
        [1u8; 32],
        [2u8; 32],
        SceneId::MovingShape01,
        256,
    )
    .unwrap();
    assert_eq!(back, r);
    assert!(StateRecord::from_raw_payload(
        &raw[..raw.len() - 4],
        &cfg(),
        [1u8; 32],
        [2u8; 32],
        SceneId::MovingShape01,
        256
    )
    .is_err());
}

#[test]
fn every_bad_header_has_its_error() {
    let good = record().encode();
    let mut b = good.clone();
    b[12] = 177;
    assert_eq!(StateRecord::decode(&b), Err(StateError::BadHeaderLen(177)));
    let mut b = good.clone();
    b[80] = b'x';
    assert!(matches!(StateRecord::decode(&b), Err(StateError::UnknownScene(_))));
    let mut b = good.clone();
    b[120] = 0;
    b[121] = 1;
    let e = StateRecord::decode(&b).unwrap_err();
    assert!(matches!(e, StateError::PayloadSizeMismatch { .. }), "{e:?}");
    assert!(e.message().len() > 0);
    let mut b = good.clone();
    b.pop();
    assert_eq!(
        StateRecord::decode(&b),
        Err(StateError::Truncated { need: good.len(), got: good.len() - 1 })
    );
    assert_eq!(
        StateRecord::decode(&[]),
        Err(StateError::Truncated { need: 176, got: 0 })
    );
}

#[test]
fn any_flipped_payload_byte_is_caught() {
    let good = record().encode();
    for at in [176, 177, 1000, 40_000, 73_903] {
        let mut b = good.clone();
        b[at] = b[at].wrapping_add(1);
        assert!(matches!(
            StateRecord::decode(&b),
            Err(StateError::StateHashMismatch { .. })
        ));
    }
}

#[test]
fn digests_are_blake3() {
    assert_eq!(
        hash_hex(b""),
        "af1349b9f5f9a1a6a0404dea36dcc9499bcb25c9adc112b7cc9a93cae41f3262"
    );
    assert_eq!(
        hash_hex(b"abc"),
        "6437b3ac38465133ffb63b75273a8db548c558465d79db03fd359c6cd5bd9d85"
    );
    assert_eq!(hex32(&hash32(b"abc")), hash_hex(b"abc"));
    assert_eq!(state_hash(b"a", b"b", b"c"), hash32(b"abc"));
    let a = config_hash(&cfg());
    assert_eq!(a, hash32(&cfg().canonical_bytes()));
}

#[test]
fn blob_identifiers_are_64_hexadecimal_digits() {
    let id = hash32(b"blob");
    assert_eq!(parse_id(&hex32(&id)), Ok(id));
    assert_eq!(parse_id(&hex32(&id).to_uppercase()), Ok(id));
    let e = parse_id("xyz\n").unwrap_err();
    assert_eq!(e, PersistError::BadBlobId("xyz\n".to_string()));
    assert_eq!(e.message(), "bad blob id \"xyz\\n\"");
    assert!(parse_id(&hex32(&id)[1..]).is_err());
    assert!(parse_id(&format!("{}0", hex32(&id))).is_err());
}

#[test]
fn persistence_failures_name_their_layer() {
    assert_eq!(PersistError::Io("full".to_string()).message(), "io: full");
    assert_eq!(PersistError::Engine("no".to_string()).message(), "entropyfs: no");
    let e = StateError::UnsupportedVersion(3);
    let inner = e.message();
    assert_eq!(PersistError::Record(e).message(), format!("record: {inner}"));
    assert_eq!(closed_store().message(), "bad blob id \"store already closed\"");
    assert!(creates_store(false, false));
    assert!(!creates_store(true, true));
}
