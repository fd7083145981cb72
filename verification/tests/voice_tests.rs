use antarcticom_core::{SfuState, VoiceStates};

const ALICE: u128 = 1;
const BOB: u128 = 2;
const CH_A: u128 = 100;
const CH_B: u128 = 200;

#[test]
fn test_voice_join_moves_between_channels() {
    let mut voice = VoiceStates::new();
    voice.join(CH_A, ALICE, None);
    assert_eq!(voice.participants(CH_A).len(), 1);

    // One live participation per user: leave everything, then join anew.
    let left = voice.leave_all(ALICE);
    assert_eq!(left, vec![CH_A]);
    voice.join(CH_B, ALICE, None);
    assert!(voice.participants(CH_A).is_empty());
    assert_eq!(voice.participants(CH_B).len(), 1);
    assert_eq!(voice.participants(CH_B)[0].user_id, ALICE);
}

#[test]
fn test_voice_leave_drops_empty_channel() {
    let mut voice = VoiceStates::new();
    voice.join(CH_A, ALICE, None);
    voice.join(CH_A, BOB, None);
    voice.leave(CH_A, ALICE);
    let rest = voice.participants(CH_A);
    assert_eq!(rest.len(), 1);
    assert_eq!(rest[0].user_id, BOB);
    voice.leave(CH_A, BOB);
    assert!(voice.participants(CH_A).is_empty());
}

#[test]
fn test_voice_update_state() {
    let mut voice = VoiceStates::new();
    assert!(voice.update_state(CH_A, ALICE, Some(true), None).is_err());
    voice.join(CH_A, ALICE, None);
    let (muted, deafened) = voice.update_state(CH_A, ALICE, Some(true), None).unwrap();
    assert!(muted && !deafened);
    let (muted, deafened) = voice.update_state(CH_A, ALICE, None, Some(true)).unwrap();
    assert!(muted && deafened);
}

#[test]
fn test_sfu_two_party_offer_flow() {
    let mut sfu = SfuState::new();

    // First user offers: nothing to subscribe to yet.
    let to_add_a = sfu.begin_offer(CH_A, ALICE, false);
    assert!(to_add_a.is_empty());
    sfu.record_added(CH_A, ALICE, &to_add_a);

    // First inbound track from the first user becomes their outgoing track.
    let track_a = sfu.on_first_track(CH_A, ALICE, 42);
    assert_eq!(track_a, 42);

    // The second user's answer subscribes to the first user's track; the
    // first user is not asked to renegotiate.
    let to_add_b = sfu.begin_offer(CH_A, BOB, false);
    assert_eq!(to_add_b, vec![42]);
    sfu.record_added(CH_A, BOB, &to_add_b);
    let track_b = sfu.on_first_track(CH_A, BOB, 77);
    assert_eq!(track_b, 77);

    // The first user renegotiates to pull in the second user's track; only
    // the new one is planned, and once recorded it is not planned again.
    let renegotiated = sfu.begin_offer(CH_A, ALICE, false);
    assert_eq!(renegotiated, vec![77]);
    sfu.record_added(CH_A, ALICE, &renegotiated);
    let again = sfu.begin_offer(CH_A, ALICE, false);
    assert!(again.is_empty());
}

#[test]
fn test_sfu_failed_add_is_retried() {
    let mut sfu = SfuState::new();
    let _ = sfu.begin_offer(CH_A, ALICE, false);
    let _ = sfu.on_first_track(CH_A, ALICE, 42);
    let _ = sfu.begin_offer(CH_A, BOB, false);
    let _ = sfu.on_first_track(CH_A, BOB, 77);

    // The listener's renegotiation plans both... only one add succeeds, so
    // only that one is recorded.
    let planned = sfu.begin_offer(CH_A, ALICE, false);
    assert_eq!(planned, vec![77]);
    sfu.record_added(CH_A, ALICE, &Vec::new());

    // An unrecorded track is planned again at the next renegotiation.
    let retried = sfu.begin_offer(CH_A, ALICE, false);
    assert_eq!(retried, vec![77]);
    sfu.record_added(CH_A, ALICE, &retried);
    assert!(sfu.begin_offer(CH_A, ALICE, false).is_empty());
}

#[test]
fn test_sfu_reconnect_preserves_subscriptions() {
    let mut sfu = SfuState::new();
    let _ = sfu.begin_offer(CH_A, ALICE, false);
    let _ = sfu.on_first_track(CH_A, ALICE, 42);
    let b_subs = sfu.begin_offer(CH_A, BOB, false);
    assert_eq!(b_subs, vec![42]);
    sfu.record_added(CH_A, BOB, &b_subs);
    let _ = sfu.on_first_track(CH_A, BOB, 77);

    // The first user reconnects: their peer connection is rebuilt, but their
    // outgoing track survives, so the listener's subscription stays valid.
    let to_add = sfu.begin_offer(CH_A, ALICE, true);
    assert_eq!(to_add, vec![77]);
    let preserved = sfu.on_first_track(CH_A, ALICE, 99);
    assert_eq!(preserved, 42);
}

#[test]
fn test_sfu_ice_and_leave() {
    let mut sfu = SfuState::new();
    assert!(!sfu.knows(CH_A, ALICE));
    let _ = sfu.begin_offer(CH_A, ALICE, false);
    assert!(sfu.knows(CH_A, ALICE));
    sfu.leave(CH_A, ALICE);
    assert!(!sfu.knows(CH_A, ALICE));
}
