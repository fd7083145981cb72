use antarcticom_core::{
    gateway_cleanup, gateway_connect, route_frame, voice_join, InboundAction, Mailbox, Message,
    PresenceRegistry, PresenceStatus, Registry, SfuState, SnowflakeGenerator, VoiceStates,
    WsEvent,
};

const ALICE: u128 = 0xA11CE;
const BOB: u128 = 0xB0B;
const CH_TEXT: u128 = 10;
const CH_VOICE: u128 = 20;

#[test]
fn test_broadcast_fanout_to_subscribers() {
    let mut reg = Registry::new();
    reg.open_session(ALICE);
    reg.open_session(BOB);
    reg.subscribe(CH_TEXT, ALICE);
    reg.subscribe(CH_TEXT, BOB);

    // A message sent to the channel reaches both connected subscribers with
    // the same snowflake id and content.
    let mut gen = SnowflakeGenerator::new(1);
    let id = gen.next_id(1_735_689_600_000 + 500);
    let message = Message {
        id,
        channel_id: CH_TEXT,
        author_id: ALICE,
        content: "hi".to_string(),
        nonce: None,
        created_at_ms: 0,
        edited_at_ms: None,
        reply_to_id: None,
        is_deleted: false,
        author: None,
    };
    reg.broadcast_to_channel(CH_TEXT, &WsEvent::MessageCreate(message));

    let a = reg.drain_mailbox(ALICE);
    let b = reg.drain_mailbox(BOB);
    assert_eq!(a.len(), 1);
    assert_eq!(a, b);
    match &a[0] {
        WsEvent::MessageCreate(m) => {
            assert_eq!(m.id, id);
            assert_eq!(m.content, "hi");
        }
        other => panic!("unexpected event: {:?}", other),
    }
}

#[test]
fn test_broadcast_skips_other_channels_and_missing_sessions() {
    let mut reg = Registry::new();
    reg.open_session(ALICE);
    reg.subscribe(CH_TEXT, ALICE);
    reg.subscribe(CH_VOICE, BOB); // Bob subscribed but has no session

    let ev = WsEvent::HeartbeatAck;
    reg.broadcast_to_channel(CH_VOICE, &ev);
    assert_eq!(reg.drain_mailbox(ALICE), vec![]);
    assert_eq!(reg.drain_mailbox(BOB), vec![]);
}

#[test]
fn test_subscribe_dedupes() {
    let mut reg = Registry::new();
    reg.subscribe(CH_TEXT, ALICE);
    reg.subscribe(CH_TEXT, ALICE);
    reg.subscribe(CH_TEXT, BOB);
    assert_eq!(reg.subscriber_list(CH_TEXT), vec![ALICE, BOB]);
    reg.unsubscribe(CH_TEXT, ALICE);
    assert_eq!(reg.subscriber_list(CH_TEXT), vec![BOB]);
}

#[test]
fn test_mailbox_drops_newest_when_full() {
    let mut mb = Mailbox::new();
    for i in 0..300u64 {
        mb.push(WsEvent::Heartbeat { seq: i });
    }
    let events = mb.take_all();
    assert_eq!(events.len(), 256);
    assert_eq!(events[255], WsEvent::Heartbeat { seq: 255 });
    assert_eq!(events[0], WsEvent::Heartbeat { seq: 0 });
}

#[test]
fn test_gateway_cleanup_removes_every_trace() {
    let mut reg = Registry::new();
    let mut presence = PresenceRegistry::new();
    let mut voice = VoiceStates::new();
    let mut sfu = SfuState::new();

    let _bob_conn = gateway_connect(&mut reg, &mut presence, BOB, vec![CH_TEXT, CH_VOICE]);
    let alice_conn = gateway_connect(&mut reg, &mut presence, ALICE, vec![CH_TEXT, CH_VOICE]);
    assert_eq!(presence.get_status(ALICE), PresenceStatus::Online);
    assert!(reg.session_exists(ALICE));
    assert_eq!(reg.subscriber_list(CH_TEXT), vec![BOB, ALICE]);

    voice.join(CH_VOICE, ALICE, None);
    let _ = sfu.begin_offer(CH_VOICE, ALICE, false);
    assert_eq!(voice.participants(CH_VOICE).len(), 1);

    // Ignore everything queued so far; watch only what cleanup emits.
    let _ = reg.drain_mailbox(BOB);

    let voice_left = gateway_cleanup(alice_conn, &mut reg, &mut presence, &mut voice, &mut sfu);

    assert_eq!(voice_left, vec![CH_VOICE]);
    assert!(!reg.session_exists(ALICE));
    assert_eq!(reg.subscriber_list(CH_TEXT), vec![BOB]);
    assert_eq!(reg.subscriber_list(CH_VOICE), vec![BOB]);
    assert!(voice.participants(CH_VOICE).is_empty());
    assert_eq!(presence.get_status(ALICE), PresenceStatus::Offline);

    // Bob sees the voice departure, then exactly one offline presence per
    // shared channel.
    let events = reg.drain_mailbox(BOB);
    assert_eq!(
        events[0],
        WsEvent::VoiceStateUpdate {
            channel_id: CH_VOICE,
            user_id: ALICE,
            joined: false,
            muted: false,
            deafened: false,
            user: None,
        }
    );
    let offline: Vec<&WsEvent> = events
        .iter()
        .filter(|e| {
            matches!(
                e,
                WsEvent::PresenceUpdate { user_id: ALICE, status: PresenceStatus::Offline }
            )
        })
        .collect();
    assert_eq!(offline.len(), 2); // one per shared channel
    assert_eq!(events.len(), 3);
}

#[test]
fn test_voice_join_flow_moves_and_announces() {
    let mut reg = Registry::new();
    let mut voice = VoiceStates::new();
    reg.open_session(BOB);
    reg.subscribe(CH_TEXT, BOB);
    reg.subscribe(CH_VOICE, BOB);

    // The first join puts the user in the channel and announces it.
    let (participants, left) = voice_join(&mut reg, &mut voice, CH_TEXT, ALICE, None);
    assert!(left.is_empty());
    assert_eq!(participants.len(), 1);
    assert_eq!(participants[0].user_id, ALICE);
    let events = reg.drain_mailbox(BOB);
    assert_eq!(events.len(), 1);
    assert!(matches!(
        &events[0],
        WsEvent::VoiceStateUpdate { channel_id: CH_TEXT, user_id: ALICE, joined: true, .. }
    ));

    // Joining a second channel implicitly leaves the first, announcing both.
    let (participants, left) = voice_join(&mut reg, &mut voice, CH_VOICE, ALICE, None);
    assert_eq!(left, vec![CH_TEXT]);
    assert_eq!(participants.len(), 1);
    assert!(voice.participants(CH_TEXT).is_empty());
    let events = reg.drain_mailbox(BOB);
    assert_eq!(events.len(), 2);
    assert!(matches!(
        &events[0],
        WsEvent::VoiceStateUpdate { channel_id: CH_TEXT, user_id: ALICE, joined: false, .. }
    ));
    assert!(matches!(
        &events[1],
        WsEvent::VoiceStateUpdate { channel_id: CH_VOICE, user_id: ALICE, joined: true, .. }
    ));
}

#[test]
fn test_route_frame_dispatch() {
    let offer = WsEvent::WebRTCSignal {
        from_user_id: ALICE,
        to_user_id: 0,
        channel_id: CH_VOICE,
        signal_type: "offer".to_string(),
        payload: "sdp".to_string(),
    };
    assert_eq!(route_frame(&offer), InboundAction::SfuOffer { channel_id: CH_VOICE });

    let ice = WsEvent::WebRTCSignal {
        from_user_id: ALICE,
        to_user_id: 0,
        channel_id: CH_VOICE,
        signal_type: "ice".to_string(),
        payload: "candidate".to_string(),
    };
    assert_eq!(route_frame(&ice), InboundAction::SfuIce { channel_id: CH_VOICE });

    let p2p = WsEvent::WebRTCSignal {
        from_user_id: ALICE,
        to_user_id: BOB,
        channel_id: CH_VOICE,
        signal_type: "offer".to_string(),
        payload: "sdp".to_string(),
    };
    assert_eq!(route_frame(&p2p), InboundAction::RejectPeerSignal);

    assert_eq!(route_frame(&WsEvent::HeartbeatAck), InboundAction::Ignore);
}
