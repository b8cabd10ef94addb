use tee_worker::events::{handle_events, parse_events, Event, EventsError};

fn record(tag: u8, payload: &[u8]) -> Vec<u8> {
    let mut out = Vec::new();
    let len = (payload.len() + 1) as u32;
    out.extend_from_slice(&len.to_le_bytes());
    out.push(tag);
    out.extend_from_slice(payload);
    out
}

fn transfer_payload(from: u8, to: u8, amount: u128) -> Vec<u8> {
    let mut p = Vec::new();
    p.extend_from_slice(&[from; 32]);
    p.extend_from_slice(&[to; 32]);
    p.extend_from_slice(&amount.to_le_bytes());
    p
}

#[test]
fn parse_events_decodes_a_transfer() {
    let batch = record(0, &transfer_payload(1, 2, 777));
    let hexed = hex::encode(&batch);
    let events = parse_events(hexed.as_bytes()).unwrap();
    assert_eq!(events.len(), 1);
    match &events[0] {
        Event::Transfer { from, to, amount } => {
            assert_eq!(from.bytes, [1u8; 32]);
            assert_eq!(to.bytes, [2u8; 32]);
            assert_eq!(*amount, 777);
        },
        _ => panic!("expected a transfer"),
    }
}

#[test]
fn parse_events_accepts_a_0x_prefix() {
    let batch = record(2, &[9u8; 32]);
    let hexed = format!("0x{}", hex::encode(&batch));
    let events = parse_events(hexed.as_bytes()).unwrap();
    assert_eq!(events, vec![Event::Forwarded { shard: [9u8; 32] }]);
}

#[test]
fn parse_events_decodes_a_batch_in_order() {
    let mut batch = record(1, &{
        let mut p = vec![5u8; 32];
        p.extend_from_slice(b"ws://worker");
        p
    });
    batch.extend_from_slice(&record(5, b"incognito"));
    let hexed = hex::encode(&batch);
    let events = parse_events(hexed.as_bytes()).unwrap();
    assert_eq!(events.len(), 2);
    match &events[0] {
        Event::AddedEnclave { sender, worker_url } => {
            assert_eq!(sender.bytes, [5u8; 32]);
            assert_eq!(worker_url, b"ws://worker");
        },
        _ => panic!("expected an enclave registration"),
    }
    match &events[1] {
        Event::ShieldFunds { incognito_account } => {
            assert_eq!(incognito_account, b"incognito");
        },
        _ => panic!("expected a shielding"),
    }
}

#[test]
fn unknown_event_kinds_are_kept_and_ignored() {
    let mut batch = record(200, b"whatever future bytes");
    batch.extend_from_slice(&record(2, &[1u8; 32]));
    let hexed = hex::encode(&batch);
    let events = parse_events(hexed.as_bytes()).unwrap();
    assert_eq!(events.len(), 2);
    assert_eq!(events[0], Event::Unsupported { tag: 200 });

    let summary = handle_events(&events);
    assert_eq!(summary.ignored, 1);
    assert_eq!(summary.calls_forwarded, 1);
}

#[test]
fn parse_events_rejects_bad_hex() {
    assert_eq!(parse_events(b"zz").unwrap_err(), EventsError::Decode);
    assert_eq!(parse_events(b"abc").unwrap_err(), EventsError::Decode);
}

#[test]
fn parse_events_rejects_a_truncated_batch() {
    let mut batch = record(2, &[1u8; 32]);
    batch.pop();
    let hexed = hex::encode(&batch);
    assert_eq!(parse_events(hexed.as_bytes()).unwrap_err(), EventsError::Decode);
}

#[test]
fn parse_events_rejects_a_malformed_transfer() {
    // A transfer body must carry exactly two accounts and an amount.
    let batch = record(0, &[1u8; 10]);
    let hexed = hex::encode(&batch);
    assert_eq!(parse_events(hexed.as_bytes()).unwrap_err(), EventsError::Decode);
}

#[test]
fn handle_events_tallies_each_recognized_kind() {
    let events = vec![
        Event::Transfer {
            from: tee_worker::types::AccountId32::from([1u8; 32]),
            to: tee_worker::types::AccountId32::from([2u8; 32]),
            amount: 10,
        },
        Event::Forwarded { shard: [0u8; 32] },
        Event::Forwarded { shard: [1u8; 32] },
        Event::UnshieldedFunds { incognito_account: vec![1, 2] },
        Event::Unsupported { tag: 99 },
    ];
    let summary = handle_events(&events);
    assert_eq!(summary.transfers, 1);
    assert_eq!(summary.calls_forwarded, 2);
    assert_eq!(summary.funds_unshielded, 1);
    assert_eq!(summary.ignored, 1);
    assert_eq!(summary.enclaves_added, 0);
    assert_eq!(summary.parentchain_blocks_processed, 0);
    assert_eq!(summary.sidechain_blocks_proposed, 0);
    assert_eq!(summary.funds_shielded, 0);
}
