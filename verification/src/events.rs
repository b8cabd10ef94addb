//! Chain event handling: a hex-encoded event batch is decoded into event
//! records, recognized kinds are routed to their bookkeeping, and
//! unrecognized kinds are ignored by design, so new event kinds never halt
//! the loop.

use vstd::prelude::*;
use crate::registry::dec_u32;
use crate::types::{AccountId32, Balance, H256, ShardIdentifier};

verus! {

/// Failure of event-batch decoding.
#[derive(Debug, Clone, Copy, PartialEq, Eq)]
pub enum EventsError {
    /// The batch was not valid hex, or its bytes did not frame a batch.
    Decode,
}

/// One decoded chain event, as far as the dispatcher reads it.
#[derive(Debug, Clone, PartialEq, Eq)]
pub enum Event {
    /// A balance moved between two accounts.
    Transfer { from: AccountId32, to: AccountId32, amount: Balance },
    /// An enclave finished registration, serving at the given URL.
    AddedEnclave { sender: AccountId32, worker_url: Vec<u8> },
    /// A trusted call was forwarded to a shard.
    Forwarded { shard: ShardIdentifier },
    /// An enclave confirmed processing a parentchain block.
    ProcessedParentchainBlock { sender: AccountId32, block_hash: H256, merkle_root: H256 },
    /// An enclave proposed a sidechain block.
    ProposedSidechainBlock { sender: AccountId32, payload: Vec<u8> },
    /// Funds moved into confidential state.
    ShieldFunds { incognito_account: Vec<u8> },
    /// Funds moved out of confidential state.
    UnshieldedFunds { incognito_account: Vec<u8> },
    /// Any other kind; ignored.
    Unsupported { tag: u8 },
}

/// The mathematical content of an event.
pub ghost enum EventView {
    Transfer { from: Seq<u8>, to: Seq<u8>, amount: Balance },
    AddedEnclave { sender: Seq<u8>, worker_url: Seq<u8> },
    Forwarded { shard: Seq<u8> },
    ProcessedParentchainBlock { sender: Seq<u8>, block_hash: Seq<u8>, merkle_root: Seq<u8> },
    ProposedSidechainBlock { sender: Seq<u8>, payload: Seq<u8> },
    ShieldFunds { incognito_account: Seq<u8> },
    UnshieldedFunds { incognito_account: Seq<u8> },
    Unsupported { tag: u8 },
}

impl View for Event {
    type V = EventView;

    open spec fn view(&self) -> EventView {
        match self {
            Event::Transfer { from, to, amount } => EventView::Transfer {
                from: from.bytes@,
                to: to.bytes@,
                amount: *amount,
            },
            Event::AddedEnclave { sender, worker_url } => EventView::AddedEnclave {
                sender: sender.bytes@,
                worker_url: worker_url@,
            },
            Event::Forwarded { shard } => EventView::Forwarded { shard: shard@ },
            Event::ProcessedParentchainBlock { sender, block_hash, merkle_root } => {
                EventView::ProcessedParentchainBlock {
                    sender: sender.bytes@,
                    block_hash: block_hash@,
                    merkle_root: merkle_root@,
                }
            },
            Event::ProposedSidechainBlock { sender, payload } => {
                EventView::ProposedSidechainBlock { sender: sender.bytes@, payload: payload@ }
            },
            Event::ShieldFunds { incognito_account } => EventView::ShieldFunds {
                incognito_account: incognito_account@,
            },
            Event::UnshieldedFunds { incognito_account } => EventView::UnshieldedFunds {
                incognito_account: incognito_account@,
            },
            Event::Unsupported { tag } => EventView::Unsupported { tag: *tag },
        }
    }
}

pub open spec fn events_view(s: Seq<Event>) -> Seq<EventView> {
    Seq::new(s.len(), |i: int| s[i]@)
}

// ----- hexadecimal decoding, through the hex crate -----

pub open spec fn is_hex_digit(b: u8) -> bool {
    (0x30 <= b <= 0x39) || (0x41 <= b <= 0x46) || (0x61 <= b <= 0x66)
}

pub open spec fn hex_val(b: u8) -> u8 {
    if 0x30 <= b <= 0x39 {
        (b - 0x30) as u8
    } else if 0x41 <= b <= 0x46 {
        (b - 0x41 + 10) as u8
    } else {
        (b - 0x61 + 10) as u8
    }
}

/// A well-formed hex string: even length, hexadecimal digits only.
pub open spec fn valid_hex(s: Seq<u8>) -> bool {
    s.len() % 2 == 0 && forall|i: int| 0 <= i < s.len() ==> is_hex_digit(#[trigger] s[i])
}

/// The bytes a hex string denotes: one byte per digit pair.
pub open spec fn hex_bytes_spec(s: Seq<u8>) -> Seq<u8> {
    Seq::new(s.len() / 2, |i: int| (hex_val(s[2 * i]) * 16 + hex_val(s[2 * i + 1])) as u8)
}

/// Relies on `hex::decode`: an even-length string of hexadecimal digits
/// (either case) decodes to the byte of each digit pair; an odd length or
/// any other character is refused.
#[verifier::external_body]
fn hex_decode(s: &[u8]) -> (r: Option<Vec<u8>>)
    ensures
        r is Some <==> valid_hex(s@),
        r matches Some(b) ==> b@ == hex_bytes_spec(s@),
{
    match hex::decode(s) {
        Ok(b) => Some(b),
        Err(_) => None,
    }
}

// ----- the event batch framing -----

/// One event record parsed from a record body: the tag byte decides the
/// kind; recognized kinds read exact fields, every other tag is kept as
/// unsupported with its payload ignored.
pub open spec fn dec_event_body(body: Seq<u8>) -> Option<EventView> {
    let tag = body[0];
    let p = body.skip(1);
    if tag == 0 {
        if p.len() == 80 {
            Some(
                EventView::Transfer {
                    from: p.take(32),
                    to: p.subrange(32, 64),
                    amount: vstd::bytes::spec_u128_from_le_bytes(p.subrange(64, 80)),
                },
            )
        } else {
            None
        }
    } else if tag == 1 {
        if p.len() >= 32 {
            Some(EventView::AddedEnclave { sender: p.take(32), worker_url: p.skip(32) })
        } else {
            None
        }
    } else if tag == 2 {
        if p.len() == 32 {
            Some(EventView::Forwarded { shard: p })
        } else {
            None
        }
    } else if tag == 3 {
        if p.len() == 96 {
            Some(
                EventView::ProcessedParentchainBlock {
                    sender: p.take(32),
                    block_hash: p.subrange(32, 64),
                    merkle_root: p.subrange(64, 96),
                },
            )
        } else {
            None
        }
    } else if tag == 4 {
        if p.len() >= 32 {
            Some(EventView::ProposedSidechainBlock { sender: p.take(32), payload: p.skip(32) })
        } else {
            None
        }
    } else if tag == 5 {
        Some(EventView::ShieldFunds { incognito_account: p })
    } else if tag == 6 {
        Some(EventView::UnshieldedFunds { incognito_account: p })
    } else {
        Some(EventView::Unsupported { tag })
    }
}

/// An event batch: a run of records, each a length-prefixed body whose
/// first byte is the kind tag.  The whole batch must be consumed.
pub open spec fn dec_events(b: Seq<u8>) -> Option<Seq<EventView>>
    decreases b.len(),
{
    if b.len() == 0 {
        Some(Seq::empty())
    } else {
        match dec_u32(b) {
            Some((len, b1)) => {
                if 1 <= len <= b1.len() {
                    let body = b1.take(len as int);
                    let rest = b1.skip(len as int);
                    match dec_event_body(body) {
                        Some(ev) => match dec_events(rest) {
                            Some(evs) => Some(seq![ev] + evs),
                            None => None,
                        },
                        None => None,
                    }
                } else {
                    None
                }
            },
            None => None,
        }
    }
}

/// A leading `0x`, if any, stripped.
pub open spec fn strip_0x(s: Seq<u8>) -> Seq<u8> {
    if s.len() >= 2 && s[0] == 0x30 && s[1] == 0x78 {
        s.skip(2)
    } else {
        s
    }
}

// ----- executable decoding -----

fn copy32(b: &[u8], start: usize) -> (r: [u8; 32])
    requires
        start + 32 <= b@.len(),
    ensures
        r@ == b@.subrange(start as int, start + 32),
{
    let mut out: [u8; 32] = [0; 32];
    let n: usize = b.len();
    let mut i: usize = 0;
    while i < 32
        invariant
            n == b@.len(),
            start + 32 <= n,
            i <= 32,
            forall|k: int| 0 <= k < i ==> out@[k] == b@[start + k],
        decreases 32 - i,
    {
        let j: usize = start + i;
        out[i] = b[j];
        i = i + 1;
    }
    assert(out@ =~= b@.subrange(start as int, start + 32));
    out
}

fn slice_to_vec(b: &[u8]) -> (r: Vec<u8>)
    ensures
        r@ == b@,
{
    let mut out: Vec<u8> = Vec::new();
    out.extend_from_slice(b);
    assert(out@ =~= b@);
    out
}

fn parse_event_body(body: &[u8]) -> (r: Option<Event>)
    requires
        body@.len() >= 1,
    ensures
        match r {
            Some(ev) => dec_event_body(body@) == Some(ev@),
            None => dec_event_body(body@) is None,
        },
{
    let tag = body[0];
    let (_, p) = body.split_at(1);
    assert(p@ =~= body@.skip(1));
    if tag == 0 {
        if p.len() == 80 {
            let from = AccountId32 { bytes: copy32(p, 0) };
            let to = AccountId32 { bytes: copy32(p, 32) };
            let (_, amt) = p.split_at(64);
            assert(amt@ =~= p@.subrange(64, 80));
            let amount = vstd::bytes::u128_from_le_bytes(amt);
            assert(from.bytes@ =~= p@.take(32));
            Some(Event::Transfer { from, to, amount })
        } else {
            None
        }
    } else if tag == 1 {
        if p.len() >= 32 {
            let sender = AccountId32 { bytes: copy32(p, 0) };
            let (_, url) = p.split_at(32);
            assert(url@ =~= p@.skip(32));
            let worker_url = slice_to_vec(url);
            assert(sender.bytes@ =~= p@.take(32));
            Some(Event::AddedEnclave { sender, worker_url })
        } else {
            None
        }
    } else if tag == 2 {
        if p.len() == 32 {
            let shard = copy32(p, 0);
            assert(shard@ =~= p@);
            Some(Event::Forwarded { shard })
        } else {
            None
        }
    } else if tag == 3 {
        if p.len() == 96 {
            let sender = AccountId32 { bytes: copy32(p, 0) };
            let block_hash = copy32(p, 32);
            let merkle_root = copy32(p, 64);
            assert(sender.bytes@ =~= p@.take(32));
            Some(Event::ProcessedParentchainBlock { sender, block_hash, merkle_root })
        } else {
            None
        }
    } else if tag == 4 {
        if p.len() >= 32 {
            let sender = AccountId32 { bytes: copy32(p, 0) };
            let (_, rest) = p.split_at(32);
            assert(rest@ =~= p@.skip(32));
            let payload = slice_to_vec(rest);
            assert(sender.bytes@ =~= p@.take(32));
            Some(Event::ProposedSidechainBlock { sender, payload })
        } else {
            None
        }
    } else if tag == 5 {
        let incognito_account = slice_to_vec(p);
        Some(Event::ShieldFunds { incognito_account })
    } else if tag == 6 {
        let incognito_account = slice_to_vec(p);
        Some(Event::UnshieldedFunds { incognito_account })
    } else {
        Some(Event::Unsupported { tag })
    }
}

fn parse_records(b: &[u8]) -> (r: Option<Vec<Event>>)
    ensures
        match r {
            Some(evs) => dec_events(b@) == Some(events_view(evs@)),
            None => dec_events(b@) is None,
        },
    decreases b@.len(),
{
    if b.len() == 0 {
        let out: Vec<Event> = Vec::new();
        assert(events_view(out@) =~= Seq::<EventView>::empty());
        return Some(out);
    }
    let (len, b1) = match crate::registry::parse_u32(b) {
        Some(p) => p,
        None => {
            return None;
        },
    };
    if len < 1 || (len as usize) > b1.len() {
        return None;
    }
    let (body, rest) = b1.split_at(len as usize);
    assert(body@ =~= b1@.take(len as int));
    assert(rest@ =~= b1@.skip(len as int));
    let ev = match parse_event_body(body) {
        Some(ev) => ev,
        None => {
            return None;
        },
    };
    let mut evs = match parse_records(rest) {
        Some(evs) => evs,
        None => {
            return None;
        },
    };
    let ghost prev = evs@;
    evs.insert(0, ev);
    assert(events_view(evs@) =~= seq![evs@[0]@] + events_view(prev));
    Some(evs)
}

/// Decodes a hex-encoded event batch (optionally `0x`-prefixed) into event
/// records; a batch that is not hex or does not frame records fails whole.
pub fn parse_events(event: &[u8]) -> (r: Result<Vec<Event>, EventsError>)
    ensures
        ({
            let s = strip_0x(event@);
            match r {
                Ok(evs) => valid_hex(s) && dec_events(hex_bytes_spec(s)) == Some(
                    events_view(evs@),
                ),
                Err(e) => e == EventsError::Decode && (!valid_hex(s) || dec_events(
                    hex_bytes_spec(s),
                ) is None),
            }
        }),
{
    let stripped: &[u8] = if event.len() >= 2 && event[0] == 0x30 && event[1] == 0x78 {
        let (_, s) = event.split_at(2);
        assert(s@ =~= strip_0x(event@));
        s
    } else {
        event
    };
    let bytes = match hex_decode(stripped) {
        Some(b) => b,
        None => {
            return Err(EventsError::Decode);
        },
    };
    match parse_records(bytes.as_slice()) {
        Some(evs) => Ok(evs),
        None => Err(EventsError::Decode),
    }
}

// ----- dispatch bookkeeping -----

/// How often a sequence of events matches a kind.
pub open spec fn count_events(s: Seq<Event>, f: spec_fn(Event) -> bool) -> nat
    decreases s.len(),
{
    if s.len() == 0 {
        0
    } else {
        count_events(s.drop_last(), f) + if f(s.last()) {
            1nat
        } else {
            0nat
        }
    }
}

pub proof fn lemma_count_events_le_len(s: Seq<Event>, f: spec_fn(Event) -> bool)
    ensures
        count_events(s, f) <= s.len(),
    decreases s.len(),
{
    if s.len() > 0 {
        lemma_count_events_le_len(s.drop_last(), f);
    }
}

/// The bookkeeping of one handled batch: how many events of each
/// recognized kind arrived, and how many were ignored.
#[derive(Debug, Clone, Copy, PartialEq, Eq, Default)]
pub struct EventSummary {
    pub transfers: usize,
    pub enclaves_added: usize,
    pub calls_forwarded: usize,
    pub parentchain_blocks_processed: usize,
    pub sidechain_blocks_proposed: usize,
    pub funds_shielded: usize,
    pub funds_unshielded: usize,
    pub ignored: usize,
}

/// Routes a decoded batch: every recognized kind is tallied, every
/// unrecognized one is ignored and the batch never fails.
pub fn handle_events(events: &Vec<Event>) -> (r: EventSummary)
    ensures
        r.transfers == count_events(events@, |e: Event| e is Transfer),
        r.enclaves_added == count_events(events@, |e: Event| e is AddedEnclave),
        r.calls_forwarded == count_events(events@, |e: Event| e is Forwarded),
        r.parentchain_blocks_processed == count_events(
            events@,
            |e: Event| e is ProcessedParentchainBlock,
        ),
        r.sidechain_blocks_proposed == count_events(
            events@,
            |e: Event| e is ProposedSidechainBlock,
        ),
        r.funds_shielded == count_events(events@, |e: Event| e is ShieldFunds),
        r.funds_unshielded == count_events(events@, |e: Event| e is UnshieldedFunds),
        r.ignored == count_events(events@, |e: Event| e is Unsupported),
{
    let n: usize = events.len();
    let mut summary = EventSummary {
        transfers: 0,
        enclaves_added: 0,
        calls_forwarded: 0,
        parentchain_blocks_processed: 0,
        sidechain_blocks_proposed: 0,
        funds_shielded: 0,
        funds_unshielded: 0,
        ignored: 0,
    };
    let mut i: usize = 0;
    while i < n
        invariant
            n == events@.len(),
            i <= n,
            summary.transfers == count_events(events@.take(i as int), |e: Event| e is Transfer),
            summary.enclaves_added == count_events(
                events@.take(i as int),
                |e: Event| e is AddedEnclave,
            ),
            summary.calls_forwarded == count_events(
                events@.take(i as int),
                |e: Event| e is Forwarded,
            ),
            summary.parentchain_blocks_processed == count_events(
                events@.take(i as int),
                |e: Event| e is ProcessedParentchainBlock,
            ),
            summary.sidechain_blocks_proposed == count_events(
                events@.take(i as int),
                |e: Event| e is ProposedSidechainBlock,
            ),
            summary.funds_shielded == count_events(
                events@.take(i as int),
                |e: Event| e is ShieldFunds,
            ),
            summary.funds_unshielded == count_events(
                events@.take(i as int),
                |e: Event| e is UnshieldedFunds,
            ),
            summary.ignored == count_events(events@.take(i as int), |e: Event| e is Unsupported),
        decreases n - i,
    {
        proof {
            assert(events@.take(i + 1).drop_last() =~= events@.take(i as int));
            assert(events@.take(i + 1).last() == events@[i as int]);
            lemma_count_events_le_len(events@.take(i as int), |e: Event| e is Transfer);
            lemma_count_events_le_len(events@.take(i as int), |e: Event| e is AddedEnclave);
            lemma_count_events_le_len(events@.take(i as int), |e: Event| e is Forwarded);
            lemma_count_events_le_len(
                events@.take(i as int),
                |e: Event| e is ProcessedParentchainBlock,
            );
            lemma_count_events_le_len(
                events@.take(i as int),
                |e: Event| e is ProposedSidechainBlock,
            );
            lemma_count_events_le_len(events@.take(i as int), |e: Event| e is ShieldFunds);
            lemma_count_events_le_len(events@.take(i as int), |e: Event| e is UnshieldedFunds);
            lemma_count_events_le_len(events@.take(i as int), |e: Event| e is Unsupported);
        }
        match &events[i] {
            Event::Transfer { .. } => {
                summary.transfers = summary.transfers + 1;
            },
            Event::AddedEnclave { .. } => {
                summary.enclaves_added = summary.enclaves_added + 1;
            },
            Event::Forwarded { .. } => {
                summary.calls_forwarded = summary.calls_forwarded + 1;
            },
            Event::ProcessedParentchainBlock { .. } => {
                summary.parentchain_blocks_processed = summary.parentchain_blocks_processed + 1;
            },
            Event::ProposedSidechainBlock { .. } => {
                summary.sidechain_blocks_proposed = summary.sidechain_blocks_proposed + 1;
            },
            Event::ShieldFunds { .. } => {
                summary.funds_shielded = summary.funds_shielded + 1;
            },
            Event::UnshieldedFunds { .. } => {
                summary.funds_unshielded = summary.funds_unshielded + 1;
            },
            Event::Unsupported { .. } => {
                summary.ignored = summary.ignored + 1;
            },
        }
        i = i + 1;
    }
    assert(events@.take(n as int) =~= events@);
    summary
}

} // verus!
