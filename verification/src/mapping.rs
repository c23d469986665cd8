//! Keyboard, pointer and modifier mappings: ChangeKeyboardMapping (100),
//! GetKeyboardMapping (101), SetPointerMapping (116) and
//! SetModifierMapping (118), and the MappingNotify event that tells every
//! client of a change. x11rb-protocol parses the requests; it reads the
//! keysyms of ChangeKeyboardMapping in the machine's byte order.

use crate::drawing::copy::events_view;
use crate::input::InputState;
use crate::keymap::{keycode_to_keysym, us_keysyms};
use crate::state::{ClientState, BAD_LENGTH, BAD_VALUE};
use crate::wire::{
    build_error, build_reply, bytes16, bytes32, error_packet, field32, push_u16, push_u32, push_zeros,
    reply_packet, zeros,
};
use std::collections::HashMap;
use vstd::prelude::*;
use x11rb_protocol::errors::ParseError;
use x11rb_protocol::protocol::xproto::{
    ChangeKeyboardMappingRequest, GetKeyboardMappingRequest, SetModifierMappingRequest, SetPointerMappingRequest,
};
use x11rb_protocol::x11_utils::RequestHeader;

verus! {

broadcast use vstd::std_specs::hash::group_hash_axioms;

/// The MappingNotify event (34): which mapping changed (Modifier 0,
/// Keyboard 1, Pointer 2) and, for the keyboard, the first keycode and
/// how many changed.
pub open spec fn mapping_notify(seq: u16, request: u8, first: u8, count: u8, msb: bool) -> Seq<u8> {
    seq![34u8, 0u8] + bytes16(seq, msb) + seq![request, first, count] + zeros(25)
}

/// Build a MappingNotify event.
fn build_mapping_notify(seq: u16, request: u8, first: u8, count: u8, msb: bool) -> (r: Vec<u8>)
    ensures
        r@ == mapping_notify(seq, request, first, count, msb),
{
    let mut e: Vec<u8> = Vec::new();
    e.push(34u8);
    e.push(0u8);
    assert(e@ =~= seq![34u8, 0u8]);
    push_u16(&mut e, seq, msb);
    let ghost head = e@;
    e.push(request);
    e.push(first);
    e.push(count);
    assert(e@ =~= head + seq![request, first, count]);
    push_zeros(&mut e, 25);
    e
}

/// `after` is `before` with one more event, for this client and for all
/// the others.
pub open spec fn mapping_notified(before: ClientState, after: ClientState, event: Seq<u8>) -> bool {
    &&& events_view(after.pending_events@) == events_view(before.pending_events@).push(event)
    &&& events_view(after.global_events@) == events_view(before.global_events@).push(event)
}

/// Tell this client and every other one that a mapping changed.
fn notify_mapping(state: &mut ClientState, seq: u16, request: u8, first: u8, count: u8)
    ensures
        mapping_notified(*old(state), *final(state), mapping_notify(seq, request, first, count, old(state).msb_first)),
        *final(state) == (ClientState {
            pending_events: final(state).pending_events,
            global_events: final(state).global_events,
            ..*old(state)
        }),
{
    let ghost s0 = *state;
    let e = build_mapping_notify(seq, request, first, count, state.msb_first);
    let ghost ev = e@;
    state.pending_events.push(e);
    let e2 = build_mapping_notify(seq, request, first, count, state.msb_first);
    state.global_events.push(e2);
    assert(events_view(state.pending_events@) =~= events_view(s0.pending_events@).push(ev));
    assert(events_view(state.global_events@) =~= events_view(s0.global_events@).push(ev));
}

// ---------------------------------------------------------------------------
// GetKeyboardMapping
// ---------------------------------------------------------------------------

/// The longest custom keymap entry among the keycodes below `n`.
pub open spec fn longest_entry(custom: Map<u8, Vec<u32>>, n: nat) -> nat
    decreases n,
{
    if n == 0 {
        0
    } else {
        let rest = longest_entry(custom, (n - 1) as nat);
        let k = (n - 1) as u8;
        if custom.contains_key(k) && custom[k]@.len() > rest {
            custom[k]@.len()
        } else {
            rest
        }
    }
}

/// The keysyms per keycode GetKeyboardMapping reports: the longest custom
/// entry, and at least 4.
pub open spec fn keysyms_per_keycode(custom: Map<u8, Vec<u32>>) -> nat {
    let m = longest_entry(custom, 256);
    if m > 4 {
        m
    } else {
        4
    }
}

/// Every custom keymap entry holds at most 255 keysyms (ChangeKeyboardMapping
/// gives each keycode `keysyms_per_keycode` of them, a byte).
pub open spec fn entries_fit(custom: Map<u8, Vec<u32>>) -> bool {
    forall|k: u8| custom.contains_key(k) ==> #[trigger] custom[k]@.len() <= 255
}

/// Each entry is no longer than the longest.
proof fn lemma_longest_entry(custom: Map<u8, Vec<u32>>, n: nat)
    requires
        n <= 256,
        entries_fit(custom),
    ensures
        longest_entry(custom, n) <= 255,
        forall|k: u8| k < n && custom.contains_key(k) ==> #[trigger] custom[k]@.len() <= longest_entry(custom, n),
    decreases n,
{
    if n > 0 {
        lemma_longest_entry(custom, (n - 1) as nat);
        let k = (n - 1) as u8;
        assert(k == n - 1);
    }
}

/// Keysyms as 4-byte values.
pub open spec fn keysym_bytes(syms: Seq<u32>, msb: bool) -> Seq<u8>
    decreases syms.len(),
{
    if syms.len() == 0 {
        Seq::empty()
    } else {
        keysym_bytes(syms.drop_last(), msb) + bytes32(syms.last(), msb)
    }
}

/// Keycode `k`'s row of `kpk` keysyms: its custom entry if it has one,
/// else its unshifted and shifted keysyms from the built-in table, then
/// NoSymbol (0).
pub open spec fn keysym_row(custom: Map<u8, Vec<u32>>, k: u8, kpk: nat) -> Seq<u32> {
    let syms = if custom.contains_key(k) {
        custom[k]@
    } else {
        seq![us_keysyms(k).0, us_keysyms(k).1]
    };
    syms + Seq::new((kpk - syms.len()) as nat, |i: int| 0u32)
}

/// The rows of `n` keycodes from `first` on, wrapping after 255.
pub open spec fn keysym_rows(custom: Map<u8, Vec<u32>>, first: u8, n: nat, kpk: nat) -> Seq<u32>
    decreases n,
{
    if n == 0 {
        Seq::empty()
    } else {
        keysym_rows(custom, first, (n - 1) as nat, kpk) + keysym_row(custom, ((first + n - 1) % 256) as u8, kpk)
    }
}

/// The GetKeyboardMapping reply for `count` keycodes from `first`.
pub open spec fn keyboard_mapping_reply(s: ClientState, first: u8, count: u8, seq: u16) -> Seq<u8> {
    let custom = s.input.custom_keymap@;
    let kpk = keysyms_per_keycode(custom);
    reply_packet(kpk as u8, seq, zeros(24) + keysym_bytes(keysym_rows(custom, first, count as nat, kpk), s.msb_first), s.msb_first)
}

/// Parse GetKeyboardMapping with
/// `x11rb_protocol::protocol::xproto::GetKeyboardMappingRequest::try_parse_request`.
/// Claimed: with at least 8 bytes it gives the first keycode (byte 4) and
/// the count (byte 5), exactly when the major opcode is 101.
#[verifier::external_body]
fn parse_get_keyboard_mapping(data: &[u8]) -> (r: Result<(u8, u8), ParseError>)
    requires
        data@.len() >= 8,
    ensures
        r matches Ok(q) ==> data@[0] == 101 && q.0 == data@[4] && q.1 == data@[5],
        r is Err ==> data@[0] != 101,
{
    let header = RequestHeader { major_opcode: data[0], minor_opcode: data[1], remaining_length: 0 };
    GetKeyboardMappingRequest::try_parse_request(header, &data[4..]).map(|q| (q.first_keycode, q.count))
}

/// Append keysyms as 4-byte values.
fn push_keysyms(out: &mut Vec<u8>, syms: &Vec<u32>, msb: bool)
    requires
        old(out)@.len() + 4 * syms@.len() <= usize::MAX,
    ensures
        final(out)@ == old(out)@ + keysym_bytes(syms@, msb),
        final(out)@.len() == old(out)@.len() + 4 * syms@.len(),
{
    let mut i: usize = 0;
    while i < syms.len()
        invariant
            i <= syms@.len(),
            old(out)@.len() + 4 * syms@.len() <= usize::MAX,
            out@ == old(out)@ + keysym_bytes(syms@.subrange(0, i as int), msb),
            out@.len() == old(out)@.len() + 4 * i,
        decreases syms@.len() - i,
    {
        assert(syms@.subrange(0, i + 1).drop_last() =~= syms@.subrange(0, i as int));
        push_u32(out, syms[i], msb);
        i = i + 1;
    }
    assert(syms@.subrange(0, syms@.len() as int) =~= syms@);
}

/// The keysyms per keycode of the custom keymap.
fn compute_keysyms_per_keycode(custom: &HashMap<u8, Vec<u32>>) -> (r: usize)
    requires
        entries_fit(custom@),
    ensures
        r == keysyms_per_keycode(custom@),
        4 <= r <= 255,
{
    let mut m: usize = 0;
    let mut n: u16 = 0;
    while n < 256
        invariant
            n <= 256,
            entries_fit(custom@),
            m == longest_entry(custom@, n as nat),
            m <= 255,
        decreases 256 - n,
    {
        let k = n as u8;
        assert(k == n);
        match custom.get(&k) {
            Some(v) => {
                if v.len() > m {
                    m = v.len();
                }
            },
            None => {},
        }
        n = n + 1;
    }
    if m > 4 {
        m
    } else {
        4
    }
}

/// The rows of `count` keycodes from `first`.
fn keysym_table(custom: &HashMap<u8, Vec<u32>>, first: u8, count: u8, kpk: usize) -> (r: Vec<u32>)
    requires
        entries_fit(custom@),
        kpk == keysyms_per_keycode(custom@),
        4 <= kpk <= 255,
    ensures
        r@ == keysym_rows(custom@, first, count as nat, kpk as nat),
        r@.len() == count * kpk,
{
    proof {
        lemma_longest_entry(custom@, 256);
    }
    let mut rows: Vec<u32> = Vec::new();
    let mut i: u16 = 0;
    while i < count as u16
        invariant
            i <= count,
            4 <= kpk <= 255,
            kpk == keysyms_per_keycode(custom@),
            forall|k: u8| custom@.contains_key(k) ==> #[trigger] custom@[k]@.len() <= kpk,
            rows@ == keysym_rows(custom@, first, i as nat, kpk as nat),
            rows@.len() == i * kpk,
        decreases count - i,
    {
        let k: u8 = if first as u16 + i >= 256 {
            (first as u16 + i - 256) as u8
        } else {
            (first as u16 + i) as u8
        };
        assert(k == (first + i) % 256);
        let ghost before = rows@;
        let ghost row = keysym_row(custom@, k, kpk as nat);
        match custom.get(&k) {
            Some(v) => {
                let mut j: usize = 0;
                while j < v.len()
                    invariant
                        j <= v@.len() <= kpk,
                        rows@ == before + v@.subrange(0, j as int),
                    decreases v@.len() - j,
                {
                    rows.push(v[j]);
                    j = j + 1;
                    assert(rows@ =~= before + v@.subrange(0, j as int));
                }
                while j < kpk
                    invariant
                        v@.len() <= j <= kpk,
                        rows@ == before + v@ + Seq::new((j - v@.len()) as nat, |x: int| 0u32),
                    decreases kpk - j,
                {
                    rows.push(0u32);
                    j = j + 1;
                    assert(rows@ =~= before + v@ + Seq::new((j - v@.len()) as nat, |x: int| 0u32));
                }
                assert(v@.subrange(0, v@.len() as int) =~= v@);
                assert(rows@ =~= before + row);
            },
            None => {
                let (normal, shifted) = keycode_to_keysym(k);
                rows.push(normal);
                rows.push(shifted);
                let mut j: usize = 2;
                while j < kpk
                    invariant
                        2 <= j <= kpk,
                        rows@ == before + seq![normal, shifted] + Seq::new((j - 2) as nat, |x: int| 0u32),
                    decreases kpk - j,
                {
                    rows.push(0u32);
                    j = j + 1;
                    assert(rows@ =~= before + seq![normal, shifted] + Seq::new((j - 2) as nat, |x: int| 0u32));
                }
                assert(rows@ =~= before + row);
            },
        }
        i = i + 1;
        assert(i * kpk == (i - 1) * kpk + kpk) by (nonlinear_arith);
    }
    rows
}

/// What GetKeyboardMapping answers `req` with, and the client state it leaves.
pub open spec fn get_keyboard_mapping_done(pre: ClientState, post: ClientState, req: Seq<u8>, seq: u16, out: Seq<u8>) -> bool {
    &&& (req.len() < 8 || req[0] != 101 ==> out == error_packet(BAD_LENGTH, seq, 0, 101, 0, false))
    &&& (req.len() >= 8 && req[0] == 101 ==> out == keyboard_mapping_reply(pre, req[4], req[5], seq))
}

/// GetKeyboardMapping (opcode 101): the keysyms of `count` keycodes from
/// `first`, `keysyms_per_keycode` of them each; a short request or another
/// opcode is a length error.
pub fn handle_get_keyboard_mapping(state: &ClientState, data: &[u8], seq: u16) -> (r: Vec<u8>)
    requires
        entries_fit(state.input.custom_keymap@),
    ensures
        get_keyboard_mapping_done(*state, *state, data@, seq, r@),
{
    if data.len() < 8 {
        return build_error(BAD_LENGTH, seq, 0, 101, 0);
    }
    let (first, count) = match parse_get_keyboard_mapping(data) {
        Ok(q) => q,
        Err(_) => {
            return build_error(BAD_LENGTH, seq, 0, 101, 0);
        },
    };
    let kpk = compute_keysyms_per_keycode(&state.input.custom_keymap);
    let rows = keysym_table(&state.input.custom_keymap, first, count, kpk);
    assert(count * kpk <= 255 * 255) by (nonlinear_arith)
        requires
            count <= 255,
            kpk <= 255,
    ;
    let mut body: Vec<u8> = Vec::new();
    push_zeros(&mut body, 24);
    push_keysyms(&mut body, &rows, state.msb_first);
    build_reply(kpk as u8, seq, body.as_slice(), state.msb_first)
}

// ---------------------------------------------------------------------------
// ChangeKeyboardMapping
// ---------------------------------------------------------------------------

/// `n` 4-byte values of a request from byte `off` on, in one byte order.
pub open spec fn words32(d: Seq<u8>, off: int, n: nat, msb: bool) -> Seq<u32> {
    Seq::new(n, |i: int| field32(d, off + 4 * i, msb))
}

/// How many keysyms a ChangeKeyboardMapping request carries: keycode
/// count (byte 1) times keysyms per keycode (byte 5).
pub open spec fn keysym_count(d: Seq<u8>) -> nat {
    (d[1] * d[5]) as nat
}

/// Parse ChangeKeyboardMapping with
/// `x11rb_protocol::protocol::xproto::ChangeKeyboardMappingRequest::try_parse_request`.
/// Claimed: with at least 8 bytes it gives the keycode count (byte 1), the
/// first keycode (byte 4), the keysyms per keycode (byte 5) and the keysyms
/// from byte 8 on, read in the machine's byte order (one of the two),
/// exactly when the major opcode is 100 and the request holds them all.
#[verifier::external_body]
fn parse_change_keyboard_mapping(data: &[u8]) -> (r: Result<(u8, u8, u8, Vec<u32>), ParseError>)
    requires
        data@.len() >= 8,
    ensures
        r matches Ok(q) ==> data@[0] == 100 && q.0 == data@[1] && q.1 == data@[4] && q.2 == data@[5]
            && data@.len() >= 8 + 4 * keysym_count(data@) && (q.3@ == words32(data@, 8, keysym_count(data@), false)
            || q.3@ == words32(data@, 8, keysym_count(data@), true)),
        r is Err ==> data@[0] != 100 || data@.len() < 8 + 4 * keysym_count(data@),
{
    let header = RequestHeader { major_opcode: data[0], minor_opcode: data[1], remaining_length: 0 };
    ChangeKeyboardMappingRequest::try_parse_request(header, &data[4..]).map(
        |q| (q.keycode_count, q.first_keycode, q.keysyms_per_keycode, q.keysyms.to_vec()),
    )
}

/// Where keycode `k` stands in a run of keycodes from `first` that wraps
/// after 255.
pub open spec fn key_index(k: u8, first: u8) -> int {
    if k >= first {
        k - first
    } else {
        k + 256 - first
    }
}

/// `after` is `before` with the `count` keycodes from `first` on mapped,
/// in turn, to consecutive runs of `kpk` keysyms of `syms`.
pub open spec fn keymap_changed(
    before: Map<u8, Vec<u32>>,
    after: Map<u8, Vec<u32>>,
    first: u8,
    count: nat,
    kpk: nat,
    syms: Seq<u32>,
) -> bool {
    forall|k: u8|
        #![trigger after.contains_key(k)]
        #![trigger after[k]]
        {
            let i = key_index(k, first);
            &&& after.contains_key(k) == (before.contains_key(k) || i < count)
            &&& i < count ==> after[k]@ == syms.subrange(i * kpk, (i + 1) * kpk)
            &&& !(i < count) && before.contains_key(k) ==> after[k] == before[k]
        }
}

/// Store `count` runs of `kpk` keysyms for the keycodes from `first` on.
fn store_keysyms(map: &mut HashMap<u8, Vec<u32>>, first: u8, count: u8, kpk: u8, syms: &Vec<u32>)
    requires
        syms@.len() == count * kpk,
    ensures
        keymap_changed(old(map)@, final(map)@, first, count as nat, kpk as nat, syms@),
{
    let ghost m0 = map@;
    let mut i: u16 = 0;
    while i < count as u16
        invariant
            i <= count,
            syms@.len() == count * kpk,
            keymap_changed(m0, map@, first, i as nat, kpk as nat, syms@),
        decreases count - i,
    {
        let k: u8 = if first as u16 + i >= 256 {
            (first as u16 + i - 256) as u8
        } else {
            (first as u16 + i) as u8
        };
        assert(key_index(k, first) == i);
        assert((i + 1) * kpk <= count * kpk) by (nonlinear_arith)
            requires
                i + 1 <= count,
        ;
        assert(count * kpk <= 255 * 255) by (nonlinear_arith)
            requires
                count <= 255,
                kpk <= 255,
        ;
        assert((i + 1) * kpk == i * kpk + kpk) by (nonlinear_arith);
        let start: usize = i as usize * kpk as usize;
        let end: usize = start + kpk as usize;
        let mut entry: Vec<u32> = Vec::new();
        let mut j: usize = start;
        while j < end
            invariant
                start <= j <= end <= syms@.len(),
                entry@ == syms@.subrange(start as int, j as int),
            decreases end - j,
        {
            entry.push(syms[j]);
            j = j + 1;
            assert(entry@ =~= syms@.subrange(start as int, j as int));
        }
        let ghost before = map@;
        map.insert(k, entry);
        i = i + 1;
        assert forall|q: u8| #[trigger] map@.contains_key(q) == (m0.contains_key(q) || key_index(q, first) < i) by {
            if q != k {
                assert(before.contains_key(q) == (m0.contains_key(q) || key_index(q, first) < i - 1));
            }
        }
        assert(keymap_changed(m0, map@, first, i as nat, kpk as nat, syms@)) by {
            assert forall|q: u8| #[trigger] map@.contains_key(q) implies {
                let x = key_index(q, first);
                &&& x < i ==> map@[q]@ == syms@.subrange(x * kpk, (x + 1) * kpk)
                &&& !(x < i) && m0.contains_key(q) ==> map@[q] == m0[q]
            } by {
                if q != k {
                    assert(before.contains_key(q));
                }
            }
            assert forall|q: u8| !(#[trigger] map@.contains_key(q)) implies {
                let x = key_index(q, first);
                &&& x < i ==> map@[q]@ == syms@.subrange(x * kpk, (x + 1) * kpk)
                &&& !(x < i) && m0.contains_key(q) ==> map@[q] == m0[q]
            } by {}
        }
    }
}

/// The error ChangeKeyboardMapping is answered with, if any: a short or
/// mis-addressed request, or one that does not hold its keysyms, is a
/// length error; zero keysyms per keycode is a value error.
pub open spec fn change_keyboard_mapping_error(d: Seq<u8>, seq: u16) -> Option<Seq<u8>> {
    if d.len() < 8 || d[0] != 100 || d.len() < 8 + 4 * keysym_count(d) {
        Some(error_packet(BAD_LENGTH, seq, 0, 100, 0, false))
    } else if d[5] == 0 {
        Some(error_packet(BAD_VALUE, seq, 0, 100, 0, false))
    } else {
        None
    }
}

/// What ChangeKeyboardMapping answers `req` with, and the client state it leaves.
pub open spec fn change_keyboard_mapping_done(pre: ClientState, post: ClientState, req: Seq<u8>, seq: u16, out: Seq<u8>) -> bool {
    &&& (match change_keyboard_mapping_error(req, seq) {
            Some(e) => out == e && post == pre,
            None => {
                let s = pre;
                let after = post;
                &&& out == Seq::<u8>::empty()
                &&& exists|msb: bool|
                    keymap_changed(s.input.custom_keymap@, after.input.custom_keymap@, req[4], req[1] as nat,
                        req[5] as nat, #[trigger] words32(req, 8, keysym_count(req), msb))
                &&& after.input == (InputState { custom_keymap: after.input.custom_keymap, ..s.input })
                &&& mapping_notified(s, after, mapping_notify(seq, 1, req[4], req[1], s.msb_first))
                &&& after == (ClientState {
                    input: after.input,
                    pending_events: after.pending_events,
                    global_events: after.global_events,
                    ..s
                })
            },
        })
}

/// ChangeKeyboardMapping (opcode 100): map the keycode-count keycodes from
/// byte 4's on to the request's keysyms, then tell every client with a
/// MappingNotify (Keyboard).
pub fn handle_change_keyboard_mapping(state: &mut ClientState, data: &[u8], seq: u16) -> (r: Vec<u8>)
    ensures
        change_keyboard_mapping_done(*old(state), *final(state), data@, seq, r@),
{
    if data.len() < 8 {
        return build_error(BAD_LENGTH, seq, 0, 100, 0);
    }
    match parse_change_keyboard_mapping(data) {
        Err(_) => build_error(BAD_LENGTH, seq, 0, 100, 0),
        Ok((count, first, kpk, syms)) => {
            if kpk == 0 {
                return build_error(BAD_VALUE, seq, 0, 100, 0);
            }
            let ghost msb = syms@ == words32(data@, 8, keysym_count(data@), true);
            store_keysyms(&mut state.input.custom_keymap, first, count, kpk, &syms);
            assert(syms@ == words32(data@, 8, keysym_count(data@), msb));
            notify_mapping(state, seq, 1, first, count);
            Vec::new()
        },
    }
}

/// A keymap changed by ChangeKeyboardMapping keeps each entry within 255
/// keysyms.
pub proof fn changed_keymap_entries_fit(
    before: Map<u8, Vec<u32>>,
    after: Map<u8, Vec<u32>>,
    first: u8,
    count: u8,
    kpk: u8,
    syms: Seq<u32>,
)
    requires
        entries_fit(before),
        syms.len() == count * kpk,
        keymap_changed(before, after, first, count as nat, kpk as nat, syms),
    ensures
        entries_fit(after),
{
    assert forall|k: u8| after.contains_key(k) implies #[trigger] after[k]@.len() <= 255 by {
        let i = key_index(k, first);
        if i < count {
            assert((i + 1) * kpk <= count * kpk) by (nonlinear_arith)
                requires
                    i + 1 <= count,
            ;
            assert((i + 1) * kpk == i * kpk + kpk) by (nonlinear_arith);
            assert(0 <= i * kpk) by (nonlinear_arith)
                requires
                    0 <= i,
            ;
        }
    }
}

// ---------------------------------------------------------------------------
// SetPointerMapping
// ---------------------------------------------------------------------------

/// Parse SetPointerMapping with
/// `x11rb_protocol::protocol::xproto::SetPointerMappingRequest::try_parse_request`.
/// Claimed: with at least 4 bytes it gives the map, the byte-1 count of
/// bytes from byte 4 on, exactly when the major opcode is 116 and the
/// request holds them.
#[verifier::external_body]
fn parse_set_pointer_mapping(data: &[u8]) -> (r: Result<Vec<u8>, ParseError>)
    requires
        data@.len() >= 4,
    ensures
        r matches Ok(m) ==> data@[0] == 116 && data@.len() >= 4 + data@[1] && m@ == data@.subrange(4, 4 + data@[1]),
        r is Err ==> data@[0] != 116 || data@.len() < 4 + data@[1],
{
    let header = RequestHeader { major_opcode: data[0], minor_opcode: data[1], remaining_length: 0 };
    SetPointerMappingRequest::try_parse_request(header, &data[4..]).map(|q| q.map.to_vec())
}

/// The reply of SetPointerMapping and SetModifierMapping: MappingSuccess.
pub open spec fn mapping_success(seq: u16, msb: bool) -> Seq<u8> {
    reply_packet(0, seq, zeros(24), msb)
}

/// Build the MappingSuccess reply.
fn build_mapping_success(seq: u16, msb: bool) -> (r: Vec<u8>)
    ensures
        r@ == mapping_success(seq, msb),
{
    let mut body: Vec<u8> = Vec::new();
    push_zeros(&mut body, 24);
    build_reply(0, seq, body.as_slice(), msb)
}

/// What SetPointerMapping answers `req` with, and the client state it leaves.
pub open spec fn set_pointer_mapping_done(pre: ClientState, post: ClientState, req: Seq<u8>, seq: u16, out: Seq<u8>) -> bool {
    &&& (req.len() < 4 || req[0] != 116 || req.len() < 4 + req[1] ==> out == error_packet(BAD_LENGTH, seq, 0,
            116, 0, false) && post == pre)
    &&& (req.len() >= 4 && req[0] == 116 && req.len() >= 4 + req[1] ==> {
            let s = pre;
            let after = post;
            let map = req.subrange(4, 4 + req[1]);
            let old_map = s.input.pointer_mapping@;
            &&& out == mapping_success(seq, s.msb_first)
            &&& if map.len() <= old_map.len() {
                &&& after.input.pointer_mapping@ == map + old_map.subrange(map.len() as int, old_map.len() as int)
                &&& after.input == (InputState { pointer_mapping: after.input.pointer_mapping, ..s.input })
                &&& mapping_notified(s, after, mapping_notify(seq, 2, 0, 0, s.msb_first))
                &&& after == (ClientState {
                    input: after.input,
                    pending_events: after.pending_events,
                    global_events: after.global_events,
                    ..s
                })
            } else {
                after == s
            }
        })
}

/// SetPointerMapping (opcode 116): a map no longer than the current one
/// replaces its first entries and every client is told (MappingNotify,
/// Pointer); a longer one changes nothing. Either way the reply is
/// MappingSuccess. A short or mis-addressed request is a length error.
pub fn handle_set_pointer_mapping(state: &mut ClientState, data: &[u8], seq: u16) -> (r: Vec<u8>)
    ensures
        set_pointer_mapping_done(*old(state), *final(state), data@, seq, r@),
{
    if data.len() < 4 {
        return build_error(BAD_LENGTH, seq, 0, 116, 0);
    }
    let map = match parse_set_pointer_mapping(data) {
        Ok(m) => m,
        Err(_) => {
            return build_error(BAD_LENGTH, seq, 0, 116, 0);
        },
    };
    let n = map.len();
    if n <= state.input.pointer_mapping.len() {
        let ghost s0 = *state;
        let ghost old_map = state.input.pointer_mapping@;
        let mut j: usize = 0;
        while j < n
            invariant
                j <= n == map@.len() <= old_map.len(),
                state.input.pointer_mapping@ == map@.subrange(0, j as int) + old_map.subrange(j as int, old_map.len() as int),
                *state == (ClientState {
                    input: InputState { pointer_mapping: state.input.pointer_mapping, ..s0.input },
                    ..s0
                }),
            decreases n - j,
        {
            state.input.pointer_mapping.set(j, map[j]);
            j = j + 1;
            assert(state.input.pointer_mapping@ =~= map@.subrange(0, j as int) + old_map.subrange(j as int, old_map.len() as int));
        }
        assert(map@.subrange(0, n as int) =~= map@);
        notify_mapping(state, seq, 2, 0, 0);
    }
    build_mapping_success(seq, state.msb_first)
}

// ---------------------------------------------------------------------------
// SetModifierMapping
// ---------------------------------------------------------------------------

/// Parse SetModifierMapping with
/// `x11rb_protocol::protocol::xproto::SetModifierMappingRequest::try_parse_request`.
/// Claimed: with at least 4 bytes it gives the keycodes, eight times the
/// byte-1 count of bytes from byte 4 on, exactly when the major opcode is
/// 118 and the request holds them.
#[verifier::external_body]
fn parse_set_modifier_mapping(data: &[u8]) -> (r: Result<Vec<u8>, ParseError>)
    requires
        data@.len() >= 4,
    ensures
        r matches Ok(k) ==> data@[0] == 118 && data@.len() >= 4 + 8 * data@[1] && k@ == data@.subrange(
            4,
            4 + 8 * data@[1],
        ),
        r is Err ==> data@[0] != 118 || data@.len() < 4 + 8 * data@[1],
{
    let header = RequestHeader { major_opcode: data[0], minor_opcode: data[1], remaining_length: 0 };
    SetModifierMappingRequest::try_parse_request(header, &data[4..]).map(|q| q.keycodes.to_vec())
}

/// A keycode other than 0 (0 marks an unused slot).
pub open spec fn is_keycode() -> spec_fn(u8) -> bool {
    |k: u8| k != 0
}

/// The keycodes of modifier `m` in a table of `kpm` keycodes per modifier,
/// without the unused slots.
pub open spec fn modifier_keycodes(table: Seq<u8>, kpm: nat, m: int) -> Seq<u8> {
    table.subrange(m * kpm, (m + 1) * kpm).filter(is_keycode())
}

/// What SetModifierMapping answers `req` with, and the client state it leaves.
pub open spec fn set_modifier_mapping_done(pre: ClientState, post: ClientState, req: Seq<u8>, seq: u16, out: Seq<u8>) -> bool {
    &&& (req.len() < 4 || req[0] != 118 || req.len() < 4 + 8 * req[1] ==> out == error_packet(BAD_LENGTH, seq, 0,
            118, 0, false) && post == pre)
    &&& (req.len() >= 4 && req[0] == 118 && req.len() >= 4 + 8 * req[1] ==> {
            let s = pre;
            let after = post;
            let kpm = req[1] as nat;
            let table = req.subrange(4, 4 + 8 * kpm as int);
            &&& out == mapping_success(seq, s.msb_first)
            &&& if kpm > 0 {
                &&& after.input.modifier_map@.len() == 8
                &&& forall|m: int| 0 <= m < 8 ==> #[trigger] after.input.modifier_map@[m]@ == modifier_keycodes(table, kpm, m)
                &&& after.input == (InputState { modifier_map: after.input.modifier_map, ..s.input })
                &&& mapping_notified(s, after, mapping_notify(s.sequence, 0, 0, 0, s.msb_first))
                &&& after == (ClientState {
                    input: after.input,
                    pending_events: after.pending_events,
                    global_events: after.global_events,
                    ..s
                })
            } else {
                after == s
            }
        })
}

/// SetModifierMapping (opcode 118): with at least one keycode per modifier,
/// the eight modifiers take the request's keycodes (unused slots dropped)
/// and every client is told (MappingNotify, Modifier); with none, nothing
/// changes. Either way the reply is MappingSuccess. A short or
/// mis-addressed request is a length error.
pub fn handle_set_modifier_mapping(state: &mut ClientState, data: &[u8], seq: u16) -> (r: Vec<u8>)
    ensures
        set_modifier_mapping_done(*old(state), *final(state), data@, seq, r@),
{
    if data.len() < 4 {
        return build_error(BAD_LENGTH, seq, 0, 118, 0);
    }
    let keycodes = match parse_set_modifier_mapping(data) {
        Ok(k) => k,
        Err(_) => {
            return build_error(BAD_LENGTH, seq, 0, 118, 0);
        },
    };
    let kpm: usize = data[1] as usize;
    if kpm > 0 {
        let ghost table = keycodes@;
        let mut map: Vec<Vec<u8>> = Vec::new();
        let mut m: usize = 0;
        while m < 8
            invariant
                m <= 8,
                kpm == data@[1],
                keycodes@ == table,
                table.len() == 8 * kpm,
                map@.len() == m,
                forall|x: int| 0 <= x < m ==> #[trigger] map@[x]@ == modifier_keycodes(table, kpm as nat, x),
            decreases 8 - m,
        {
            assert((m + 1) * kpm <= 8 * kpm) by (nonlinear_arith)
                requires
                    m + 1 <= 8,
            ;
            assert((m + 1) * kpm == m * kpm + kpm) by (nonlinear_arith);
            let start: usize = m * kpm;
            let end: usize = start + kpm;
            let ghost piece = table.subrange(start as int, end as int);
            let mut kept: Vec<u8> = Vec::new();
            let mut j: usize = start;
            while j < end
                invariant
                    start <= j <= end <= table.len(),
                    keycodes@ == table,
                    piece == table.subrange(start as int, end as int),
                    kept@ == piece.subrange(0, j - start).filter(is_keycode()),
                decreases end - j,
            {
                let k = keycodes[j];
                if k != 0 {
                    kept.push(k);
                }
                proof {
                    reveal(Seq::filter);
                    let s1 = piece.subrange(0, j + 1 - start);
                    assert(s1.drop_last() =~= piece.subrange(0, j - start));
                    assert(s1.last() == k);
                }
                j = j + 1;
            }
            assert(piece.subrange(0, end - start) =~= piece);
            map.push(kept);
            m = m + 1;
        }
        state.input.modifier_map = map;
        notify_mapping(state, state.sequence, 0, 0, 0);
    }
    build_mapping_success(seq, state.msb_first)
}

// ---------------------------------------------------------------------------
// Laws
// ---------------------------------------------------------------------------

/// After ChangeKeyboardMapping, GetKeyboardMapping reports each changed
/// keycode with the keysyms it was given, then NoSymbol.
pub proof fn changed_keysyms_read_back(
    before: Map<u8, Vec<u32>>,
    after: Map<u8, Vec<u32>>,
    first: u8,
    count: u8,
    kpk: u8,
    syms: Seq<u32>,
    k: u8,
)
    requires
        entries_fit(before),
        syms.len() == count * kpk,
        keymap_changed(before, after, first, count as nat, kpk as nat, syms),
        key_index(k, first) < count,
    ensures
        ({
            let i = key_index(k, first);
            let row = keysym_row(after, k, keysyms_per_keycode(after));
            &&& row.subrange(0, kpk as int) == syms.subrange(i * kpk, (i + 1) * kpk)
            &&& forall|j: int| kpk <= j < row.len() ==> row[j] == 0
        }),
{
    let i = key_index(k, first);
    changed_keymap_entries_fit(before, after, first, count, kpk, syms);
    lemma_longest_entry(after, 256);
    assert(after.contains_key(k));
    assert((i + 1) * kpk <= count * kpk) by (nonlinear_arith)
        requires
            i + 1 <= count,
    ;
    assert((i + 1) * kpk == i * kpk + kpk) by (nonlinear_arith);
    assert(0 <= i * kpk) by (nonlinear_arith)
        requires
            0 <= i,
    ;
    assert(after[k]@.len() == kpk);
    let row = keysym_row(after, k, keysyms_per_keycode(after));
    assert(row.subrange(0, kpk as int) =~= after[k]@);
}

/// After SetPointerMapping with a map no longer than the current one,
/// GetPointerMapping reports that map first.
pub proof fn pointer_mapping_reads_back(before: ClientState, after: ClientState, map: Seq<u8>, seq: u16)
    requires
        map.len() <= before.input.pointer_mapping@.len() <= 255,
        after.input.pointer_mapping@ == map + before.input.pointer_mapping@.subrange(
            map.len() as int,
            before.input.pointer_mapping@.len() as int,
        ),
    ensures
        crate::input::pointer_mapping_reply(after, seq).subrange(32, 32 + map.len() as int) == map,
        crate::input::pointer_mapping_reply(after, seq)[1] == before.input.pointer_mapping@.len(),
{
    let m = after.input.pointer_mapping@;
    assert(m.len() == before.input.pointer_mapping@.len());
    let r = crate::input::pointer_mapping_reply(after, seq);
    assert(r.subrange(32, 32 + map.len() as int) =~= map);
}

} // verus!
