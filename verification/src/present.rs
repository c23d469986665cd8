//! XC-MISC (resource-id ranges) and Present (buffer presentation)
//! extension requests.

use crate::cursor::top_level;
use crate::dri3::Fence;
use crate::region::RegionRect;
use crate::state::{ClientState, RESOURCE_ID_MASK, BAD_LENGTH, BAD_REQUEST};
use std::collections::HashMap;
use crate::grab::keys_distinct;
use crate::wire::{
    build_error_bo, build_reply, bytes16, bytes32, error_packet, field32, push_u16, push_u32,
    push_zeros, read_i16, read_u32, reply_packet, zeros, field16,
};
use vstd::prelude::*;

verus! {

/// The offset of the next free id in the client's range.
pub open spec fn xid_offset(s: ClientState) -> u32 {
    (if s.next_xid >= s.resource_id_base {
        s.next_xid - s.resource_id_base
    } else {
        s.next_xid - s.resource_id_base + 0x1_0000_0000
    }) as u32 & RESOURCE_ID_MASK
}

/// How many ids are left in the client's range from the next free one.
pub open spec fn xids_left(s: ClientState) -> nat {
    (RESOURCE_ID_MASK - xid_offset(s) + 1) as nat
}

/// The id `i` places after the next free one, wrapping inside the range.
pub open spec fn xid_at(s: ClientState, i: nat) -> u32 {
    s.resource_id_base | ((xid_offset(s) + i) as u32 & RESOURCE_ID_MASK)
}

/// The ids XC-MISC GetXIDRange hands out: all that are left, at most 65536.
pub open spec fn xid_range_size(s: ClientState) -> nat {
    if xids_left(s) < 65536 { xids_left(s) } else { 65536 }
}

/// The ids XC-MISC GetXIDList hands out for a request of `count`: at most
/// 4096, and no more than are left.
pub open spec fn xid_list_size(s: ClientState, count: u32) -> nat {
    let a: nat = if count < 4096 { count as nat } else { 4096 };
    if a < xids_left(s) { a } else { xids_left(s) }
}

/// The reply to an XC-MISC request (major opcode 141).
pub open spec fn xc_misc_reply(s: ClientState, d: Seq<u8>, seq: u16) -> Seq<u8> {
    let msb = s.msb_first;
    let minor = d[1];
    if minor == 0 {
        reply_packet(0, seq, bytes16(1, msb) + bytes16(1, msb) + zeros(20), msb)
    } else if minor == 1 {
        reply_packet(0, seq, bytes32(xid_at(s, 0), msb) + bytes32(xid_range_size(s) as u32, msb) + zeros(16), msb)
    } else if minor == 2 {
        let n = xid_list_size(s, if d.len() >= 8 { field32(d, 4, msb) } else { 0 });
        reply_packet(
            0,
            seq,
            bytes32(n as u32, msb) + zeros(20) + Seq::new(n, |i: int| bytes32(xid_at(s, i as nat), msb)).flatten(),
            msb,
        )
    } else {
        error_packet(BAD_REQUEST, seq, minor as u32, 141, minor as u16, msb)
    }
}

/// The next free id after an XC-MISC request.
pub open spec fn xc_misc_next_xid(s: ClientState, d: Seq<u8>) -> u32 {
    let minor = d[1];
    if minor == 1 {
        xid_at(s, xid_range_size(s))
    } else if minor == 2 {
        xid_at(s, xid_list_size(s, if d.len() >= 8 { field32(d, 4, s.msb_first) } else { 0 }))
    } else {
        s.next_xid
    }
}

/// XC-MISC (major opcode 141): GetVersion (0), GetXIDRange (1) and
/// GetXIDList (2), handing out ids from the client's range.
pub fn handle_xc_misc_request(state: &mut ClientState, data: &[u8], seq: u16) -> (r: Vec<u8>)
    requires
        data@.len() >= 2,
    ensures
        r@ == xc_misc_reply(*old(state), data@, seq),
        *final(state) == (ClientState { next_xid: xc_misc_next_xid(*old(state), data@), ..*old(state) }),
{
    let msb = state.msb_first;
    let minor = data[1];
    let mask: u32 = RESOURCE_ID_MASK;
    let diff = state.next_xid.wrapping_sub(state.resource_id_base);
    let offset = diff & mask;
    assert(offset == xid_offset(*state));
    assert(offset <= 0x003F_FFFFu32) by (bit_vector)
        requires
            offset == diff & 0x003F_FFFFu32,
    ;
    let left = mask - offset + 1;
    if minor == 0 {
        let mut body: Vec<u8> = Vec::new();
        push_u16(&mut body, 1, msb);
        push_u16(&mut body, 1, msb);
        push_zeros(&mut body, 20);
        assert(body@ =~= bytes16(1, msb) + bytes16(1, msb) + zeros(20));
        build_reply(0, seq, body.as_slice(), msb)
    } else if minor == 1 {
        let range = if left < 65536 { left } else { 65536 };
        let start = state.resource_id_base | (offset & mask);
        proof {
            assert(offset & 0x003F_FFFFu32 == (offset + 0) as u32 & 0x003F_FFFFu32);
        }
        state.next_xid = state.resource_id_base | ((offset + range) & mask);
        let mut body: Vec<u8> = Vec::new();
        push_u32(&mut body, start, msb);
        push_u32(&mut body, range, msb);
        push_zeros(&mut body, 16);
        assert(body@ =~= bytes32(start, msb) + bytes32(range, msb) + zeros(16));
        build_reply(0, seq, body.as_slice(), msb)
    } else if minor == 2 {
        let count = if data.len() >= 8 { read_u32(data, 4, msb) } else { 0 };
        let capped = if count < 4096 { count } else { 4096 };
        let n = if capped < left { capped } else { left };
        let ghost ids = Seq::new(n as nat, |i: int| bytes32(xid_at(*old(state), i as nat), msb));
        let mut body: Vec<u8> = Vec::new();
        push_u32(&mut body, n, msb);
        push_zeros(&mut body, 20);
        let ghost head = body@;
        let mut i: u32 = 0;
        while i < n
            invariant
                i <= n <= 4096,
                offset + n <= RESOURCE_ID_MASK + 1,
                offset == xid_offset(*old(state)),
                state.resource_id_base == old(state).resource_id_base,
                ids == Seq::new(n as nat, |i: int| bytes32(xid_at(*old(state), i as nat), msb)),
                body@ == head + ids.subrange(0, i as int).flatten(),
                body@.len() == 24 + 4 * i,
                head.len() == 24,
                mask == RESOURCE_ID_MASK,
            decreases n - i,
        {
            let id = state.resource_id_base | ((offset + i) & mask);
            assert(id == xid_at(*old(state), i as nat));
            assert(ids[i as int] == bytes32(id, msb));
            let ghost before = body@;
            push_u32(&mut body, id, msb);
            proof {
                assert(ids.subrange(0, i + 1) =~= ids.subrange(0, i as int).push(ids[i as int]));
                ids.subrange(0, i as int).lemma_flatten_push(ids[i as int]);
                assert(body@ =~= head + ids.subrange(0, i + 1).flatten());
            }
            i = i + 1;
        }
        assert(ids.subrange(0, n as int) =~= ids);
        state.next_xid = state.resource_id_base | ((offset + n) & mask);
        build_reply(0, seq, body.as_slice(), msb)
    } else {
        build_error_bo(BAD_REQUEST, seq, minor as u32, 141, minor as u16, msb)
    }
}

/// Every id XC-MISC hands out lies in the client's range.
pub proof fn handed_out_ids_stay_in_range(s: ClientState, i: nat)
    requires
        s.resource_id_base & RESOURCE_ID_MASK == 0,
    ensures
        xid_at(s, i) & !RESOURCE_ID_MASK == s.resource_id_base,
{
    let base = s.resource_id_base;
    let x: u32 = (xid_offset(s) + i) as u32;
    assert((base | (x & 0x003F_FFFFu32)) & !0x003F_FFFFu32 == base) by (bit_vector)
        requires
            base & 0x003F_FFFFu32 == 0,
    ;
}

/// A Present event selection: (event id, window, event mask).
pub type PresentSubscription = (u32, u32, u32);

/// The selections on `window` with event-mask bit `bit`.
pub open spec fn selects(window: u32, bit: u32) -> spec_fn(PresentSubscription) -> bool {
    |s: PresentSubscription| s.1 == window && s.2 & bit != 0
}

/// The event id of a selection.
pub open spec fn event_id_of() -> spec_fn(PresentSubscription) -> u32 {
    |s: PresentSubscription| s.0
}

/// The event ids of the selections on `window` with mask bit `bit`, in
/// selection order.
pub open spec fn selecting_ids(subs: Seq<PresentSubscription>, window: u32, bit: u32) -> Seq<u32> {
    subs.filter(selects(window, bit)).map_values(event_id_of())
}

/// Collect the event ids of the selections on `window` with mask bit `bit`.
fn collect_selecting_ids(subs: &Vec<PresentSubscription>, window: u32, bit: u32) -> (r: Vec<u32>)
    ensures
        r@ == selecting_ids(subs@, window, bit),
{
    let ghost p = selects(window, bit);
    let mut out: Vec<u32> = Vec::new();
    let mut i: usize = 0;
    while i < subs.len()
        invariant
            i <= subs@.len(),
            p == selects(window, bit),
            out@ == subs@.subrange(0, i as int).filter(p).map_values(event_id_of()),
        decreases subs@.len() - i,
    {
        let s = subs[i];
        let hit = s.1 == window && s.2 & bit != 0;
        if hit {
            out.push(s.0);
        }
        proof {
            reveal(Seq::filter);
            let s1 = subs@.subrange(0, i + 1);
            assert(s1.drop_last() =~= subs@.subrange(0, i as int));
            assert(s1.last() == s);
            assert(p(s) == hit);
            if hit {
                assert(out@ =~= s1.filter(p).map_values(event_id_of()));
            } else {
                assert(out@ =~= s1.filter(p).map_values(event_id_of()));
            }
        }
        i = i + 1;
    }
    assert(subs@.subrange(0, subs@.len() as int) =~= subs@);
    out
}

/// The low and high 32 bits of a 64-bit value.
pub open spec fn lo32(v: u64) -> u32 {
    (v % 0x1_0000_0000) as u32
}

/// The high 32 bits of a 64-bit value.
pub open spec fn hi32(v: u64) -> u32 {
    (v / 0x1_0000_0000) as u32
}

/// A 40-byte PresentCompleteNotify (GenericEvent 35 of extension 148,
/// event type 1) of the given kind (0 Pixmap, 1 MSC) and mode, with the
/// 64-bit UST and MSC.
pub open spec fn complete_notify(seq: u16, event_id: u32, window: u32, serial: u32, kind: u8, mode: u8, ust: u64, msc: u64, msb: bool) -> Seq<u8> {
    seq![35u8, 148u8] + bytes16(seq, msb) + bytes32(2, msb) + bytes16(1, msb) + seq![kind, mode]
        + bytes32(event_id, msb) + bytes32(window, msb) + bytes32(serial, msb) + bytes32(lo32(ust), msb)
        + bytes32(hi32(ust), msb) + bytes32(lo32(msc), msb) + bytes32(hi32(msc), msb)
}

/// Build a PresentCompleteNotify event.
fn build_complete_notify(seq: u16, event_id: u32, window: u32, serial: u32, kind: u8, mode: u8, ust: u64, msc: u64, msb: bool) -> (r: Vec<u8>)
    ensures
        r@ == complete_notify(seq, event_id, window, serial, kind, mode, ust, msc, msb),
{
    let mut ev: Vec<u8> = Vec::new();
    ev.push(35u8);
    ev.push(148u8);
    assert(ev@ =~= seq![35u8, 148u8]);
    push_u16(&mut ev, seq, msb);
    push_u32(&mut ev, 2, msb);
    push_u16(&mut ev, 1, msb);
    let ghost a = ev@;
    ev.push(kind);
    ev.push(mode);
    assert(ev@ =~= a + seq![kind, mode]);
    push_u32(&mut ev, event_id, msb);
    push_u32(&mut ev, window, msb);
    push_u32(&mut ev, serial, msb);
    push_u32(&mut ev, (ust % 0x1_0000_0000) as u32, msb);
    push_u32(&mut ev, (ust / 0x1_0000_0000) as u32, msb);
    push_u32(&mut ev, (msc % 0x1_0000_0000) as u32, msb);
    push_u32(&mut ev, (msc / 0x1_0000_0000) as u32, msb);
    ev
}

/// A 32-byte PresentIdleNotify (event type 2): the pixmap and its idle
/// fence are free again.
pub open spec fn idle_notify(seq: u16, event_id: u32, window: u32, serial: u32, pixmap: u32, idle_fence: u32, msb: bool) -> Seq<u8> {
    seq![35u8, 148u8] + bytes16(seq, msb) + zeros(4) + bytes16(2, msb) + zeros(2) + bytes32(event_id, msb)
        + bytes32(window, msb) + bytes32(serial, msb) + bytes32(pixmap, msb) + bytes32(idle_fence, msb)
}

/// Build a PresentIdleNotify event.
fn build_idle_notify(seq: u16, event_id: u32, window: u32, serial: u32, pixmap: u32, idle_fence: u32, msb: bool) -> (r: Vec<u8>)
    ensures
        r@ == idle_notify(seq, event_id, window, serial, pixmap, idle_fence, msb),
{
    let mut ev: Vec<u8> = Vec::new();
    ev.push(35u8);
    ev.push(148u8);
    assert(ev@ =~= seq![35u8, 148u8]);
    push_u16(&mut ev, seq, msb);
    push_zeros(&mut ev, 4);
    push_u16(&mut ev, 2, msb);
    push_zeros(&mut ev, 2);
    push_u32(&mut ev, event_id, msb);
    push_u32(&mut ev, window, msb);
    push_u32(&mut ev, serial, msb);
    push_u32(&mut ev, pixmap, msb);
    push_u32(&mut ev, idle_fence, msb);
    ev
}

/// `after` is `before` followed by events with the contents `evs`.
pub open spec fn events_appended(before: Seq<Vec<u8>>, after: Seq<Vec<u8>>, evs: Seq<Seq<u8>>) -> bool {
    &&& after.len() == before.len() + evs.len()
    &&& forall|i: int| 0 <= i < before.len() ==> #[trigger] after[i] == before[i]
    &&& forall|i: int| 0 <= i < evs.len() ==> #[trigger] after[before.len() + i]@ == evs[i]
}

/// Appending `e1` then `e2` appends `e1 + e2`.
proof fn lemma_events_appended_chain(a: Seq<Vec<u8>>, b: Seq<Vec<u8>>, c: Seq<Vec<u8>>, e1: Seq<Seq<u8>>, e2: Seq<Seq<u8>>)
    requires
        events_appended(a, b, e1),
        events_appended(b, c, e2),
    ensures
        events_appended(a, c, e1 + e2),
{
    let e = e1 + e2;
    assert forall|i: int| 0 <= i < e.len() implies #[trigger] c[a.len() + i]@ == e[i] by {
        if i < e1.len() {
            assert(c[a.len() + i] == b[a.len() + i]);
        } else {
            assert(c[b.len() + (i - e1.len())]@ == e2[i - e1.len()]);
        }
    }
}

/// The PresentCompleteNotify events for the selections `ids`.
pub open spec fn complete_notifies(ids: Seq<u32>, seq: u16, window: u32, serial: u32, kind: u8, mode: u8, ust: u64, msc: u64, msb: bool) -> Seq<Seq<u8>> {
    ids.map_values(|id: u32| complete_notify(seq, id, window, serial, kind, mode, ust, msc, msb))
}

/// Queue one PresentCompleteNotify per selection in `ids`.
fn queue_complete_notifies(events: &mut Vec<Vec<u8>>, ids: &Vec<u32>, seq: u16, window: u32, serial: u32, kind: u8, mode: u8, ust: u64, msc: u64, msb: bool)
    ensures
        events_appended(old(events)@, final(events)@, complete_notifies(ids@, seq, window, serial, kind, mode, ust, msc, msb)),
{
    let ghost evs = complete_notifies(ids@, seq, window, serial, kind, mode, ust, msc, msb);
    let ghost start = events@;
    let mut i: usize = 0;
    while i < ids.len()
        invariant
            i <= ids@.len(),
            evs == complete_notifies(ids@, seq, window, serial, kind, mode, ust, msc, msb),
            events_appended(start, events@, evs.subrange(0, i as int)),
            start == old(events)@,
        decreases ids@.len() - i,
    {
        let ev = build_complete_notify(seq, ids[i], window, serial, kind, mode, ust, msc, msb);
        events.push(ev);
        proof {
            let sub = evs.subrange(0, i + 1);
            assert forall|k: int| 0 <= k < sub.len() implies #[trigger] events@[start.len() + k]@ == sub[k] by {
                if k < i {
                    assert(sub[k] == evs.subrange(0, i as int)[k]);
                }
            }
        }
        i = i + 1;
    }
    assert(evs.subrange(0, ids@.len() as int) =~= evs);
}

/// The PresentIdleNotify events for the selections `ids`.
pub open spec fn idle_notifies(ids: Seq<u32>, seq: u16, window: u32, serial: u32, pixmap: u32, idle_fence: u32, msb: bool) -> Seq<Seq<u8>> {
    ids.map_values(|id: u32| idle_notify(seq, id, window, serial, pixmap, idle_fence, msb))
}

/// Queue one PresentIdleNotify per selection in `ids`.
fn queue_idle_notifies(events: &mut Vec<Vec<u8>>, ids: &Vec<u32>, seq: u16, window: u32, serial: u32, pixmap: u32, idle_fence: u32, msb: bool)
    ensures
        events_appended(old(events)@, final(events)@, idle_notifies(ids@, seq, window, serial, pixmap, idle_fence, msb)),
{
    let ghost evs = idle_notifies(ids@, seq, window, serial, pixmap, idle_fence, msb);
    let ghost start = events@;
    let mut i: usize = 0;
    while i < ids.len()
        invariant
            i <= ids@.len(),
            evs == idle_notifies(ids@, seq, window, serial, pixmap, idle_fence, msb),
            events_appended(start, events@, evs.subrange(0, i as int)),
            start == old(events)@,
        decreases ids@.len() - i,
    {
        let ev = build_idle_notify(seq, ids[i], window, serial, pixmap, idle_fence, msb);
        events.push(ev);
        proof {
            let sub = evs.subrange(0, i + 1);
            assert forall|k: int| 0 <= k < sub.len() implies #[trigger] events@[start.len() + k]@ == sub[k] by {
                if k < i {
                    assert(sub[k] == evs.subrange(0, i as int)[k]);
                }
            }
        }
        i = i + 1;
    }
    assert(evs.subrange(0, ids@.len() as int) =~= evs);
}

/// The selections other than the one with id `event_id`.
pub open spec fn other_ids(event_id: u32) -> spec_fn(PresentSubscription) -> bool {
    |s: PresentSubscription| s.0 != event_id
}

/// The selection with id `event_id` replaced by (`event_id`, `window`,
/// `mask`); any other selection kept.
pub open spec fn reselect(event_id: u32, window: u32, mask: u32) -> spec_fn(PresentSubscription) -> PresentSubscription {
    |s: PresentSubscription| if s.0 == event_id { (event_id, window, mask) } else { s }
}

/// The selections after SelectInput for `event_id`: a zero mask removes
/// the selection; otherwise the selection with that id is replaced, or a
/// new one added at the end.
pub open spec fn selected(subs: Seq<PresentSubscription>, event_id: u32, window: u32, mask: u32) -> Seq<PresentSubscription> {
    if mask == 0 {
        subs.filter(other_ids(event_id))
    } else if subs.map_values(event_id_of()).contains(event_id) {
        subs.map_values(reselect(event_id, window, mask))
    } else {
        subs.push((event_id, window, mask))
    }
}

/// Apply a SelectInput to the selection list.
fn select_input(subs: &mut Vec<PresentSubscription>, event_id: u32, window: u32, mask: u32)
    ensures
        final(subs)@ == selected(old(subs)@, event_id, window, mask),
{
    let ghost keep = other_ids(event_id);
    let ghost swap = reselect(event_id, window, mask);
    let mut out: Vec<PresentSubscription> = Vec::new();
    let mut found = false;
    let mut i: usize = 0;
    while i < subs.len()
        invariant
            i <= subs@.len(),
            keep == other_ids(event_id),
            swap == reselect(event_id, window, mask),
            found == subs@.subrange(0, i as int).map_values(event_id_of()).contains(event_id),
            mask == 0 ==> out@ == subs@.subrange(0, i as int).filter(keep),
            mask != 0 ==> out@ == subs@.subrange(0, i as int).map_values(swap),
        decreases subs@.len() - i,
    {
        let s = subs[i];
        let ghost before = subs@.subrange(0, i as int);
        let ghost s1 = subs@.subrange(0, i + 1);
        proof {
            assert(s1.drop_last() =~= before);
            assert(s1 =~= before.push(s));
            assert(s1.map_values(event_id_of()) =~= before.map_values(event_id_of()).push(s.0));
        }
        if s.0 == event_id {
            found = true;
            if mask != 0 {
                out.push((event_id, window, mask));
            }
        } else {
            out.push(s);
        }
        proof {
            reveal(Seq::filter);
            assert(s1.last() == s);
            if mask == 0 {
                assert(out@ =~= s1.filter(keep));
            } else {
                assert(out@ =~= s1.map_values(swap));
            }
            let ids0 = before.map_values(event_id_of());
            let ids1 = s1.map_values(event_id_of());
            if s.0 == event_id {
                assert(ids1[i as int] == event_id);
            } else {
                if ids1.contains(event_id) {
                    let k = choose|k: int| 0 <= k < ids1.len() && ids1[k] == event_id;
                    assert(ids0[k] == event_id);
                }
                if ids0.contains(event_id) {
                    let k = choose|k: int| 0 <= k < ids0.len() && ids0[k] == event_id;
                    assert(ids1[k] == event_id);
                }
            }
            assert(found == s1.map_values(event_id_of()).contains(event_id));
        }
        i = i + 1;
    }
    assert(subs@.subrange(0, subs@.len() as int) =~= subs@);
    if mask != 0 && !found {
        proof {
            assert forall|k: int| 0 <= k < subs@.len() implies swap(subs@[k]) == subs@[k] by {
                assert(subs@.map_values(event_id_of())[k] == subs@[k].0);
            }
            assert(subs@.map_values(swap) =~= subs@);
        }
        out.push((event_id, window, mask));
    }
    *subs = out;
}

/// The reply to a Present request (major opcode 148) other than
/// PresentPixmap.
pub open spec fn present_reply(s: ClientState, d: Seq<u8>, seq: u16) -> Seq<u8> {
    let msb = s.msb_first;
    let minor = d[1];
    if minor == 0 {
        reply_packet(0, seq, bytes32(1, msb) + bytes32(2, msb) + zeros(16), msb)
    } else if minor == 2 && d.len() < 40 || minor == 3 && d.len() < 16 {
        error_packet(BAD_LENGTH, seq, 0, 148, minor as u16, msb)
    } else if minor == 2 || minor == 3 {
        Seq::empty()
    } else if minor == 4 {
        reply_packet(0, seq, bytes32(1, msb) + zeros(20), msb)
    } else {
        error_packet(BAD_REQUEST, seq, minor as u32, 148, minor as u16, msb)
    }
}

/// A PresentPixmap request: the window, the pixmap presented in it, the
/// serial, the valid and update regions, the offset, the fences and the
/// options (bit 0 Async, bit 1 Copy).
pub struct PresentPixmap {
    pub window: u32,
    pub pixmap: u32,
    pub serial: u32,
    pub valid_area: u32,
    pub update_area: u32,
    pub x_off: i16,
    pub y_off: i16,
    pub wait_fence: u32,
    pub idle_fence: u32,
    pub options: u32,
}

/// The result of a Present request: a reply (possibly empty), or a
/// PresentPixmap whose pixels are to be copied into its window.
pub enum PresentOutcome {
    Reply(Vec<u8>),
    Pixmap(PresentPixmap),
}

/// The PresentPixmap request in `d`.
pub open spec fn present_pixmap_of(d: Seq<u8>, msb: bool) -> PresentPixmap {
    PresentPixmap {
        window: field32(d, 4, msb),
        pixmap: field32(d, 8, msb),
        serial: field32(d, 12, msb),
        valid_area: field32(d, 16, msb),
        update_area: field32(d, 20, msb),
        x_off: field16(d, 24, msb) as i16,
        y_off: field16(d, 26, msb) as i16,
        wait_fence: field32(d, 32, msb),
        idle_fence: field32(d, 36, msb),
        options: field32(d, 40, msb),
    }
}

/// The CompleteNotify mode of a presentation: Copy (0) with the Copy
/// option, else Flip (1).
pub open spec fn present_mode(options: u32) -> u8 {
    if options & 2 != 0 {
        0
    } else {
        1
    }
}

/// The events a PresentPixmap sends: a CompleteNotify (kind Pixmap, mode
/// as `present_mode` says) per selection of complete events on the
/// window, then, without the Copy option, an IdleNotify per selection of
/// idle events.
pub open spec fn present_pixmap_events(s: ClientState, p: PresentPixmap, seq: u16, ust: u64) -> Seq<Seq<u8>> {
    let subs = s.present_subscriptions@;
    let copy = p.options & 2 != 0;
    let msc = (s.present_msc + 1) as u64;
    complete_notifies(selecting_ids(subs, p.window, 1), seq, p.window, p.serial, 0, present_mode(p.options), ust, msc, s.msb_first)
        + (if copy { Seq::empty() } else {
            idle_notifies(selecting_ids(subs, p.window, 2), seq, p.window, p.serial, p.pixmap, p.idle_fence, s.msb_first)
        })
}

/// The fences after fence `id` is triggered: a known fence (other than
/// 0) becomes triggered; an unknown one is left alone.
pub open spec fn triggered_fences(fences: Map<u32, Fence>, id: u32) -> Map<u32, Fence> {
    if id != 0 && fences.contains_key(id) {
        fences.insert(id, Fence { triggered: true, ..fences[id] })
    } else {
        fences
    }
}

/// Trigger a fence, if it is known.
fn trigger_fence(fences: &mut HashMap<u32, Fence>, id: u32)
    ensures
        final(fences)@ == triggered_fences(old(fences)@, id),
{
    if id != 0 {
        match fences.get(&id) {
            Some(f) => {
                let t = Fence { triggered: true, ..*f };
                fences.insert(id, t);
            },
            None => {},
        }
    }
}

/// The client state after a PresentPixmap: one more presentation counted,
/// the known wait and idle fences triggered, and the notify events queued.
pub open spec fn presented(s: ClientState, after: ClientState, p: PresentPixmap, seq: u16, ust: u64) -> bool {
    &&& after.fences@ == triggered_fences(triggered_fences(s.fences@, p.wait_fence), p.idle_fence)
    &&& events_appended(s.pending_events@, after.pending_events@, present_pixmap_events(s, p, seq, ust))
    &&& after == (ClientState {
        present_msc: (s.present_msc + 1) as u64,
        fences: after.fences,
        pending_events: after.pending_events,
        ..s
    })
}

/// PresentPixmap: trigger the fences, count the presentation and queue
/// the notify events.
fn present_pixmap(state: &mut ClientState, data: &[u8], seq: u16, ust: u64) -> (r: PresentPixmap)
    requires
        data@.len() >= 72,
        old(state).present_msc < u64::MAX,
    ensures
        r == present_pixmap_of(data@, old(state).msb_first),
        presented(*old(state), *final(state), r, seq, ust),
{
    let msb = state.msb_first;
    let p = PresentPixmap {
        window: read_u32(data, 4, msb),
        pixmap: read_u32(data, 8, msb),
        serial: read_u32(data, 12, msb),
        valid_area: read_u32(data, 16, msb),
        update_area: read_u32(data, 20, msb),
        x_off: read_i16(data, 24, msb),
        y_off: read_i16(data, 26, msb),
        wait_fence: read_u32(data, 32, msb),
        idle_fence: read_u32(data, 36, msb),
        options: read_u32(data, 40, msb),
    };
    let ghost s0 = *state;
    let copy = p.options & 2 != 0;
    let mode: u8 = if copy { 0 } else { 1 };
    trigger_fence(&mut state.fences, p.wait_fence);
    trigger_fence(&mut state.fences, p.idle_fence);
    state.present_msc = state.present_msc + 1;
    let msc = state.present_msc;
    let complete = collect_selecting_ids(&state.present_subscriptions, p.window, 1);
    queue_complete_notifies(&mut state.pending_events, &complete, seq, p.window, p.serial, 0, mode, ust, msc, msb);
    let ghost first = state.pending_events@;
    let ghost complete_evs = complete_notifies(complete@, seq, p.window, p.serial, 0, mode, ust, msc, msb);
    if !copy {
        let idle = collect_selecting_ids(&state.present_subscriptions, p.window, 2);
        queue_idle_notifies(&mut state.pending_events, &idle, seq, p.window, p.serial, p.pixmap, p.idle_fence, msb);
        proof {
            lemma_events_appended_chain(s0.pending_events@, first, state.pending_events@, complete_evs,
                idle_notifies(idle@, seq, p.window, p.serial, p.pixmap, p.idle_fence, msb));
        }
    } else {
        assert(complete_evs + Seq::<Seq<u8>>::empty() =~= complete_evs);
    }
    p
}

/// Present (major opcode 148): QueryVersion (0), PresentPixmap (1),
/// NotifyMSC (2), SelectInput (3), QueryCapabilities (4). The time `ust`
/// (microseconds since the server started) comes from outside the library;
/// the pixels of an accepted PresentPixmap are copied as
/// `plan_present_copies` plans, from a source the caller reads.
#[verifier::rlimit(40)]
pub fn handle_present_request(state: &mut ClientState, data: &[u8], seq: u16, ust: u64) -> (r: PresentOutcome)
    requires
        data@.len() >= 2,
        old(state).present_msc < u64::MAX,
    ensures
        ({
            let s = *old(state);
            let d = data@;
            let msb = s.msb_first;
            if d[1] == 1 && d.len() >= 72 {
                let p = present_pixmap_of(d, msb);
                &&& r matches PresentOutcome::Pixmap(q) && q == p
                &&& presented(s, *final(state), p, seq, ust)
            } else if d[1] == 1 {
                &&& r matches PresentOutcome::Reply(e) && e@ == error_packet(BAD_LENGTH, seq, 0, 148, 1, msb)
                &&& *final(state) == s
            } else {
                &&& r matches PresentOutcome::Reply(e) && e@ == present_reply(s, d, seq)
                &&& if d[1] == 2 && d.len() >= 40 {
                    let w = field32(d, 4, msb);
                    &&& events_appended(s.pending_events@, final(state).pending_events@, complete_notifies(
                        selecting_ids(s.present_subscriptions@, w, 1), seq, w, field32(d, 8, msb), 1, 0, ust, s.present_msc, msb))
                    &&& *final(state) == (ClientState { pending_events: final(state).pending_events, ..s })
                } else if d[1] == 3 && d.len() >= 16 {
                    &&& final(state).present_subscriptions@ == selected(s.present_subscriptions@, field32(d, 4, msb),
                        field32(d, 8, msb), field32(d, 12, msb))
                    &&& *final(state) == (ClientState { present_subscriptions: final(state).present_subscriptions, ..s })
                } else {
                    *final(state) == s
                }
            }
        }),
{
    let msb = state.msb_first;
    let minor = data[1];
    if minor == 0 {
        let mut body: Vec<u8> = Vec::new();
        push_u32(&mut body, 1, msb);
        push_u32(&mut body, 2, msb);
        push_zeros(&mut body, 16);
        assert(body@ =~= bytes32(1, msb) + bytes32(2, msb) + zeros(16));
        PresentOutcome::Reply(build_reply(0, seq, body.as_slice(), msb))
    } else if minor == 1 {
        if data.len() < 72 {
            return PresentOutcome::Reply(build_error_bo(BAD_LENGTH, seq, 0, 148, 1, msb));
        }
        let p = present_pixmap(state, data, seq, ust);
        PresentOutcome::Pixmap(p)
    } else if minor == 2 {
        if data.len() < 40 {
            return PresentOutcome::Reply(build_error_bo(BAD_LENGTH, seq, 0, 148, 2, msb));
        }
        let window = read_u32(data, 4, msb);
        let serial = read_u32(data, 8, msb);
        let ids = collect_selecting_ids(&state.present_subscriptions, window, 1);
        let msc = state.present_msc;
        queue_complete_notifies(&mut state.pending_events, &ids, seq, window, serial, 1, 0, ust, msc, msb);
        PresentOutcome::Reply(Vec::new())
    } else if minor == 3 {
        if data.len() < 16 {
            return PresentOutcome::Reply(build_error_bo(BAD_LENGTH, seq, 0, 148, 3, msb));
        }
        let event_id = read_u32(data, 4, msb);
        let window = read_u32(data, 8, msb);
        let event_mask = read_u32(data, 12, msb);
        select_input(&mut state.present_subscriptions, event_id, window, event_mask);
        PresentOutcome::Reply(Vec::new())
    } else if minor == 4 {
        let mut body: Vec<u8> = Vec::new();
        push_u32(&mut body, 1, msb);
        push_zeros(&mut body, 20);
        assert(body@ =~= bytes32(1, msb) + zeros(20));
        PresentOutcome::Reply(build_reply(0, seq, body.as_slice(), msb))
    } else {
        PresentOutcome::Reply(build_error_bo(BAD_REQUEST, seq, minor as u32, 148, minor as u16, msb))
    }
}

/// A 48-byte PresentConfigNotify (event type 3): the window's new
/// geometry, offset, and pixmap size and flags.
pub open spec fn config_notify(seq: u16, event_id: u32, window: u32, x: i16, y: i16, width: u16, height: u16, off_x: i16, off_y: i16, pixmap_width: u16, pixmap_height: u16, pixmap_flags: u32, msb: bool) -> Seq<u8> {
    seq![35u8, 148u8] + bytes16(seq, msb) + bytes32(4, msb) + bytes16(3, msb) + zeros(2) + bytes32(event_id, msb)
        + bytes32(window, msb) + bytes16(x as u16, msb) + bytes16(y as u16, msb) + bytes16(width, msb)
        + bytes16(height, msb) + bytes16(off_x as u16, msb) + bytes16(off_y as u16, msb)
        + bytes16(pixmap_width, msb) + bytes16(pixmap_height, msb) + bytes32(pixmap_flags, msb) + zeros(8)
}

/// Send a PresentConfigNotify to every selection of configure events on a
/// window that was reconfigured.
pub fn send_present_config_notify(
    state: &mut ClientState,
    window: u32,
    x: i16,
    y: i16,
    width: u16,
    height: u16,
    off_x: i16,
    off_y: i16,
    pixmap_width: u16,
    pixmap_height: u16,
    pixmap_flags: u32,
)
    ensures
        events_appended(old(state).pending_events@, final(state).pending_events@,
            selecting_ids(old(state).present_subscriptions@, window, 4).map_values(|id: u32| config_notify(
                old(state).sequence, id, window, x, y, width, height, off_x, off_y, pixmap_width, pixmap_height,
                pixmap_flags, old(state).msb_first))),
        *final(state) == (ClientState { pending_events: final(state).pending_events, ..*old(state) }),
{
    let msb = state.msb_first;
    let seq = state.sequence;
    let ids = collect_selecting_ids(&state.present_subscriptions, window, 4);
    let ghost evs = ids@.map_values(|id: u32| config_notify(seq, id, window, x, y, width, height, off_x, off_y,
        pixmap_width, pixmap_height, pixmap_flags, msb));
    let ghost start = state.pending_events@;
    let mut i: usize = 0;
    while i < ids.len()
        invariant
            i <= ids@.len(),
            evs == ids@.map_values(|id: u32| config_notify(seq, id, window, x, y, width, height, off_x, off_y,
                pixmap_width, pixmap_height, pixmap_flags, msb)),
            events_appended(start, state.pending_events@, evs.subrange(0, i as int)),
            start == old(state).pending_events@,
            msb == state.msb_first,
            seq == state.sequence,
            *state == (ClientState { pending_events: state.pending_events, ..*old(state) }),
        decreases ids@.len() - i,
    {
        let mut ev: Vec<u8> = Vec::new();
        ev.push(35u8);
        ev.push(148u8);
        assert(ev@ =~= seq![35u8, 148u8]);
        push_u16(&mut ev, seq, msb);
        push_u32(&mut ev, 4, msb);
        push_u16(&mut ev, 3, msb);
        push_zeros(&mut ev, 2);
        push_u32(&mut ev, ids[i], msb);
        push_u32(&mut ev, window, msb);
        push_u16(&mut ev, x as u16, msb);
        push_u16(&mut ev, y as u16, msb);
        push_u16(&mut ev, width, msb);
        push_u16(&mut ev, height, msb);
        push_u16(&mut ev, off_x as u16, msb);
        push_u16(&mut ev, off_y as u16, msb);
        push_u16(&mut ev, pixmap_width, msb);
        push_u16(&mut ev, pixmap_height, msb);
        push_u32(&mut ev, pixmap_flags, msb);
        push_zeros(&mut ev, 8);
        state.pending_events.push(ev);
        proof {
            let sub = evs.subrange(0, i + 1);
            assert forall|k: int| 0 <= k < sub.len() implies #[trigger] state.pending_events@[start.len() + k]@ == sub[k] by {
                if k < i {
                    assert(sub[k] == evs.subrange(0, i as int)[k]);
                }
            }
        }
        i = i + 1;
    }
    assert(evs.subrange(0, ids@.len() as int) =~= evs);
}

/// SelectInput keeps at most one selection per event id.
pub proof fn select_input_keeps_ids_distinct(subs: Seq<PresentSubscription>, event_id: u32, window: u32, mask: u32)
    requires
        keys_distinct(subs, event_id_of()),
    ensures
        keys_distinct(selected(subs, event_id, window, mask), event_id_of()),
{
    let out = selected(subs, event_id, window, mask);
    if mask == 0 {
        crate::grab::lemma_filter_keys_distinct(subs, other_ids(event_id), event_id_of());
    } else if subs.map_values(event_id_of()).contains(event_id) {
        assert forall|i: int, j: int| 0 <= i < j < out.len() implies event_id_of()(#[trigger] out[i]) != event_id_of()(#[trigger] out[j]) by {
            assert(event_id_of()(subs[i]) != event_id_of()(subs[j]));
        }
    } else {
        assert forall|i: int, j: int| 0 <= i < j < out.len() implies event_id_of()(#[trigger] out[i]) != event_id_of()(#[trigger] out[j]) by {
            if j == subs.len() {
                assert(subs.map_values(event_id_of())[i] == subs[i].0);
            } else {
                assert(event_id_of()(subs[i]) != event_id_of()(subs[j]));
            }
        }
    }
}

/// After SelectInput with a non-zero mask, the event id selects exactly
/// the given window and mask; with a zero mask it selects nothing.
pub proof fn select_input_then_lookup(subs: Seq<PresentSubscription>, event_id: u32, window: u32, mask: u32)
    requires
        keys_distinct(subs, event_id_of()),
    ensures
        mask != 0 ==> selected(subs, event_id, window, mask).contains((event_id, window, mask)),
        forall|i: int| 0 <= i < selected(subs, event_id, window, mask).len()
            && #[trigger] selected(subs, event_id, window, mask)[i].0 == event_id
            ==> mask != 0 && selected(subs, event_id, window, mask)[i] == (event_id, window, mask),
{
    let out = selected(subs, event_id, window, mask);
    if mask == 0 {
        assert forall|i: int| 0 <= i < out.len() implies #[trigger] out[i].0 != event_id by {
            subs.lemma_filter_pred(other_ids(event_id), i);
        }
    } else if subs.map_values(event_id_of()).contains(event_id) {
        let k = choose|k: int| 0 <= k < subs.len() && subs.map_values(event_id_of())[k] == event_id;
        assert(out[k] == (event_id, window, mask));
    } else {
        assert(out[subs.len() as int] == (event_id, window, mask));
        assert forall|i: int| 0 <= i < subs.len() implies #[trigger] out[i].0 != event_id by {
            assert(subs.map_values(event_id_of())[i] == subs[i].0);
        }
    }
}


/// A rectangle of the presented pixmap to copy (source position and size)
/// and where it lands in the window, and in its top-level window.
#[derive(Clone, Copy)]
pub struct PresentCopy {
    pub src_x: i16,
    pub src_y: i16,
    pub width: u16,
    pub height: u16,
    pub dst_x: i16,
    pub dst_y: i16,
    pub top_x: i16,
    pub top_y: i16,
}

/// The copies a PresentPixmap makes, and the top-level window that gets
/// them too (the window itself when it is top-level).
pub struct PresentCopies {
    pub copies: Vec<PresentCopy>,
    pub top_level: u32,
}

/// The region that limits a PresentPixmap: its update area, else its valid
/// area (0: none).
pub open spec fn present_region_id(p: PresentPixmap) -> u32 {
    if p.update_area != 0 {
        p.update_area
    } else {
        p.valid_area
    }
}

/// A rectangle with pixels in it.
pub open spec fn nonempty_rect() -> spec_fn(RegionRect) -> bool {
    |r: RegionRect| r.width > 0 && r.height > 0
}

/// The rectangles of the limiting region that have pixels, when the region
/// exists and has some.
pub open spec fn present_region_rects(s: ClientState, p: PresentPixmap) -> Option<Seq<RegionRect>> {
    let id = present_region_id(p);
    if id != 0 && s.xfixes_regions@.contains_key(id) {
        let v = s.xfixes_regions@[id].rects@.filter(nonempty_rect());
        if v.len() > 0 {
            Some(v)
        } else {
            None
        }
    } else {
        None
    }
}

/// A region rectangle cut to the source: its origin raised to 0, its size
/// cut to what the source has from there on (source `w` by `h`).
pub open spec fn clamp_to_source(r: RegionRect, w: u16, h: u16) -> (i16, i16, u16, u16) {
    let cx: i16 = if r.x > 0 { r.x } else { 0 };
    let cy: i16 = if r.y > 0 { r.y } else { 0 };
    let room_w: u16 = if w > cx as u16 { (w - cx as u16) as u16 } else { 0 };
    let room_h: u16 = if h > cy as u16 { (h - cy as u16) as u16 } else { 0 };
    (cx, cy, if r.width < room_w { r.width } else { room_w }, if r.height < room_h { r.height } else { room_h })
}

/// A source rectangle with pixels in it.
pub open spec fn nonempty_area() -> spec_fn((i16, i16, u16, u16)) -> bool {
    |c: (i16, i16, u16, u16)| c.2 > 0 && c.3 > 0
}

/// The source rectangles copied: each rectangle of a region of several,
/// cut to the source, those left empty dropped; the one rectangle of a
/// region of one, cut to the source; the whole source without a region.
pub open spec fn present_source_rects(s: ClientState, p: PresentPixmap, w: u16, h: u16) -> Seq<(i16, i16, u16, u16)> {
    match present_region_rects(s, p) {
        Some(v) => if v.len() > 1 {
            v.map_values(|r: RegionRect| clamp_to_source(r, w, h)).filter(nonempty_area())
        } else {
            seq![clamp_to_source(v[0], w, h)]
        },
        None => seq![(0i16, 0i16, w, h)],
    }
}

/// The offset of window `w` in the top-level window that `top_level`
/// climbs to in at most `steps` parents: the sum of the positions of the
/// windows climbed from.
pub open spec fn offset_in_top_level(s: ClientState, w: u32, steps: nat) -> (int, int)
    decreases steps,
{
    if steps == 0 {
        (0, 0)
    } else if s.windows@.contains_key(w) && s.windows@[w].parent != s.root_window && s.windows@[w].parent != 0 {
        let up = offset_in_top_level(s, s.windows@[w].parent, (steps - 1) as nat);
        (up.0 + s.windows@[w].x, up.1 + s.windows@[w].y)
    } else {
        (0, 0)
    }
}

/// The copy of source rectangle `c`: it lands at the PresentPixmap offset
/// plus its position, and in the top-level window that far beyond the
/// window's offset there (16-bit wrap-around).
pub open spec fn present_copy_of(s: ClientState, p: PresentPixmap, c: (i16, i16, u16, u16)) -> PresentCopy {
    let dst_x = p.x_off.wrapping_add(c.0);
    let dst_y = p.y_off.wrapping_add(c.1);
    let off = offset_in_top_level(s, p.window, 10);
    PresentCopy {
        src_x: c.0,
        src_y: c.1,
        width: c.2,
        height: c.3,
        dst_x,
        dst_y,
        top_x: (dst_x + off.0) as i16,
        top_y: (dst_y + off.1) as i16,
    }
}

/// The far edges of a copy: its destination plus its size (16-bit
/// wrap-around).
pub open spec fn copy_right(c: PresentCopy) -> i16 {
    c.dst_x.wrapping_add(c.width as i16)
}

/// The bottom edge of a copy (see `copy_right`).
pub open spec fn copy_bottom(c: PresentCopy) -> i16 {
    c.dst_y.wrapping_add(c.height as i16)
}

/// The damage bounds (least x, least y, greatest right, greatest bottom)
/// of the copies.
pub open spec fn copies_bounds(cs: Seq<PresentCopy>) -> (i16, i16, i16, i16)
    decreases cs.len(),
{
    if cs.len() == 0 {
        (i16::MAX, i16::MAX, i16::MIN, i16::MIN)
    } else {
        let b = copies_bounds(cs.drop_last());
        let c = cs.last();
        (
            if c.dst_x < b.0 { c.dst_x } else { b.0 },
            if c.dst_y < b.1 { c.dst_y } else { b.1 },
            if copy_right(c) > b.2 { copy_right(c) } else { b.2 },
            if copy_bottom(c) > b.3 { copy_bottom(c) } else { b.3 },
        )
    }
}

/// The damage a PresentPixmap reports on its window: the bounding box of
/// its copies, when it is not empty.
pub open spec fn present_damage(window: u32, cs: Seq<PresentCopy>) -> Seq<(u32, i16, i16, u16, u16)> {
    let b = copies_bounds(cs);
    if b.0 < b.2 && b.1 < b.3 {
        seq![(window, b.0, b.1, (b.2 - b.0) as u16, (b.3 - b.1) as u16)]
    } else {
        Seq::empty()
    }
}

/// A region rectangle cut to the source.
fn clamp_rect(r: RegionRect, w: u16, h: u16) -> (c: (i16, i16, u16, u16))
    ensures
        c == clamp_to_source(r, w, h),
{
    let cx: i16 = if r.x > 0 { r.x } else { 0 };
    let cy: i16 = if r.y > 0 { r.y } else { 0 };
    let room_w: u16 = if w > cx as u16 { w - cx as u16 } else { 0 };
    let room_h: u16 = if h > cy as u16 { h - cy as u16 } else { 0 };
    (cx, cy, if r.width < room_w { r.width } else { room_w }, if r.height < room_h { r.height } else { room_h })
}

/// The rectangles of the region limiting `p` that have pixels, empty when
/// there is none.
fn region_rects_of(state: &ClientState, p: &PresentPixmap) -> (r: Vec<RegionRect>)
    ensures
        match present_region_rects(*state, *p) {
            Some(v) => r@ == v,
            None => r@.len() == 0,
        },
{
    let id = if p.update_area != 0 { p.update_area } else { p.valid_area };
    let mut out: Vec<RegionRect> = Vec::new();
    if id == 0 {
        return out;
    }
    let region = match state.xfixes_regions.get(&id) {
        Some(region) => region,
        None => {
            return out;
        },
    };
    let mut i: usize = 0;
    while i < region.rects.len()
        invariant
            i <= region.rects@.len(),
            out@ == region.rects@.subrange(0, i as int).filter(nonempty_rect()),
        decreases region.rects@.len() - i,
    {
        let r = region.rects[i];
        proof {
            reveal(Seq::filter);
            assert(region.rects@.subrange(0, i + 1).drop_last() =~= region.rects@.subrange(0, i as int));
            assert(region.rects@.subrange(0, i + 1).last() == r);
        }
        if r.width > 0 && r.height > 0 {
            out.push(r);
        }
        i = i + 1;
    }
    proof {
        assert(region.rects@.subrange(0, region.rects@.len() as int) =~= region.rects@);
    }
    out
}

/// The source rectangles a PresentPixmap copies.
fn source_rects_of(state: &ClientState, p: &PresentPixmap, w: u16, h: u16) -> (r: Vec<(i16, i16, u16, u16)>)
    ensures
        r@ == present_source_rects(*state, *p, w, h),
{
    let rects = region_rects_of(state, p);
    let mut out: Vec<(i16, i16, u16, u16)> = Vec::new();
    if rects.len() == 0 {
        out.push((0i16, 0i16, w, h));
        assert(out@ =~= seq![(0i16, 0i16, w, h)]);
        return out;
    }
    if rects.len() == 1 {
        out.push(clamp_rect(rects[0], w, h));
        assert(out@ =~= seq![clamp_to_source(rects@[0], w, h)]);
        return out;
    }
    let ghost clamped = rects@.map_values(|r: RegionRect| clamp_to_source(r, w, h));
    let mut i: usize = 0;
    while i < rects.len()
        invariant
            i <= rects@.len(),
            clamped == rects@.map_values(|r: RegionRect| clamp_to_source(r, w, h)),
            out@ == clamped.subrange(0, i as int).filter(nonempty_area()),
        decreases rects@.len() - i,
    {
        let c = clamp_rect(rects[i], w, h);
        proof {
            reveal(Seq::filter);
            assert(clamped.subrange(0, i + 1).drop_last() =~= clamped.subrange(0, i as int));
            assert(clamped.subrange(0, i + 1).last() == c);
        }
        if c.2 > 0 && c.3 > 0 {
            out.push(c);
        }
        i = i + 1;
    }
    proof {
        assert(clamped.subrange(0, clamped.len() as int) =~= clamped);
    }
    out
}

/// The top-level window above `w` and the offset of `w` in it.
fn top_level_offset(state: &ClientState, w: u32) -> (r: (u32, i32, i32))
    ensures
        r.0 == top_level(*state, w, 10),
        r.1 as int == offset_in_top_level(*state, w, 10).0,
        r.2 as int == offset_in_top_level(*state, w, 10).1,
        -327680 <= r.1 <= 327670,
        -327680 <= r.2 <= 327670,
{
    let ghost s = *state;
    let mut target = w;
    let mut tx: i32 = 0;
    let mut ty: i32 = 0;
    let mut i: u32 = 0;
    let mut done = false;
    while i < 10 && !done
        invariant
            i <= 10,
            top_level(s, target, (10 - i) as nat) == top_level(s, w, 10),
            tx + offset_in_top_level(s, target, (10 - i) as nat).0 == offset_in_top_level(s, w, 10).0,
            ty + offset_in_top_level(s, target, (10 - i) as nat).1 == offset_in_top_level(s, w, 10).1,
            done ==> top_level(s, target, (10 - i) as nat) == target,
            done ==> offset_in_top_level(s, target, (10 - i) as nat) == (0int, 0int),
            -32768 * i <= tx <= 32767 * i,
            -32768 * i <= ty <= 32767 * i,
            *state == s,
        decreases 10 - i + (if done { 0int } else { 1int }),
    {
        match state.windows.get(&target) {
            Some(win) => {
                if win.parent != state.root_window && win.parent != 0 {
                    tx = tx + win.x as i32;
                    ty = ty + win.y as i32;
                    target = win.parent;
                    i = i + 1;
                } else {
                    done = true;
                }
            },
            None => {
                done = true;
            },
        }
    }
    (target, tx, ty)
}

/// Plan the copies of a PresentPixmap whose source is `src_w` by `src_h`
/// pixels: the rectangles of its update area (else its valid area) cut to
/// the source, or the whole source; each lands at the request's offset in
/// the window and, shifted by the window's offset there, in its top-level
/// window. The bounding box of the copies is reported as damage on the
/// window. The caller copies the pixels.
pub fn plan_present_copies(state: &mut ClientState, p: &PresentPixmap, src_w: u16, src_h: u16) -> (r: PresentCopies)
    ensures
        r.top_level == top_level(*old(state), p.window, 10),
        r.copies@ == present_source_rects(*old(state), *p, src_w, src_h).map_values(
            |c: (i16, i16, u16, u16)| present_copy_of(*old(state), *p, c),
        ),
        forall|i: int| 0 <= i < r.copies@.len() ==> #[trigger] r.copies@[i].src_x >= 0 && r.copies@[i].src_y >= 0,
        final(state).damage_reports@ == old(state).damage_reports@ + present_damage(p.window, r.copies@),
        *final(state) == (ClientState { damage_reports: final(state).damage_reports, ..*old(state) }),
{
    let ghost s = *state;
    let src = source_rects_of(state, p, src_w, src_h);
    proof {
        lemma_source_rects_nonnegative(s, *p, src_w, src_h);
    }
    let (target, tx, ty) = top_level_offset(state, p.window);
    let ghost want = src@.map_values(|c: (i16, i16, u16, u16)| present_copy_of(s, *p, c));
    let mut copies: Vec<PresentCopy> = Vec::new();
    let mut min_x: i16 = i16::MAX;
    let mut min_y: i16 = i16::MAX;
    let mut max_x: i16 = i16::MIN;
    let mut max_y: i16 = i16::MIN;
    let mut i: usize = 0;
    while i < src.len()
        invariant
            i <= src@.len(),
            want == src@.map_values(|c: (i16, i16, u16, u16)| present_copy_of(s, *p, c)),
            tx as int == offset_in_top_level(s, p.window, 10).0,
            ty as int == offset_in_top_level(s, p.window, 10).1,
            -327680 <= tx <= 327670,
            -327680 <= ty <= 327670,
            copies@ == want.subrange(0, i as int),
            (min_x, min_y, max_x, max_y) == copies_bounds(copies@),
        decreases src@.len() - i,
    {
        let c = src[i];
        let dst_x = p.x_off.wrapping_add(c.0);
        let dst_y = p.y_off.wrapping_add(c.1);
        let top_x = (dst_x as i32 + tx) as i16;
        let top_y = (dst_y as i32 + ty) as i16;
        let copy = PresentCopy { src_x: c.0, src_y: c.1, width: c.2, height: c.3, dst_x, dst_y, top_x, top_y };
        assert(copy == present_copy_of(s, *p, c));
        let right = dst_x.wrapping_add(c.2 as i16);
        let bottom = dst_y.wrapping_add(c.3 as i16);
        let ghost before = copies@;
        copies.push(copy);
        proof {
            assert(copies@.drop_last() =~= before);
            assert(copies@ =~= want.subrange(0, i + 1));
        }
        if dst_x < min_x {
            min_x = dst_x;
        }
        if dst_y < min_y {
            min_y = dst_y;
        }
        if right > max_x {
            max_x = right;
        }
        if bottom > max_y {
            max_y = bottom;
        }
        i = i + 1;
    }
    proof {
        assert(want.subrange(0, src@.len() as int) =~= want);
    }
    if min_x < max_x && min_y < max_y {
        let w = (max_x as i32 - min_x as i32) as u16;
        let h = (max_y as i32 - min_y as i32) as u16;
        state.damage_reports.push((p.window, min_x, min_y, w, h));
    } else {
        assert(state.damage_reports@ =~= s.damage_reports@ + Seq::<(u32, i16, i16, u16, u16)>::empty());
    }
    PresentCopies { copies, top_level: target }
}

/// The source rectangles start inside the source's quadrant.
proof fn lemma_source_rects_nonnegative(s: ClientState, p: PresentPixmap, w: u16, h: u16)
    ensures
        forall|i: int|
            0 <= i < present_source_rects(s, p, w, h).len() ==> #[trigger] present_source_rects(s, p, w, h)[i].0 >= 0
                && present_source_rects(s, p, w, h)[i].1 >= 0,
{
    match present_region_rects(s, p) {
        Some(v) => {
            if v.len() > 1 {
                let m = v.map_values(|r: RegionRect| clamp_to_source(r, w, h));
                assert forall|k: int| 0 <= k < m.len() implies #[trigger] m[k].0 >= 0 && m[k].1 >= 0 by {
                    assert(m[k] == clamp_to_source(v[k], w, h));
                }
                lemma_filter_keeps_nonnegative(m);
            }
        },
        None => {},
    }
}

/// Filtering keeps rectangles that start in the source's quadrant there.
proof fn lemma_filter_keeps_nonnegative(m: Seq<(i16, i16, u16, u16)>)
    requires
        forall|k: int| 0 <= k < m.len() ==> #[trigger] m[k].0 >= 0 && m[k].1 >= 0,
    ensures
        forall|i: int|
            0 <= i < m.filter(nonempty_area()).len() ==> #[trigger] m.filter(nonempty_area())[i].0 >= 0
                && m.filter(nonempty_area())[i].1 >= 0,
    decreases m.len(),
{
    reveal(Seq::filter);
    if m.len() > 0 {
        let d = m.drop_last();
        assert forall|k: int| 0 <= k < d.len() implies #[trigger] d[k].0 >= 0 && d[k].1 >= 0 by {
            assert(d[k] == m[k]);
        }
        lemma_filter_keeps_nonnegative(d);
        let q = nonempty_area();
        let f = m.filter(q);
        let fd = d.filter(q);
        assert(m.last() == m[m.len() - 1]);
        if q(m.last()) {
            assert(f =~= fd.push(m.last()));
        } else {
            assert(f =~= fd);
        }
        assert forall|i: int| 0 <= i < f.len() implies #[trigger] f[i].0 >= 0 && f[i].1 >= 0 by {
            if i < fd.len() {
                assert(f[i] == fd[i]);
                assert(fd[i].0 >= 0 && fd[i].1 >= 0);
            } else {
                assert(f[i] == m.last());
                assert(m[m.len() - 1].0 >= 0 && m[m.len() - 1].1 >= 0);
            }
        }
    }
}

/// A pixmap of 1-bit pixels as 32-bit pixels: each whole four-byte pixel
/// with any of its color bytes set becomes white, the others black, all
/// opaque; a trailing partial pixel stays as it is.
pub open spec fn mono_as_rgb(d: Seq<u8>) -> Seq<u8> {
    Seq::new(
        d.len(),
        |i: int|
            {
                let p = i - i % 4;
                if p + 3 < d.len() {
                    if i % 4 == 3 || d[p] != 0 || d[p + 1] != 0 || d[p + 2] != 0 {
                        0xFFu8
                    } else {
                        0u8
                    }
                } else {
                    d[i]
                }
            },
    )
}

/// Turn the pixels of a 1-bit pixmap into 32-bit black and white.
pub fn convert_mono_pixels(d: &Vec<u8>) -> (r: Vec<u8>)
    ensures
        r@ == mono_as_rgb(d@),
{
    let mut out: Vec<u8> = Vec::new();
    let mut i: usize = 0;
    while i < d.len()
        invariant
            i <= d@.len(),
            out@.len() == i,
            forall|k: int| 0 <= k < i ==> #[trigger] out@[k] == mono_as_rgb(d@)[k],
        decreases d@.len() - i,
    {
        let p = i - i % 4;
        let b = if d.len() >= 4 && p <= d.len() - 4 {
            if i % 4 == 3 || d[p] != 0 || d[p + 1] != 0 || d[p + 2] != 0 {
                0xFFu8
            } else {
                0u8
            }
        } else {
            d[i]
        };
        out.push(b);
        i = i + 1;
    }
    assert(out@ =~= mono_as_rgb(d@));
    out
}

/// Row `r` of copy `c`'s pixels in a source `src_w` by `src_h` pixels of
/// four bytes: the source's bytes there when the row lies in the source
/// and in its data, zeros otherwise.
pub open spec fn copy_row(src: Seq<u8>, src_w: u16, src_h: u16, c: PresentCopy, r: int) -> Seq<u8> {
    let stride = c.width as int * 4;
    let sy = c.src_y as int + r;
    let start = sy * (src_w as int * 4) + c.src_x as int * 4;
    if sy < src_h && start + stride <= src.len() {
        src.subrange(start, start + stride)
    } else {
        zeros(stride as nat)
    }
}

/// The first `n` rows of copy `c`'s pixels, one after another.
pub open spec fn copy_rows(src: Seq<u8>, src_w: u16, src_h: u16, c: PresentCopy, n: nat) -> Seq<u8>
    decreases n,
{
    if n == 0 {
        Seq::empty()
    } else {
        copy_rows(src, src_w, src_h, c, (n - 1) as nat) + copy_row(src, src_w, src_h, c, n - 1)
    }
}

/// The pixels of copy `c` from a source `src_w` by `src_h` pixels of four
/// bytes, `c.width` by `c.height`, row after row.
pub fn copy_pixels(src: &Vec<u8>, src_w: u16, src_h: u16, c: &PresentCopy) -> (r: Vec<u8>)
    requires
        c.src_x >= 0,
        c.src_y >= 0,
    ensures
        r@ == copy_rows(src@, src_w, src_h, *c, c.height as nat),
{
    let mut out: Vec<u8> = Vec::new();
    let stride: u64 = c.width as u64 * 4;
    let mut row: u16 = 0;
    while row < c.height
        invariant
            row <= c.height,
            c.src_x >= 0,
            c.src_y >= 0,
            stride == c.width as int * 4,
            out@ == copy_rows(src@, src_w, src_h, *c, row as nat),
        decreases c.height - row,
    {
        let ghost before = out@;
        let sy: u64 = c.src_y as u64 + row as u64;
        assert(sy * (src_w as int * 4) <= 98302 * 262140) by (nonlinear_arith)
            requires
                sy <= 98302,
                src_w <= 65535,
        ;
        let start: u64 = sy * (src_w as u64 * 4) + c.src_x as u64 * 4;
        if sy < src_h as u64 && start + stride <= src.len() as u64 {
            assert(start + stride <= src@.len());
            let begin = start as usize;
            let width_bytes = stride as usize;
            assert(begin == start && width_bytes == stride);
            let mut k: usize = 0;
            while k < width_bytes
                invariant
                    begin + width_bytes <= src@.len(),
                    begin + width_bytes <= src.len(),
                    width_bytes == stride,
                    k <= width_bytes,
                    out@ == before + src@.subrange(begin as int, begin + k),
                decreases width_bytes - k,
            {
                out.push(src[begin + k]);
                k = k + 1;
                assert(out@ =~= before + src@.subrange(begin as int, begin + k));
            }
        } else {
            let mut k: u64 = 0;
            while k < stride
                invariant
                    k <= stride,
                    out@ == before + zeros(k as nat),
                decreases stride - k,
            {
                out.push(0u8);
                k = k + 1;
                assert(out@ =~= before + zeros(k as nat));
            }
        }
        proof {
            assert(out@ =~= copy_rows(src@, src_w, src_h, *c, (row + 1) as nat));
        }
        row = row + 1;
    }
    out
}
} // verus!
