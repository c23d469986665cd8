//! RotateProperties (opcode 114): the checks, the rotation of a window's
//! property values among a list of atoms, and the PropertyNotify events it
//! sends. The property values live with the caller, which applies the
//! rotation this module works out. x11rb-protocol parses the request, in
//! the machine's byte order.

use crate::drawing::copy::events_view;
use crate::mapping::words32;
use crate::screen_saver::broadcasts_view;
use crate::state::{ClientState, BAD_LENGTH, BAD_MATCH, BAD_WINDOW};
use crate::wire::{build_error, bytes16, bytes32, error_packet, field16, field32, push_u16, push_u32, push_zeros, zeros};
use std::collections::HashSet;
use vstd::prelude::*;
use x11rb_protocol::errors::ParseError;
use x11rb_protocol::protocol::xproto::RotatePropertiesRequest;
use x11rb_protocol::x11_utils::RequestHeader;

verus! {

broadcast use vstd::std_specs::hash::group_hash_axioms;

/// The PropertyChangeMask event-mask bit.
pub const PROPERTY_CHANGE_MASK: u32 = 0x0040_0000;

/// A RotateProperties request read in one byte order: window, delta, atoms.
pub open spec fn rotate_fields(d: Seq<u8>, msb: bool) -> (u32, i16, Seq<u32>) {
    (field32(d, 4, msb), field16(d, 10, msb) as i16, words32(d, 12, field16(d, 8, msb) as nat, msb))
}

/// The request holds its atoms, their count read in one byte order.
pub open spec fn rotate_fits(d: Seq<u8>, msb: bool) -> bool {
    d.len() >= 12 + 4 * field16(d, 8, msb)
}

/// Parse RotateProperties with
/// `x11rb_protocol::protocol::xproto::RotatePropertiesRequest::try_parse_request`.
/// Claimed: with at least 12 bytes it gives the window, the delta and the
/// atoms, read in the machine's byte order (one of the two), exactly when
/// the major opcode is 114 and the request holds the atoms it counts.
#[verifier::external_body]
fn parse_rotate_properties(data: &[u8]) -> (r: Result<(u32, i16, Vec<u32>), ParseError>)
    requires
        data@.len() >= 12,
    ensures
        r matches Ok(q) ==> data@[0] == 114 && (rotate_fits(data@, false) && (q.0, q.1, q.2@) == rotate_fields(data@, false)
            || rotate_fits(data@, true) && (q.0, q.1, q.2@) == rotate_fields(data@, true)),
        r is Err ==> data@[0] != 114 || !rotate_fits(data@, false) || !rotate_fits(data@, true),
{
    let header = RequestHeader { major_opcode: data[0], minor_opcode: data[1], remaining_length: 0 };
    RotatePropertiesRequest::try_parse_request(header, &data[4..]).map(|q| (q.window, q.delta, q.atoms.to_vec()))
}

/// The first atom of the list that repeats an earlier one, among the
/// first `n`.
pub open spec fn first_repeat(atoms: Seq<u32>, n: nat) -> Option<u32>
    decreases n,
{
    if n == 0 {
        None
    } else {
        match first_repeat(atoms, (n - 1) as nat) {
            Some(a) => Some(a),
            None => if atoms.subrange(0, n - 1).contains(atoms[n - 1]) {
                Some(atoms[n - 1])
            } else {
                None
            },
        }
    }
}

/// Where atom `i`'s new value comes from: atom `i - delta`, counted round
/// the list of `n`.
pub open spec fn rotation_source(i: int, n: int, delta: int) -> int {
    (i - delta) % n
}

/// The rotation as (atom, atom whose value it takes) pairs, in list order.
pub open spec fn rotation_plan(atoms: Seq<u32>, delta: i16) -> Seq<(u32, u32)> {
    Seq::new(atoms.len(), |i: int| (atoms[i], atoms[rotation_source(i, atoms.len() as int, delta as int)]))
}

/// The PropertyNotify event (28) for a new value of `atom` on `window`.
pub open spec fn property_notify(seq: u16, window: u32, atom: u32, time: u32, msb: bool) -> Seq<u8> {
    seq![28u8, 0u8] + bytes16(seq, msb) + bytes32(window, msb) + bytes32(atom, msb) + bytes32(time, msb) + zeros(16)
}

/// The PropertyNotify events of a rotation, one per atom in list order.
pub open spec fn rotation_events(s: ClientState, window: u32, atoms: Seq<u32>) -> Seq<Seq<u8>> {
    atoms.map_values(|a: u32| property_notify(s.sequence, window, a, s.now, s.msb_first))
}

/// What RotateProperties on a known `window` comes to: nothing for no
/// atoms or no delta; a match error for a repeated atom; nothing more for
/// one atom; else the rotation.
pub open spec fn rotation_outcome(s: ClientState, window: u32, delta: i16, atoms: Seq<u32>) -> Result<
    Seq<(u32, u32)>,
    Seq<u8>,
> {
    if atoms.len() == 0 || delta == 0 {
        Ok(Seq::empty())
    } else {
        match first_repeat(atoms, atoms.len()) {
            Some(a) => Err(error_packet(BAD_MATCH, s.sequence, a, 114, 0, false)),
            None => if atoms.len() < 2 {
                Ok(Seq::empty())
            } else {
                Ok(rotation_plan(atoms, delta))
            },
        }
    }
}

/// Once an atom repeats among the first `m`, it is the first repeat among
/// any more.
proof fn lemma_first_repeat_stays(atoms: Seq<u32>, m: nat, n: nat)
    requires
        m <= n,
        first_repeat(atoms, m) is Some,
    ensures
        first_repeat(atoms, n) == first_repeat(atoms, m),
    decreases n,
{
    if n > m {
        lemma_first_repeat_stays(atoms, m, (n - 1) as nat);
    }
}

/// The first repeated atom, if any.
fn find_repeat(atoms: &Vec<u32>) -> (r: Option<u32>)
    ensures
        r == first_repeat(atoms@, atoms@.len()),
{
    let mut seen: HashSet<u32> = HashSet::new();
    let mut j: usize = 0;
    while j < atoms.len()
        invariant
            j <= atoms@.len(),
            seen@ == atoms@.subrange(0, j as int).to_set(),
            first_repeat(atoms@, j as nat) == None::<u32>,
        decreases atoms@.len() - j,
    {
        let a = atoms[j];
        let fresh = seen.insert(a);
        proof {
            let pre = atoms@.subrange(0, j as int);
            assert(atoms@.subrange(0, j + 1) =~= pre.push(a));
            pre.lemma_push_to_set_commute(a);
            assert(pre.to_set().contains(a) == pre.contains(a));
        }
        if !fresh {
            proof {
                lemma_first_repeat_stays(atoms@, (j + 1) as nat, atoms@.len());
            }
            return Some(a);
        }
        j = j + 1;
    }
    assert(atoms@.subrange(0, atoms@.len() as int) =~= atoms@);
    None
}

/// `(i + n - shift) % n` is `(i - delta) % n` for the shift a delta gives.
proof fn lemma_rotation_source(i: int, n: int, delta: int, shift: int)
    requires
        0 <= i < n,
        n > 0,
        shift == (if delta >= 0 { delta % n } else { (n - (-delta) % n) % n }),
    ensures
        (i + n - shift) % n == rotation_source(i, n, delta),
        0 <= shift < n,
{
    if delta >= 0 {
        vstd::arithmetic::div_mod::lemma_fundamental_div_mod(delta, n);
        let q = delta / n;
        vstd::arithmetic::div_mod::lemma_mod_multiples_vanish(-(q + 1), i + n - shift, n);
        assert(n * (-(q + 1)) + (i + n - shift) == i - delta) by (nonlinear_arith)
            requires
                delta == n * q + shift,
        ;
    } else {
        let e = -delta;
        vstd::arithmetic::div_mod::lemma_fundamental_div_mod(e, n);
        let q = e / n;
        let r = e % n;
        vstd::arithmetic::div_mod::lemma_mod_multiples_vanish(q, i + r, n);
        assert(n * q + (i + r) == i - delta) by (nonlinear_arith)
            requires
                e == n * q + r,
                e == -delta,
        ;
        if r == 0 {
            vstd::arithmetic::div_mod::lemma_mod_self_0(n);
            vstd::arithmetic::div_mod::lemma_mod_multiples_vanish(1, i, n);
        } else {
            vstd::arithmetic::div_mod::lemma_small_mod((n - r) as nat, n as nat);
        }
    }
}

/// The rotation plan.
fn plan_rotation(atoms: &Vec<u32>, delta: i16) -> (r: Vec<(u32, u32)>)
    requires
        1 <= atoms@.len() <= 0xFFFF,
    ensures
        r@ == rotation_plan(atoms@, delta),
{
    let n = atoms.len() as u64;
    let shift: u64 = if delta >= 0 {
        (delta as u64) % n
    } else {
        let e: u64 = (0 - (delta as i32)) as u64;
        (n - e % n) % n
    };
    let mut plan: Vec<(u32, u32)> = Vec::new();
    let mut i: usize = 0;
    while i < atoms.len()
        invariant
            i <= atoms@.len(),
            n == atoms@.len(),
            1 <= n <= 0xFFFF,
            shift == (if delta >= 0 { (delta as int) % (n as int) } else { (n - (-(delta as int)) % (n as int)) % (n as int) }),
            plan@ == rotation_plan(atoms@, delta).subrange(0, i as int),
        decreases atoms@.len() - i,
    {
        proof {
            lemma_rotation_source(i as int, n as int, delta as int, shift as int);
        }
        assert(shift < n);
        let src = ((i as u64 + n - shift) % n) as usize;
        plan.push((atoms[i], atoms[src]));
        i = i + 1;
        assert(plan@ =~= rotation_plan(atoms@, delta).subrange(0, i as int));
    }
    assert(rotation_plan(atoms@, delta).subrange(0, atoms@.len() as int) =~= rotation_plan(atoms@, delta));
    plan
}

/// Build a PropertyNotify event.
fn build_property_notify(seq: u16, window: u32, atom: u32, time: u32, msb: bool) -> (r: Vec<u8>)
    ensures
        r@ == property_notify(seq, window, atom, time, msb),
{
    let mut e: Vec<u8> = Vec::new();
    e.push(28u8);
    e.push(0u8);
    assert(e@ =~= seq![28u8, 0u8]);
    push_u16(&mut e, seq, msb);
    push_u32(&mut e, window, msb);
    push_u32(&mut e, atom, msb);
    push_u32(&mut e, time, msb);
    push_zeros(&mut e, 16);
    e
}

/// RotateProperties (opcode 114): a length error for a short request or
/// one that does not parse, a window error for an unknown window; else what
/// `rotation_outcome` says (the request read in the machine's byte order).
/// For a rotation, the plan is given back, for the caller to give each
/// atom the value its source atom had before (where that atom had one),
/// and a PropertyNotify for each atom goes to this client, if it selected
/// PropertyChangeMask on the window, and to the other clients that did.
pub fn handle_rotate_properties(state: &mut ClientState, data: &[u8]) -> (r: Result<Vec<(u32, u32)>, Vec<u8>>)
    ensures
        ({
            let s = *old(state);
            let after = *final(state);
            let length_error = error_packet(BAD_LENGTH, s.sequence, 0, 114, 0, false);
            if data@.len() < 12 || data@[0] != 114 {
                (r matches Err(e) && e@ == length_error) && after == s
            } else {
                exists|msb: bool|
                    {
                        let q = #[trigger] rotate_fields(data@, msb);
                        if !rotate_fits(data@, msb) {
                            (r matches Err(e) && e@ == length_error) && after == s
                        } else if !s.windows@.contains_key(q.0) {
                            (r matches Err(e) && e@ == error_packet(BAD_WINDOW, s.sequence, q.0, 114, 0, false)) && after == s
                        } else {
                            match rotation_outcome(s, q.0, q.1, q.2) {
                                Err(e) => (r matches Err(v) && v@ == e) && after == s,
                                Ok(plan) => {
                                    &&& r matches Ok(p) && p@ == plan
                                    &&& if plan.len() == 0 {
                                        after == s
                                    } else {
                                        let evs = rotation_events(s, q.0, q.2);
                                        let mask = s.windows@[q.0].event_mask;
                                        &&& events_view(after.pending_events@) == events_view(s.pending_events@) + (if mask
                                            & PROPERTY_CHANGE_MASK != 0 {
                                            evs
                                        } else {
                                            Seq::empty()
                                        })
                                        &&& broadcasts_view(after.broadcasts@) == broadcasts_view(s.broadcasts@) + evs.map_values(
                                            |e: Seq<u8>| (q.0, PROPERTY_CHANGE_MASK, e),
                                        )
                                        &&& after == (ClientState {
                                            pending_events: after.pending_events,
                                            broadcasts: after.broadcasts,
                                            ..s
                                        })
                                    }
                                },
                            }
                        }
                    }
            }
        }),
{
    let seq = state.sequence;
    if data.len() < 12 {
        return Err(build_error(BAD_LENGTH, seq, 0, 114, 0));
    }
    let (window, delta, atoms) = match parse_rotate_properties(data) {
        Ok(q) => q,
        Err(_) => {
            let ghost msb = !rotate_fits(data@, true);
            assert(rotate_fields(data@, msb) == rotate_fields(data@, msb));
            return Err(build_error(BAD_LENGTH, seq, 0, 114, 0));
        },
    };
    let ghost msb = rotate_fits(data@, true) && (window, delta, atoms@) == rotate_fields(data@, true);
    assert(rotate_fits(data@, msb) && (window, delta, atoms@) == rotate_fields(data@, msb));
    let mask = match state.windows.get(&window) {
        Some(w) => w.event_mask,
        None => {
            return Err(build_error(BAD_WINDOW, seq, window, 114, 0));
        },
    };
    if atoms.len() == 0 || delta == 0 {
        return Ok(Vec::new());
    }
    match find_repeat(&atoms) {
        Some(a) => {
            return Err(build_error(BAD_MATCH, seq, a, 114, 0));
        },
        None => {},
    }
    if atoms.len() < 2 {
        return Ok(Vec::new());
    }
    let plan = plan_rotation(&atoms, delta);
    let ghost s0 = *state;
    let ghost evs = rotation_events(s0, window, atoms@);
    let time = state.now;
    let msb_first = state.msb_first;
    let mut i: usize = 0;
    while i < atoms.len()
        invariant
            i <= atoms@.len(),
            seq == s0.sequence,
            time == s0.now,
            msb_first == s0.msb_first,
            evs == rotation_events(s0, window, atoms@),
            events_view(state.pending_events@) == events_view(s0.pending_events@) + (if mask & PROPERTY_CHANGE_MASK != 0 {
                evs.subrange(0, i as int)
            } else {
                Seq::empty()
            }),
            broadcasts_view(state.broadcasts@) == broadcasts_view(s0.broadcasts@) + evs.subrange(0, i as int).map_values(
                |e: Seq<u8>| (window, PROPERTY_CHANGE_MASK, e),
            ),
            *state == (ClientState { pending_events: state.pending_events, broadcasts: state.broadcasts, ..s0 }),
        decreases atoms@.len() - i,
    {
        let atom = atoms[i];
        let ghost pe = events_view(state.pending_events@);
        let ghost bv = broadcasts_view(state.broadcasts@);
        let ghost ev = property_notify(seq, window, atom, time, msb_first);
        assert(evs[i as int] == ev);
        assert(evs.subrange(0, i + 1) =~= evs.subrange(0, i as int).push(ev));
        if mask & PROPERTY_CHANGE_MASK != 0 {
            let e = build_property_notify(seq, window, atom, time, msb_first);
            state.pending_events.push(e);
            assert(events_view(state.pending_events@) =~= pe.push(ev));
        }
        let e2 = build_property_notify(seq, window, atom, time, msb_first);
        state.broadcasts.push((window, PROPERTY_CHANGE_MASK, e2));
        assert(broadcasts_view(state.broadcasts@) =~= bv.push((window, PROPERTY_CHANGE_MASK, ev)));
        assert(evs.subrange(0, i + 1).map_values(|e: Seq<u8>| (window, PROPERTY_CHANGE_MASK, e)) =~= evs.subrange(
            0,
            i as int,
        ).map_values(|e: Seq<u8>| (window, PROPERTY_CHANGE_MASK, e)).push((window, PROPERTY_CHANGE_MASK, ev)));
        i = i + 1;
    }
    assert(evs.subrange(0, atoms@.len() as int) =~= evs);
    Ok(plan)
}

/// The values of a list of atoms after a rotation by `delta`: atom `i`
/// holds what atom `rotation_source(i, n, delta)` held.
pub open spec fn rotated<V>(values: Seq<V>, delta: int) -> Seq<V> {
    Seq::new(values.len(), |i: int| values[rotation_source(i, values.len() as int, delta)])
}

/// Rotating by `delta` and then by `-delta` gives every atom its value
/// back.
pub proof fn opposite_rotations_cancel<V>(values: Seq<V>, delta: int)
    requires
        values.len() > 0,
    ensures
        rotated(rotated(values, delta), -delta) == values,
{
    let n = values.len() as int;
    assert forall|i: int| 0 <= i < n implies #[trigger] rotated(rotated(values, delta), -delta)[i] == values[i] by {
        let j = rotation_source(i, n, -delta);
        assert(0 <= j < n) by {
            vstd::arithmetic::div_mod::lemma_mod_bound(i + delta, n);
        }
        vstd::arithmetic::div_mod::lemma_fundamental_div_mod(i + delta, n);
        let q = (i + delta) / n;
        vstd::arithmetic::div_mod::lemma_mod_multiples_vanish(q, i, n);
        vstd::arithmetic::div_mod::lemma_small_mod(i as nat, n as nat);
        assert(j - delta == n * (-q) + i) by (nonlinear_arith)
            requires
                i + delta == n * q + j,
        ;
        vstd::arithmetic::div_mod::lemma_mod_multiples_vanish(-q, i, n);
    }
    assert(rotated(rotated(values, delta), -delta) =~= values);
}

/// A rotation by a multiple of the list's length leaves every value where
/// it is.
pub proof fn full_turn_rotation_is_identity<V>(values: Seq<V>, turns: int)
    requires
        values.len() > 0,
    ensures
        rotated(values, turns * values.len()) == values,
{
    let n = values.len() as int;
    assert forall|i: int| 0 <= i < n implies #[trigger] rotated(values, turns * n)[i] == values[i] by {
        assert(i - turns * n == n * (-turns) + i) by (nonlinear_arith);
        vstd::arithmetic::div_mod::lemma_mod_multiples_vanish(-turns, i, n);
        vstd::arithmetic::div_mod::lemma_small_mod(i as nat, n as nat);
    }
    assert(rotated(values, turns * n) =~= values);
}

/// The rotation plan gives each atom the source `rotated` reads from.
pub proof fn plan_follows_rotation(atoms: Seq<u32>, delta: i16)
    requires
        atoms.len() > 0,
    ensures
        rotation_plan(atoms, delta).map_values(|p: (u32, u32)| p.1) == rotated(atoms, delta as int),
        rotation_plan(atoms, delta).map_values(|p: (u32, u32)| p.0) == atoms,
{
    assert(rotation_plan(atoms, delta).map_values(|p: (u32, u32)| p.1) =~= rotated(atoms, delta as int));
    assert(rotation_plan(atoms, delta).map_values(|p: (u32, u32)| p.0) =~= atoms);
}

} // verus!
