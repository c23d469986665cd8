//! ChangeHosts (opcode 109): adding and removing hosts of the access
//! list. The request is parsed by x11rb-protocol, which reads the address
//! length in the machine's own byte order.

use crate::input::{AccessHost, InputState};
use crate::state::{ClientState, BAD_LENGTH, BAD_VALUE};
use crate::wire::{build_error, error_packet, field16};
use vstd::prelude::*;
use x11rb_protocol::errors::ParseError;
use x11rb_protocol::protocol::xproto::ChangeHostsRequest;
use x11rb_protocol::x11_utils::RequestHeader;

verus! {

/// A host as (family, address).
pub open spec fn host_view(h: AccessHost) -> (u8, Seq<u8>) {
    (h.family, h.address@)
}

/// The access list as (family, address) pairs.
pub open spec fn hosts_view(hosts: Seq<AccessHost>) -> Seq<(u8, Seq<u8>)> {
    hosts.map_values(|h: AccessHost| host_view(h))
}

/// The address of a request whose length field is read in one byte order,
/// if the request holds it all.
pub open spec fn address_fits(d: Seq<u8>, msb: bool) -> bool {
    d.len() >= 8 + field16(d, 6, msb)
}

/// The address bytes of a request, its length read in one byte order.
pub open spec fn address_of(d: Seq<u8>, msb: bool) -> Seq<u8> {
    d.subrange(8, 8 + field16(d, 6, msb))
}

/// Parse ChangeHosts with
/// `x11rb_protocol::protocol::xproto::ChangeHostsRequest::try_parse_request`.
/// Claimed: with at least 8 bytes it gives mode (byte 1), family (byte 4)
/// and the address, its length read in the machine's byte order (one of
/// the two), exactly when the major opcode is 109 and the request holds
/// the whole address.
#[verifier::external_body]
fn parse_change_hosts(data: &[u8]) -> (r: Result<(u8, u8, Vec<u8>), ParseError>)
    requires
        data@.len() >= 8,
    ensures
        r matches Ok(h) ==> data@[0] == 109 && h.0 == data@[1] && h.1 == data@[4] && (address_fits(data@, false)
            && h.2@ == address_of(data@, false) || address_fits(data@, true) && h.2@ == address_of(data@, true)),
        r is Err ==> data@[0] != 109 || !address_fits(data@, false) || !address_fits(data@, true),
{
    let header = RequestHeader { major_opcode: data[0], minor_opcode: data[1], remaining_length: 0 };
    ChangeHostsRequest::try_parse_request(header, &data[4..]).map(
        |q| (u8::from(q.mode), u8::from(q.family), q.address.to_vec()),
    )
}

/// The value ChangeHosts is refused for, if any: a mode other than Insert
/// (0) and Delete (1); an address of the wrong length for Internet (4
/// bytes), DECnet (2), Internet6 (16), an empty ServerInterpreted address;
/// a family other than these, Chaos (2) and Local (254).
pub open spec fn change_hosts_error(mode: u8, family: u8, addr: Seq<u8>) -> Option<u32> {
    let n = addr.len();
    if mode > 1 {
        Some(mode as u32)
    } else if family == 0 && n != 4 || family == 6 && n != 16 || family == 1 && n != 2 || family == 5 && n < 1 {
        Some(n as u32)
    } else if !(family == 0 || family == 1 || family == 2 || family == 5 || family == 6 || family == 254) {
        Some(family as u32)
    } else {
        None
    }
}

/// Keep the hosts other than `h`.
pub open spec fn other_than(h: (u8, Seq<u8>)) -> spec_fn((u8, Seq<u8>)) -> bool {
    |x: (u8, Seq<u8>)| x != h
}

/// The access list after Insert (0, no duplicates) or Delete (1).
pub open spec fn hosts_changed(hosts: Seq<(u8, Seq<u8>)>, mode: u8, h: (u8, Seq<u8>)) -> Seq<(u8, Seq<u8>)> {
    if mode == 0 {
        if hosts.contains(h) { hosts } else { hosts.push(h) }
    } else {
        hosts.filter(other_than(h))
    }
}

/// Two byte strings are equal.
fn same_bytes(a: &Vec<u8>, b: &Vec<u8>) -> (r: bool)
    ensures
        r == (a@ == b@),
{
    if a.len() != b.len() {
        return false;
    }
    let mut i: usize = 0;
    while i < a.len()
        invariant
            a@.len() == b@.len(),
            i <= a@.len(),
            a@.subrange(0, i as int) == b@.subrange(0, i as int),
        decreases a@.len() - i,
    {
        if a[i] != b[i] {
            assert(a@[i as int] != b@[i as int]);
            return false;
        }
        assert(a@.subrange(0, i + 1) =~= a@.subrange(0, i as int).push(a@[i as int]));
        assert(b@.subrange(0, i + 1) =~= b@.subrange(0, i as int).push(b@[i as int]));
        i = i + 1;
    }
    assert(a@ =~= a@.subrange(0, a@.len() as int));
    assert(b@ =~= b@.subrange(0, b@.len() as int));
    true
}

/// A copy of a byte string.
fn copy_address(a: &Vec<u8>) -> (r: Vec<u8>)
    ensures
        r@ == a@,
{
    let mut out: Vec<u8> = Vec::new();
    let mut i: usize = 0;
    while i < a.len()
        invariant
            i <= a@.len(),
            out@ == a@.subrange(0, i as int),
        decreases a@.len() - i,
    {
        out.push(a[i]);
        assert(out@ =~= a@.subrange(0, i + 1));
        i = i + 1;
    }
    assert(a@ =~= a@.subrange(0, a@.len() as int));
    out
}

/// Whether the list holds the host.
fn has_host(hosts: &Vec<AccessHost>, family: u8, addr: &Vec<u8>) -> (r: bool)
    ensures
        r == hosts_view(hosts@).contains((family, addr@)),
{
    let ghost hv = hosts_view(hosts@);
    let mut i: usize = 0;
    while i < hosts.len()
        invariant
            i <= hosts@.len(),
            hv == hosts_view(hosts@),
            forall|j: int| 0 <= j < i ==> hv[j] != (family, addr@),
        decreases hosts@.len() - i,
    {
        if hosts[i].family == family && same_bytes(&hosts[i].address, addr) {
            assert(hv[i as int] == (family, addr@));
            return true;
        }
        i = i + 1;
    }
    false
}

/// The hosts other than (`family`, `addr`), in their order.
fn without_host(hosts: &Vec<AccessHost>, family: u8, addr: &Vec<u8>) -> (r: Vec<AccessHost>)
    ensures
        hosts_view(r@) == hosts_view(hosts@).filter(other_than((family, addr@))),
{
    let ghost h = (family, addr@);
    let ghost keep = other_than(h);
    let ghost hv = hosts_view(hosts@);
    let mut out: Vec<AccessHost> = Vec::new();
    let mut i: usize = 0;
    while i < hosts.len()
        invariant
            i <= hosts@.len(),
            hv == hosts_view(hosts@),
            keep == other_than(h),
            h == (family, addr@),
            hosts_view(out@) == hv.subrange(0, i as int).filter(keep),
        decreases hosts@.len() - i,
    {
        let same = hosts[i].family == family && same_bytes(&hosts[i].address, addr);
        let ghost before = hosts_view(out@);
        if !same {
            out.push(AccessHost { family: hosts[i].family, address: copy_address(&hosts[i].address) });
            assert(hosts_view(out@) =~= before.push(hv[i as int]));
        }
        proof {
            reveal(Seq::filter);
            let s1 = hv.subrange(0, i + 1);
            assert(s1.drop_last() =~= hv.subrange(0, i as int));
            assert(s1.last() == hv[i as int]);
            assert(keep(hv[i as int]) == !same);
        }
        i = i + 1;
    }
    assert(hv.subrange(0, hv.len() as int) =~= hv);
    out
}

/// Apply a parsed ChangeHosts request.
pub fn change_hosts(state: &mut ClientState, mode: u8, family: u8, address: Vec<u8>) -> (r: Vec<u8>)
    ensures
        match change_hosts_error(mode, family, address@) {
            Some(v) => r@ == error_packet(BAD_VALUE, old(state).sequence, v, 109, 0, false) && *final(state) == *old(state),
            None => {
                &&& r@ == Seq::<u8>::empty()
                &&& hosts_view(final(state).input.access_hosts@) == hosts_changed(hosts_view(old(state).input.access_hosts@),
                    mode, (family, address@))
                &&& final(state).input == (InputState { access_hosts: final(state).input.access_hosts, ..old(state).input })
                &&& *final(state) == (ClientState { input: final(state).input, ..*old(state) })
            },
        },
{
    let seq = state.sequence;
    let n = address.len();
    if mode > 1 {
        return build_error(BAD_VALUE, seq, mode as u32, 109, 0);
    }
    if family == 0 && n != 4 || family == 6 && n != 16 || family == 1 && n != 2 || family == 5 && n < 1 {
        return build_error(BAD_VALUE, seq, n as u32, 109, 0);
    }
    if !(family == 0 || family == 1 || family == 2 || family == 5 || family == 6 || family == 254) {
        return build_error(BAD_VALUE, seq, family as u32, 109, 0);
    }
    let ghost before = hosts_view(state.input.access_hosts@);
    if mode == 0 {
        if !has_host(&state.input.access_hosts, family, &address) {
            state.input.access_hosts.push(AccessHost { family, address });
            assert(hosts_view(state.input.access_hosts@) =~= before.push((family, address@)));
        }
    } else {
        let kept = without_host(&state.input.access_hosts, family, &address);
        state.input.access_hosts = kept;
    }
    Vec::new()
}

/// What ChangeHosts answers `req` with, and the client state it leaves.
pub open spec fn change_hosts_done(pre: ClientState, post: ClientState, req: Seq<u8>, seq: u16, out: Seq<u8>) -> bool {
    &&& (req.len() < 8 ==> out == error_packet(BAD_LENGTH, pre.sequence, 0, 109, 0, false) && post
            == pre)
    &&& (req.len() >= 8 ==> exists|msb: bool|
            {
                let addr = #[trigger] address_of(req, msb);
                if req[0] == 109 && address_fits(req, msb) {
                    match change_hosts_error(req[1], req[4], addr) {
                        Some(v) => out == error_packet(BAD_VALUE, pre.sequence, v, 109, 0, false) && post
                            == pre,
                        None => {
                            &&& out == Seq::<u8>::empty()
                            &&& hosts_view(post.input.access_hosts@) == hosts_changed(
                                hosts_view(pre.input.access_hosts@),
                                req[1],
                                (req[4], addr),
                            )
                            &&& post.input == (InputState { access_hosts: post.input.access_hosts, ..pre.input })
                            &&& post == (ClientState { input: post.input, ..pre })
                        },
                    }
                } else {
                    out == error_packet(BAD_LENGTH, pre.sequence, 0, 109, 0, false) && post == pre
                }
            })
}

/// ChangeHosts (opcode 109): BadLength for a request shorter than 8 bytes
/// or one that does not parse; otherwise `change_hosts` of its mode,
/// family and address, the address length read in the machine's byte
/// order.
pub fn handle_change_hosts(state: &mut ClientState, data: &[u8]) -> (r: Vec<u8>)
    ensures
        change_hosts_done(*old(state), *final(state), data@, old(state).sequence, r@),
{
    if data.len() < 8 {
        return build_error(BAD_LENGTH, state.sequence, 0, 109, 0);
    }
    match parse_change_hosts(data) {
        Ok((mode, family, address)) => {
            let ghost msb = address_fits(data@, true) && address@ == address_of(data@, true);
            let ghost a = address@;
            let r = change_hosts(state, mode, family, address);
            assert(address_fits(data@, msb) && a == address_of(data@, msb));
            r
        },
        Err(_) => {
            let ghost msb = !address_fits(data@, true);
            assert(!(data@[0] == 109 && address_fits(data@, msb)));
            assert(address_of(data@, msb) == address_of(data@, msb));
            build_error(BAD_LENGTH, state.sequence, 0, 109, 0)
        },
    }
}

/// Deleting a host that was just inserted into a list without it gives
/// back the list.
pub proof fn delete_undoes_insert(hosts: Seq<(u8, Seq<u8>)>, h: (u8, Seq<u8>))
    requires
        !hosts.contains(h),
    ensures
        hosts_changed(hosts_changed(hosts, 0, h), 1, h) == hosts,
{
    let keep = other_than(h);
    assert forall|i: int| 0 <= i < hosts.len() implies keep(hosts[i]) by {
        if hosts[i] == h {
            assert(hosts.contains(h));
        }
    }
    hosts.lemma_filter_push(h, keep);
    assert(hosts.filter(keep) =~= hosts) by {
        lemma_filter_all(hosts, keep);
    }
}

/// A filter that keeps every element keeps the sequence.
proof fn lemma_filter_all(s: Seq<(u8, Seq<u8>)>, keep: spec_fn((u8, Seq<u8>)) -> bool)
    requires
        forall|i: int| 0 <= i < s.len() ==> keep(s[i]),
    ensures
        s.filter(keep) == s,
    decreases s.len(),
{
    reveal(Seq::filter);
    if s.len() > 0 {
        lemma_filter_all(s.drop_last(), keep);
        assert(s.drop_last().push(s.last()) =~= s);
    } else {
        assert(s.filter(keep) =~= s);
    }
}

/// Inserting a host twice is inserting it once.
pub proof fn insert_is_idempotent(hosts: Seq<(u8, Seq<u8>)>, h: (u8, Seq<u8>))
    ensures
        hosts_changed(hosts_changed(hosts, 0, h), 0, h) == hosts_changed(hosts, 0, h),
{
    if !hosts.contains(h) {
        assert(hosts.push(h)[hosts.len() as int] == h);
    }
}

} // verus!
