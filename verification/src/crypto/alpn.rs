//! The ALPN protocols by which a client selects the control plane or a service.

use vstd::prelude::*;
use crate::model::service::Service;
use crate::text::{all_ascii_digits, append_decimal_ascii, ascii_value, decimal_ascii};
use crate::text::{lemma_ascii_value_prefix, lemma_decimal_ascii_value};

verus! {

/// The bytes `T0CP`: the protocol of the control plane.
pub open spec fn control_plane_protocol() -> Seq<u8> {
    seq![84u8, 48u8, 67u8, 80u8]
}

/// The bytes `T0SRV`: what the protocol of every service starts with.
pub open spec fn service_protocol_prefix() -> Seq<u8> {
    seq![84u8, 48u8, 83u8, 82u8, 86u8]
}

/// The protocol of the service `service_id`: `T0SRV` and the id in decimal.
pub open spec fn service_protocol(service_id: u64) -> Seq<u8> {
    service_protocol_prefix() + decimal_ascii(service_id as nat)
}

/// The protocols that the gateway advertises: the control plane's, then
/// one for each service, in the order of the services.
pub open spec fn protocol_list(services: Seq<Service>) -> Seq<Seq<u8>> {
    seq![control_plane_protocol()] + Seq::new(
        services.len(),
        |i: int| service_protocol(services[i].service_id),
    )
}

/// What a client may select: the control plane, or the service with an id.
#[derive(Clone, Copy, Debug, PartialEq, Eq, Structural)]
pub enum Protocol {
    ControlPlane,
    Service(u64),
}

/// What the bytes of a protocol select: the control plane for `T0CP`, the
/// service `id` for the protocol of that service, and nothing else.
pub open spec fn parse_spec(bytes: Seq<u8>) -> Option<Protocol> {
    if bytes == control_plane_protocol() {
        Some(Protocol::ControlPlane)
    } else if exists|id: u64| bytes == service_protocol(id) {
        Some(Protocol::Service(choose|id: u64| bytes == service_protocol(id)))
    } else {
        None
    }
}

/// The protocol of a service names the one service: from its bytes the id
/// is read back.
pub proof fn lemma_service_protocol_parses(service_id: u64)
    ensures
        parse_spec(service_protocol(service_id)) == Some(Protocol::Service(service_id)),
        parse_spec(control_plane_protocol()) == Some(Protocol::ControlPlane),
{
    let bytes = service_protocol(service_id);
    assert(bytes[2] == 83u8);
    assert(control_plane_protocol()[2] == 67u8);
    let found = choose|id: u64| bytes == service_protocol(id);
    lemma_service_protocol_unique(service_id, found);
}

/// Two services with the same protocol are the same service.
pub proof fn lemma_service_protocol_unique(a: u64, b: u64)
    requires
        service_protocol(a) == service_protocol(b),
    ensures
        a == b,
{
    let digits_a = decimal_ascii(a as nat);
    let digits_b = decimal_ascii(b as nat);
    assert(service_protocol(a).subrange(5, service_protocol(a).len() as int) =~= digits_a);
    assert(service_protocol(b).subrange(5, service_protocol(b).len() as int) =~= digits_b);
    lemma_decimal_ascii_value(a as nat);
    lemma_decimal_ascii_value(b as nat);
}

/// The protocol of the control plane.
pub fn create_control_plane_protocol() -> (protocol: Vec<u8>)
    ensures
        protocol@ == control_plane_protocol(),
{
    let mut protocol: Vec<u8> = Vec::new();
    protocol.push(84);
    protocol.push(48);
    protocol.push(67);
    protocol.push(80);
    assert(protocol@ =~= control_plane_protocol());
    protocol
}

/// The protocol of the service `service_id`.
pub fn create_service_protocol(service_id: u64) -> (protocol: Vec<u8>)
    ensures
        protocol@ == service_protocol(service_id),
{
    let mut protocol: Vec<u8> = Vec::new();
    protocol.push(84);
    protocol.push(48);
    protocol.push(83);
    protocol.push(82);
    protocol.push(86);
    assert(protocol@ =~= service_protocol_prefix());
    append_decimal_ascii(&mut protocol, service_id);
    protocol
}

/// Whether two byte strings are the same.
fn same_bytes(a: &[u8], b: &[u8]) -> (same: bool)
    ensures
        same == (a@ == b@),
{
    if a.len() != b.len() {
        return false;
    }
    let mut i: usize = 0;
    while i < a.len()
        invariant
            i <= a.len(),
            a@.len() == b@.len(),
            forall|j: int| 0 <= j < i ==> a@[j] == b@[j],
        decreases a.len() - i,
    {
        if a[i] != b[i] {
            return false;
        }
        i = i + 1;
    }
    assert(a@ =~= b@);
    true
}

/// The service id that the digits after `T0SRV` stand for, if they are
/// digits that stand for one.
fn read_service_id(bytes: &[u8]) -> (id: Option<u64>)
    requires
        bytes@.len() >= 5,
    ensures
        forall|wanted: u64|
            bytes@.subrange(5, bytes@.len() as int) == decimal_ascii(wanted as nat) ==> id == Some(
                wanted,
            ),
{
    let ghost digits = bytes@.subrange(5, bytes@.len() as int);
    let mut acc: u64 = 0;
    let mut i: usize = 5;
    assert(digits.subrange(0, 0) =~= Seq::<u8>::empty());
    while i < bytes.len()
        invariant
            5 <= i <= bytes.len(),
            digits == bytes@.subrange(5, bytes@.len() as int),
            all_ascii_digits(digits.subrange(0, i - 5)),
            acc == ascii_value(digits.subrange(0, i - 5)),
        decreases bytes.len() - i,
    {
        let b = bytes[i];
        let ghost next = digits.subrange(0, i - 5 + 1);
        proof {
            assert(next.drop_last() =~= digits.subrange(0, i - 5));
            assert(next.last() == b);
        }
        if b < 48 || b > 57 {
            assert forall|wanted: u64| digits == decimal_ascii(wanted as nat) implies false by {
                lemma_decimal_ascii_value(wanted as nat);
                assert(digits[i - 5] == b);
            }
            return None;
        }
        let wide: u128 = (acc as u128) * 10 + ((b - 48) as u128);
        if wide > u64::MAX as u128 {
            assert forall|wanted: u64| digits == decimal_ascii(wanted as nat) implies false by {
                lemma_decimal_ascii_value(wanted as nat);
                lemma_ascii_value_prefix(digits, i - 5 + 1);
            }
            return None;
        }
        assert forall|j: int| 0 <= j < next.len() implies 48 <= #[trigger] next[j] <= 57 by {
            if j < next.len() - 1 {
                assert(next[j] == digits.subrange(0, i - 5)[j]);
            }
        }
        acc = wide as u64;
        i = i + 1;
    }
    assert(digits.subrange(0, i - 5) =~= digits);
    assert forall|wanted: u64| digits == decimal_ascii(wanted as nat) implies acc == wanted by {
        lemma_decimal_ascii_value(wanted as nat);
    }
    Some(acc)
}

/// What the bytes of a protocol select, if anything.
pub fn parse(bytes: &[u8]) -> (protocol: Option<Protocol>)
    ensures
        protocol == parse_spec(bytes@),
{
    let control = create_control_plane_protocol();
    if same_bytes(bytes, control.as_slice()) {
        return Some(Protocol::ControlPlane);
    }
    if bytes.len() < 5 {
        assert forall|id: u64| bytes@ == service_protocol(id) implies false by {
            assert(service_protocol(id).len() >= 5);
        }
        return None;
    }
    match read_service_id(bytes) {
        Some(id) => {
            let wanted = create_service_protocol(id);
            if same_bytes(bytes, wanted.as_slice()) {
                proof {
                    let found = choose|id: u64| bytes@ == service_protocol(id);
                    lemma_service_protocol_unique(id, found);
                }
                Some(Protocol::Service(id))
            } else {
                assert forall|other: u64| bytes@ == service_protocol(other) implies false by {
                    assert(service_protocol(other).subrange(
                        5,
                        service_protocol(other).len() as int,
                    ) =~= decimal_ascii(other as nat));
                }
                None
            }
        },
        None => {
            assert forall|other: u64| bytes@ == service_protocol(other) implies false by {
                assert(service_protocol(other).subrange(5, service_protocol(other).len() as int)
                    =~= decimal_ascii(other as nat));
            }
            None
        },
    }
}

/// The protocols that the gateway advertises for the given services.
pub fn alpn_protocols(services: &Vec<Service>) -> (protocols: Vec<Vec<u8>>)
    ensures
        protocols@.map_values(|p: Vec<u8>| p@) == protocol_list(services@),
{
    let mut protocols: Vec<Vec<u8>> = Vec::new();
    protocols.push(create_control_plane_protocol());
    let mut i: usize = 0;
    while i < services.len()
        invariant
            i <= services.len(),
            protocols@.len() == i + 1,
            protocols@[0]@ == control_plane_protocol(),
            forall|j: int| 0 <= j < i ==> (#[trigger] protocols@[j + 1])@ == service_protocol(
                services@[j].service_id,
            ),
        decreases services.len() - i,
    {
        protocols.push(create_service_protocol(services[i].service_id));
        i = i + 1;
    }
    proof {
        let mapped = protocols@.map_values(|p: Vec<u8>| p@);
        let wanted = protocol_list(services@);
        assert(mapped.len() == wanted.len());
        assert forall|k: int| 0 <= k < mapped.len() implies mapped[k] == wanted[k] by {
            if k > 0 {
                assert(protocols@[(k - 1) + 1]@ == service_protocol(services@[k - 1].service_id));
            }
        }
        assert(mapped =~= wanted);
    }
    protocols
}

} // verus!
