//! Model of a USB device's descriptor tree and resolution of the first bulk
//! endpoint of a requested direction. Callers read the tree from the opened
//! device and hand it in as plain values.

use vstd::prelude::*;

verus! {

/// Transfer direction of an endpoint, seen from the host.
#[derive(Clone, Copy, Debug, PartialEq, Eq, Structural)]
pub enum Direction {
    In,
    Out,
}

/// Transfer type an endpoint declares.
#[derive(Clone, Copy, Debug, PartialEq, Eq, Structural)]
pub enum TransferType {
    Control,
    Isochronous,
    Bulk,
    Interrupt,
}

/// What endpoint resolution reads from one endpoint descriptor.
#[derive(Clone, Copy, Debug, PartialEq, Eq, Structural)]
pub struct EndpointDesc {
    pub address: u8,
    pub transfer_type: TransferType,
    pub direction: Direction,
}

/// One alternate setting of an interface, with its endpoints in descriptor
/// order.
pub struct AltSetting {
    pub iface_number: u8,
    pub setting_number: u8,
    pub endpoints: Vec<EndpointDesc>,
}

/// One configuration, with the alternate settings of all its interfaces
/// flattened in descriptor order.
pub struct ConfigDesc {
    pub number: u8,
    pub alt_settings: Vec<AltSetting>,
}

/// Where in the descriptor tree a usable endpoint was found.
#[derive(Clone, Copy, Debug, PartialEq, Eq, Structural)]
pub struct Endpoint {
    pub config: u8,
    pub iface: u8,
    pub setting: u8,
    pub address: u8,
}

/// Whether an endpoint descriptor declares the requested transfer type and
/// direction.
pub open spec fn ep_matches(e: EndpointDesc, t: TransferType, d: Direction) -> bool {
    e.transfer_type == t && e.direction == d
}

/// Whether `(i, j, k)` indexes an endpoint of the descriptor tree.
pub open spec fn valid_triple(cfgs: Seq<ConfigDesc>, i: int, j: int, k: int) -> bool {
    &&& 0 <= i < cfgs.len()
    &&& 0 <= j < cfgs[i].alt_settings@.len()
    &&& 0 <= k < cfgs[i].alt_settings@[j].endpoints@.len()
}

/// The endpoint value produced from position `(i, j, k)` of the tree.
pub open spec fn endpoint_at(cfgs: Seq<ConfigDesc>, i: int, j: int, k: int) -> Endpoint {
    Endpoint {
        config: cfgs[i].number,
        iface: cfgs[i].alt_settings@[j].iface_number,
        setting: cfgs[i].alt_settings@[j].setting_number,
        address: cfgs[i].alt_settings@[j].endpoints@[k].address,
    }
}

/// Whether position `(i, j, k)` exists and its endpoint matches the request.
pub open spec fn match_at(
    cfgs: Seq<ConfigDesc>,
    t: TransferType,
    d: Direction,
    i: int,
    j: int,
    k: int,
) -> bool {
    valid_triple(cfgs, i, j, k) && ep_matches(cfgs[i].alt_settings@[j].endpoints@[k], t, d)
}

/// Whether any endpoint of the requested type and direction exists anywhere
/// in the descriptor tree.
pub open spec fn has_match(cfgs: Seq<ConfigDesc>, t: TransferType, d: Direction) -> bool {
    exists|i: int, j: int, k: int| match_at(cfgs, t, d, i, j, k)
}

/// Lexicographic order on tree positions: configurations first, then
/// alternate settings, then endpoints.
pub open spec fn triple_lt(i1: int, j1: int, k1: int, i2: int, j2: int, k2: int) -> bool {
    ||| i1 < i2
    ||| (i1 == i2 && j1 < j2)
    ||| (i1 == i2 && j1 == j2 && k1 < k2)
}

/// Whether `(i, j, k)` is the first matching position of the tree in
/// lexicographic order.
pub open spec fn first_match_at(
    cfgs: Seq<ConfigDesc>,
    t: TransferType,
    d: Direction,
    i: int,
    j: int,
    k: int,
) -> bool {
    &&& match_at(cfgs, t, d, i, j, k)
    &&& forall|i2: int, j2: int, k2: int|
        triple_lt(i2, j2, k2, i, j, k) ==> !(#[trigger] match_at(cfgs, t, d, i2, j2, k2))
}

/// Depth-first traversal of the descriptor tree: configurations in ascending
/// index order, then interfaces and their alternate settings, then endpoints.
/// Returns the first endpoint whose declared transfer type and direction
/// equal the request, and nothing exactly when no endpoint anywhere in the
/// tree matches.
pub fn find_endpoint(
    cfgs: &Vec<ConfigDesc>,
    transfer_type: TransferType,
    direction: Direction,
) -> (r: Option<Endpoint>)
    ensures
        r is None <==> !has_match(cfgs@, transfer_type, direction),
        r is Some ==> exists|i: int, j: int, k: int|
            #[trigger] match_at(cfgs@, transfer_type, direction, i, j, k)
                && first_match_at(cfgs@, transfer_type, direction, i, j, k)
                && r->0 == endpoint_at(cfgs@, i, j, k),
{
    let mut i: usize = 0;
    while i < cfgs.len()
        invariant
            i <= cfgs@.len(),
            forall|i2: int, j2: int, k2: int|
                i2 < i ==> !(#[trigger] match_at(cfgs@, transfer_type, direction, i2, j2, k2)),
        decreases cfgs@.len() - i,
    {
        let cfg = &cfgs[i];
        let mut j: usize = 0;
        while j < cfg.alt_settings.len()
            invariant
                i < cfgs@.len(),
                *cfg == cfgs@[i as int],
                j <= cfg.alt_settings@.len(),
                forall|i2: int, j2: int, k2: int|
                    i2 < i ==> !(#[trigger] match_at(cfgs@, transfer_type, direction, i2, j2, k2)),
                forall|j2: int, k2: int|
                    j2 < j ==> !(#[trigger] match_at(cfgs@, transfer_type, direction, i as int, j2, k2)),
            decreases cfg.alt_settings@.len() - j,
        {
            let alt = &cfg.alt_settings[j];
            let mut k: usize = 0;
            while k < alt.endpoints.len()
                invariant
                    i < cfgs@.len(),
                    *cfg == cfgs@[i as int],
                    j < cfg.alt_settings@.len(),
                    *alt == cfgs@[i as int].alt_settings@[j as int],
                    k <= alt.endpoints@.len(),
                    forall|i2: int, j2: int, k2: int|
                        i2 < i ==> !(#[trigger] match_at(cfgs@, transfer_type, direction, i2, j2, k2)),
                    forall|j2: int, k2: int|
                        j2 < j ==> !(#[trigger] match_at(cfgs@, transfer_type, direction, i as int, j2, k2)),
                    forall|k2: int|
                        k2 < k ==> !(#[trigger] match_at(cfgs@, transfer_type, direction, i as int, j as int, k2)),
                decreases alt.endpoints@.len() - k,
            {
                let e = &alt.endpoints[k];
                if e.transfer_type == transfer_type && e.direction == direction {
                    proof {
                        assert(match_at(cfgs@, transfer_type, direction, i as int, j as int, k as int));
                        assert forall|i2: int, j2: int, k2: int|
                            triple_lt(i2, j2, k2, i as int, j as int, k as int)
                            implies !(#[trigger] match_at(cfgs@, transfer_type, direction, i2, j2, k2)) by {
                            if match_at(cfgs@, transfer_type, direction, i2, j2, k2) {
                                assert(0 <= i2 && 0 <= j2 && 0 <= k2);
                            }
                        }
                    }
                    return Some(
                        Endpoint {
                            config: cfg.number,
                            iface: alt.iface_number,
                            setting: alt.setting_number,
                            address: e.address,
                        },
                    );
                }
                k = k + 1;
            }
            j = j + 1;
        }
        i = i + 1;
    }
    None
}

} // verus!
