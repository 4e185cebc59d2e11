//! Settings of the UDP transport (RFC 7252) and the multicast groups it joins.
use vstd::prelude::*;

verus! {

/// A multicast group to join: an IPv4 group with the interface address to join it on, or an
/// IPv6 group with the interface index; an interface left `None` is resolved when joining.
#[derive(Debug, Copy, Clone, PartialEq, Eq)]
pub enum MulticastGroupJoin {
    Ipv4([u8; 4], Option<[u8; 4]>),
    Ipv6([u8; 16], Option<u32>),
}

/// A join with its interface resolved.
#[derive(Debug, Copy, Clone, PartialEq, Eq)]
pub enum ResolvedJoin {
    Ipv4 { group: [u8; 4], interface: [u8; 4] },
    Ipv6 { group: [u8; 16], interface: u32 },
}

/// The local address the socket is bound to: IPv4 (with its address) or IPv6.
#[derive(Debug, Copy, Clone, PartialEq, Eq)]
pub enum LocalAddress {
    V4([u8; 4]),
    V6,
}

/// "All CoAP Nodes" for IPv4, 224.0.1.187.
pub open spec fn all_coap_nodes_v4() -> [u8; 4] {
    [224, 0, 1, 187]
}

/// "All CoAP Nodes", link-local scope, ff02::fd.
pub open spec fn all_coap_nodes_v6_link() -> [u8; 16] {
    [0xff, 0x02, 0, 0, 0, 0, 0, 0, 0, 0, 0, 0, 0, 0, 0, 0xfd]
}

/// "All CoAP Nodes", site-local scope, ff05::fd.
pub open spec fn all_coap_nodes_v6_site() -> [u8; 16] {
    [0xff, 0x05, 0, 0, 0, 0, 0, 0, 0, 0, 0, 0, 0, 0, 0, 0xfd]
}

/// The groups joined when none are configured: the "All CoAP Nodes" groups of the local
/// address's family (RFC 7252, section 12.8).
pub open spec fn default_joins(local: LocalAddress) -> Seq<MulticastGroupJoin> {
    match local {
        LocalAddress::V4(_) => seq![MulticastGroupJoin::Ipv4(all_coap_nodes_v4(), None)],
        LocalAddress::V6 => seq![
            MulticastGroupJoin::Ipv6(all_coap_nodes_v6_link(), None),
            MulticastGroupJoin::Ipv6(all_coap_nodes_v6_site(), None),
        ],
    }
}

/// The groups to join: the configured ones, or the default groups when none are configured.
pub open spec fn planned_joins(configured: Seq<MulticastGroupJoin>, local: LocalAddress) -> Seq<MulticastGroupJoin> {
    if configured.len() == 0 {
        default_joins(local)
    } else {
        configured
    }
}

/// Whether every one of `joins` has an interface to use.
pub open spec fn all_joins_resolve(
    joins: Seq<MulticastGroupJoin>,
    default_v4: Option<[u8; 4]>,
    default_v6: Option<u32>,
    local: LocalAddress,
) -> bool {
    forall|i: int| 0 <= i < joins.len() ==> (#[trigger] resolve_join(joins[i], default_v4, default_v6, local)) is Some
}

/// `a` when it is set, else `b`.
pub open spec fn either<T>(a: Option<T>, b: Option<T>) -> Option<T> {
    match a {
        Some(x) => Some(x),
        None => b,
    }
}

/// The interface a join uses: its own, else the transport's default for the family; for
/// IPv4 else the local address (none when the socket is IPv6), for IPv6 else index 0.
pub open spec fn resolve_join(
    join: MulticastGroupJoin,
    default_v4: Option<[u8; 4]>,
    default_v6: Option<u32>,
    local: LocalAddress,
) -> Option<ResolvedJoin> {
    match join {
        MulticastGroupJoin::Ipv4(group, interface) => {
            let fallback = match local {
                LocalAddress::V4(a) => Some(a),
                LocalAddress::V6 => None,
            };
            match either(either(interface, default_v4), fallback) {
                Some(i) => Some(ResolvedJoin::Ipv4 { group, interface: i }),
                None => None,
            }
        },
        MulticastGroupJoin::Ipv6(group, interface) => Some(
            ResolvedJoin::Ipv6 { group, interface: either(interface, default_v6).unwrap_or(0) },
        ),
    }
}

/// Settings of a UDP transport bound to `addresses`.
pub struct UdpTransport<A> {
    addresses: A,
    mtu: Option<u32>,
    multicast: bool,
    custom_group_joins: Vec<MulticastGroupJoin>,
    default_ipv4_interface: Option<[u8; 4]>,
    default_ipv6_interface: Option<u32>,
}

impl<A> UdpTransport<A> {
    /// The addresses to bind.
    pub closed spec fn addresses(&self) -> A {
        self.addresses
    }

    /// The MTU for block-wise transfer, when set.
    pub closed spec fn mtu_setting(&self) -> Option<u32> {
        self.mtu
    }

    /// Whether multicast groups are joined.
    pub closed spec fn multicast_enabled(&self) -> bool {
        self.multicast
    }

    /// The configured joins, in order.
    pub closed spec fn joins(&self) -> Seq<MulticastGroupJoin> {
        self.custom_group_joins@
    }

    /// The default IPv4 interface address.
    pub closed spec fn default_v4(&self) -> Option<[u8; 4]> {
        self.default_ipv4_interface
    }

    /// The default IPv6 interface index.
    pub closed spec fn default_v6(&self) -> Option<u32> {
        self.default_ipv6_interface
    }

    /// A transport for `addresses`: MTU unset, no multicast.
    pub fn new(addresses: A) -> (r: Self)
        ensures
            r.addresses() == addresses,
            r.mtu_setting() is None,
            !r.multicast_enabled(),
            r.joins() == Seq::<MulticastGroupJoin>::empty(),
            r.default_v4() is None,
            r.default_v6() is None,
    {
        UdpTransport {
            addresses,
            mtu: None,
            multicast: false,
            custom_group_joins: Vec::new(),
            default_ipv4_interface: None,
            default_ipv6_interface: None,
        }
    }

    /// Sets the MTU used to size block-wise transfers.
    pub fn set_mtu(self, mtu: u32) -> (r: Self)
        ensures
            r.mtu_setting() == Some(mtu),
            r.addresses() == self.addresses(),
            r.multicast_enabled() == self.multicast_enabled(),
            r.joins() == self.joins(),
            r.default_v4() == self.default_v4(),
            r.default_v6() == self.default_v6(),
    {
        let mut s = self;
        s.mtu = Some(mtu);
        s
    }

    /// Joins multicast groups when bound.
    pub fn enable_multicast(self) -> (r: Self)
        ensures
            r.multicast_enabled(),
            r.mtu_setting() == self.mtu_setting(),
            r.addresses() == self.addresses(),
            r.joins() == self.joins(),
            r.default_v4() == self.default_v4(),
            r.default_v6() == self.default_v6(),
    {
        let mut s = self;
        s.multicast = true;
        s
    }

    /// Sets the IPv4 interface address for joins that name none.
    pub fn set_multicast_default_ipv4_interface(self, interface: [u8; 4]) -> (r: Self)
        ensures
            r.default_v4() == Some(interface),
            r.mtu_setting() == self.mtu_setting(),
            r.multicast_enabled() == self.multicast_enabled(),
            r.addresses() == self.addresses(),
            r.joins() == self.joins(),
            r.default_v6() == self.default_v6(),
    {
        let mut s = self;
        s.default_ipv4_interface = Some(interface);
        s
    }

    /// Sets the IPv6 interface index for joins that name none.
    pub fn set_multicast_default_ipv6_interface(self, interface: u32) -> (r: Self)
        ensures
            r.default_v6() == Some(interface),
            r.mtu_setting() == self.mtu_setting(),
            r.multicast_enabled() == self.multicast_enabled(),
            r.addresses() == self.addresses(),
            r.joins() == self.joins(),
            r.default_v4() == self.default_v4(),
    {
        let mut s = self;
        s.default_ipv6_interface = Some(interface);
        s
    }

    /// Adds a group to join (replacing the default groups).
    pub fn add_multicast_join(self, join: MulticastGroupJoin) -> (r: Self)
        ensures
            r.joins() == self.joins().push(join),
            r.mtu_setting() == self.mtu_setting(),
            r.multicast_enabled() == self.multicast_enabled(),
            r.addresses() == self.addresses(),
            r.default_v4() == self.default_v4(),
            r.default_v6() == self.default_v6(),
    {
        let mut s = self;
        s.custom_group_joins.push(join);
        s
    }

    /// The MTU setting.
    pub fn mtu(&self) -> (r: Option<u32>)
        ensures
            r == self.mtu_setting(),
    {
        self.mtu
    }

    /// Whether multicast is enabled.
    pub fn multicast(&self) -> (r: bool)
        ensures
            r == self.multicast_enabled(),
    {
        self.multicast
    }

    /// Separates the addresses to bind from the settings, which stay for joining.
    pub fn take_addresses(self) -> (r: (A, UdpTransport<()>))
        ensures
            r.0 == self.addresses(),
            r.1.mtu_setting() == self.mtu_setting(),
            r.1.multicast_enabled() == self.multicast_enabled(),
            r.1.joins() == self.joins(),
            r.1.default_v4() == self.default_v4(),
            r.1.default_v6() == self.default_v6(),
    {
        let UdpTransport {
            addresses,
            mtu,
            multicast,
            custom_group_joins,
            default_ipv4_interface,
            default_ipv6_interface,
        } = self;
        (
            addresses,
            UdpTransport {
                addresses: (),
                mtu,
                multicast,
                custom_group_joins,
                default_ipv4_interface,
                default_ipv6_interface,
            },
        )
    }

    /// The addresses to bind, giving up the settings.
    pub fn into_addresses(self) -> (r: A)
        ensures
            r == self.addresses(),
    {
        self.addresses
    }

    /// Whether every group to join on a socket bound to `local` has an interface to use; an
    /// IPv4 join fails this when it has no interface of its own, there is no default, and the
    /// socket is not IPv4.
    pub fn joins_resolvable(&self, local: LocalAddress) -> (r: bool)
        ensures
            r == all_joins_resolve(planned_joins(self.joins(), local), self.default_v4(), self.default_v6(), local),
    {
        self.resolve_planned(local).is_some()
    }

    /// The groups to join on a socket bound to `local`, with their interfaces: the configured
    /// joins, or the default groups when none are configured, in order.  Every join must
    /// have an interface to use (see `joins_resolvable`).
    pub fn plan_joins(&self, local: LocalAddress) -> (r: Vec<ResolvedJoin>)
        requires
            all_joins_resolve(planned_joins(self.joins(), local), self.default_v4(), self.default_v6(), local),
        ensures
            r@.len() == planned_joins(self.joins(), local).len(),
            forall|i: int|
                0 <= i < planned_joins(self.joins(), local).len() ==> resolve_join(
                    #[trigger] planned_joins(self.joins(), local)[i],
                    self.default_v4(),
                    self.default_v6(),
                    local,
                ) == Some(r@[i]),
    {
        match self.resolve_planned(local) {
            Some(v) => v,
            None => {
                proof {
                    let i = choose|i: int|
                        0 <= i < planned_joins(self.joins(), local).len() && resolve_join(
                            #[trigger] planned_joins(self.joins(), local)[i],
                            self.default_v4(),
                            self.default_v6(),
                            local,
                        ) is None;
                    assert(resolve_join(planned_joins(self.joins(), local)[i], self.default_v4(), self.default_v6(), local) is Some);
                }
                Vec::new()
            },
        }
    }

    /// The resolved joins, or `None` when one of them has no interface to use.
    fn resolve_planned(&self, local: LocalAddress) -> (r: Option<Vec<ResolvedJoin>>)
        ensures
            match r {
                Some(v) => v@.len() == planned_joins(self.joins(), local).len() && forall|i: int|
                    0 <= i < planned_joins(self.joins(), local).len() ==> resolve_join(
                        #[trigger] planned_joins(self.joins(), local)[i],
                        self.default_v4(),
                        self.default_v6(),
                        local,
                    ) == Some(v@[i]),
                None => exists|i: int|
                    0 <= i < planned_joins(self.joins(), local).len() && resolve_join(
                        #[trigger] planned_joins(self.joins(), local)[i],
                        self.default_v4(),
                        self.default_v6(),
                        local,
                    ) is None,
            },
    {
        let mut joins: Vec<MulticastGroupJoin> = Vec::new();
        if self.custom_group_joins.len() == 0 {
            match local {
                LocalAddress::V4(_) => {
                    joins.push(MulticastGroupJoin::Ipv4([224, 0, 1, 187], None));
                },
                LocalAddress::V6 => {
                    joins.push(
                        MulticastGroupJoin::Ipv6([0xff, 0x02, 0, 0, 0, 0, 0, 0, 0, 0, 0, 0, 0, 0, 0, 0xfd], None),
                    );
                    joins.push(
                        MulticastGroupJoin::Ipv6([0xff, 0x05, 0, 0, 0, 0, 0, 0, 0, 0, 0, 0, 0, 0, 0, 0xfd], None),
                    );
                },
            }
            assert(joins@ =~= default_joins(local));
        } else {
            let mut i: usize = 0;
            while i < self.custom_group_joins.len()
                invariant
                    i <= self.custom_group_joins@.len(),
                    joins@ == self.custom_group_joins@.take(i as int),
                decreases self.custom_group_joins@.len() - i,
            {
                joins.push(self.custom_group_joins[i]);
                assert(self.custom_group_joins@.take(i as int + 1) =~= self.custom_group_joins@.take(i as int).push(
                    self.custom_group_joins@[i as int],
                ));
                i = i + 1;
            }
            assert(self.custom_group_joins@.take(i as int) =~= self.custom_group_joins@);
        }
        let ghost js = joins@;
        assert(js == planned_joins(self.joins(), local));
        let mut out: Vec<ResolvedJoin> = Vec::new();
        let mut k: usize = 0;
        while k < joins.len()
            invariant
                js == joins@,
                js == planned_joins(self.joins(), local),
                k <= joins@.len(),
                out@.len() == k,
                forall|t: int|
                    0 <= t < k ==> resolve_join(#[trigger] js[t], self.default_v4(), self.default_v6(), local)
                        == Some(out@[t]),
            decreases joins@.len() - k,
        {
            let resolved = match joins[k] {
                MulticastGroupJoin::Ipv4(group, interface) => {
                    let fallback = match local {
                        LocalAddress::V4(a) => Some(a),
                        LocalAddress::V6 => None,
                    };
                    let chosen = match interface {
                        Some(i) => Some(i),
                        None => match self.default_ipv4_interface {
                            Some(i) => Some(i),
                            None => fallback,
                        },
                    };
                    match chosen {
                        Some(i) => ResolvedJoin::Ipv4 { group, interface: i },
                        None => {
                            assert(resolve_join(js[k as int], self.default_v4(), self.default_v6(), local) is None);
                            return None;
                        },
                    }
                },
                MulticastGroupJoin::Ipv6(group, interface) => {
                    let chosen = match interface {
                        Some(i) => i,
                        None => match self.default_ipv6_interface {
                            Some(i) => i,
                            None => 0,
                        },
                    };
                    ResolvedJoin::Ipv6 { group, interface: chosen }
                },
            };
            out.push(resolved);
            k = k + 1;
        }
        Some(out)
    }
}

/// A join that names its own interface is made on that interface, whatever the defaults and
/// the socket; a join that names none uses the transport's default for its family, then
/// (IPv4) the socket's own IPv4 address or (IPv6) interface index 0.  The group is kept.
pub proof fn law_join_interface_choice(
    g4: [u8; 4],
    g6: [u8; 16],
    a: [u8; 4],
    i: u32,
    default_v4: Option<[u8; 4]>,
    default_v6: Option<u32>,
    local: LocalAddress,
)
    ensures
        resolve_join(MulticastGroupJoin::Ipv4(g4, Some(a)), default_v4, default_v6, local)
            == Some(ResolvedJoin::Ipv4 { group: g4, interface: a }),
        resolve_join(MulticastGroupJoin::Ipv6(g6, Some(i)), default_v4, default_v6, local)
            == Some(ResolvedJoin::Ipv6 { group: g6, interface: i }),
        resolve_join(MulticastGroupJoin::Ipv4(g4, None), Some(a), default_v6, local)
            == Some(ResolvedJoin::Ipv4 { group: g4, interface: a }),
        resolve_join(MulticastGroupJoin::Ipv6(g6, None), default_v4, Some(i), local)
            == Some(ResolvedJoin::Ipv6 { group: g6, interface: i }),
        resolve_join(MulticastGroupJoin::Ipv6(g6, None), default_v4, None, local)
            == Some(ResolvedJoin::Ipv6 { group: g6, interface: 0 }),
        resolve_join(MulticastGroupJoin::Ipv4(g4, None), None, default_v6, LocalAddress::V4(a))
            == Some(ResolvedJoin::Ipv4 { group: g4, interface: a }),
        resolve_join(MulticastGroupJoin::Ipv4(g4, None), None, default_v6, LocalAddress::V6) is None,
{
}

} // verus!
