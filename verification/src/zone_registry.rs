//! The world server's table of running zone servers, and the routing
//! record a client is given to reach one.
use std::collections::HashMap;

use vstd::prelude::*;
use vstd::utf8::encode_utf8;

use crate::session::PeerAddr;

verus! {

broadcast use vstd::std_specs::hash::group_hash_axioms;

/// Lifecycle of a zone server.
#[derive(Debug, Clone, Copy, PartialEq, Eq)]
pub enum ZoneState {
    Booting,
    Running,
    ShuttingDown,
}

/// A running zone server.
#[derive(Debug)]
pub struct ZoneInstance {
    pub zone_id: i32,
    pub zone_short_name: String,
    pub addr: PeerAddr,
    pub player_count: u32,
    pub state: ZoneState,
}

/// The zone servers, by zone id.
pub struct ZoneRegistry {
    zones: HashMap<i32, ZoneInstance>,
}

impl View for ZoneRegistry {
    type V = Map<i32, ZoneInstance>;

    closed spec fn view(&self) -> Map<i32, ZoneInstance> {
        self.zones@
    }
}

impl ZoneRegistry {
    /// No zones.
    pub fn new() -> (r: Self)
        ensures
            r@ == Map::<i32, ZoneInstance>::empty(),
    {
        ZoneRegistry { zones: HashMap::new() }
    }

    /// Records a running zone server with no players, replacing any earlier
    /// record of the zone.
    pub fn register(&mut self, zone_id: i32, zone_short_name: String, addr: PeerAddr)
        ensures
            final(self)@ == old(self)@.insert(
                zone_id,
                ZoneInstance {
                    zone_id,
                    zone_short_name,
                    addr,
                    player_count: 0,
                    state: ZoneState::Running,
                },
            ),
    {
        self.zones.insert(
            zone_id,
            ZoneInstance { zone_id, zone_short_name, addr, player_count: 0, state: ZoneState::Running },
        );
    }

    /// Forgets a zone server.
    pub fn unregister(&mut self, zone_id: i32)
        ensures
            final(self)@ == old(self)@.remove(zone_id),
    {
        self.zones.remove(&zone_id);
    }

    /// The server of a zone.
    pub fn find_by_zone_id(&self, zone_id: i32) -> (z: Option<&ZoneInstance>)
        ensures
            match z {
                Some(i) => self@.contains_key(zone_id) && *i == self@[zone_id],
                None => !self@.contains_key(zone_id),
            },
    {
        self.zones.get(&zone_id)
    }

    /// A server whose zone has the given short name; which one, when
    /// several do, is unspecified.
    pub fn find_by_name(&self, short_name: &str) -> (z: Option<&ZoneInstance>)
        ensures
            match z {
                Some(i) => self@.values().contains(*i) && i.zone_short_name@ == short_name@,
                None => forall|i: ZoneInstance|
                    #[trigger] self@.values().contains(i) ==> i.zone_short_name@ != short_name@,
            },
    {
        let wanted: String = short_name.to_owned();
        let values = self.zones.values();
        let ghost all = vstd::std_specs::iter::IteratorSpec::remaining(&values);
        proof {
            assert(all.unref().to_set() == self@.values());
        }
        for z in it: values
            invariant
                it.seq() == all,
                all.unref().to_set() == self@.values(),
                wanted@ == short_name@,
                forall|j: int|
                    0 <= j < it.index() ==> (#[trigger] all[j]).zone_short_name@ != short_name@,
        {
            proof {
                assert(all.unref()[it.index() as int] == *z);
                assert(all.unref().to_set().contains(*z));
            }
            if z.zone_short_name == wanted {
                return Some(z);
            }
        }
        proof {
            assert forall|i: ZoneInstance| #[trigger] self@.values().contains(i) implies i.zone_short_name@
                != short_name@ by {
                assert(all.unref().to_set().contains(i));
                let j = choose|j: int| 0 <= j < all.unref().len() && all.unref()[j] == i;
                assert(all[j].zone_short_name@ != short_name@);
            }
        }
        None
    }

    /// All zone servers, in no particular order.
    pub fn all_zones(&self) -> (zs: Vec<&ZoneInstance>)
        ensures
            zs@.unref().to_set() == self@.values(),
            zs@.len() == self@.len(),
    {
        let mut zs: Vec<&ZoneInstance> = Vec::new();
        let values = self.zones.values();
        let ghost all = vstd::std_specs::iter::IteratorSpec::remaining(&values);
        proof {
            assert(all.unref().to_set() == self@.values());
            assert(all.len() == self@.dom().len());
        }
        for z in it: values
            invariant
                it.seq() == all,
                zs@ == all.take(it.index() as int),
        {
            zs.push(z);
            assert(zs@ =~= all.take(it.index() + 1));
        }
        assert(zs@ =~= all);
        zs
    }

    /// Number of zone servers.
    pub fn zone_count(&self) -> (n: usize)
        ensures
            n == self@.len(),
    {
        self.zones.len()
    }
}

/// Where a client must connect to enter a zone.
#[derive(Debug)]
pub struct ZoneRouteInfo {
    pub ip: String,
    pub port: u16,
    pub zone_id: i32,
    pub zone_short_name: String,
}

/// The route to a zone's server, when one is registered.
pub fn route_for_zone(registry: &ZoneRegistry, zone_id: i32) -> (r: Option<ZoneRouteInfo>)
    ensures
        match r {
            Some(route) => registry@.contains_key(zone_id) && route.ip@ == registry@[zone_id].addr.ip@
                && route.port == registry@[zone_id].addr.port && route.zone_id
                == registry@[zone_id].zone_id && route.zone_short_name@
                == registry@[zone_id].zone_short_name@,
            None => !registry@.contains_key(zone_id),
        },
{
    match registry.find_by_zone_id(zone_id) {
        Some(instance) => Some(
            ZoneRouteInfo {
                ip: instance.addr.ip.clone(),
                port: instance.addr.port,
                zone_id: instance.zone_id,
                zone_short_name: instance.zone_short_name.clone(),
            },
        ),
        None => None,
    }
}

/// Size of the zone-server-info message.
pub const ZONE_SERVER_INFO_SIZE: usize = 130;

/// The zone-server-info message for a route: the IP text (at most 127
/// bytes, zero-padded) and the port, little-endian, at the end.
pub open spec fn zone_server_info_spec(ip_bytes: Seq<u8>, port: u16) -> Seq<u8> {
    let n = if ip_bytes.len() < 127 {
        ip_bytes.len()
    } else {
        127
    };
    Seq::new(
        130,
        |i: int|
            if i < n {
                ip_bytes[i]
            } else if i == 128 {
                (port & 0xff) as u8
            } else if i == 129 {
                (port >> 8) as u8
            } else {
                0u8
            },
    )
}

/// Builds the zone-server-info message that points a client at a zone.
pub fn build_zone_server_info_bytes(route: &ZoneRouteInfo) -> (buf: [u8; 130])
    ensures
        buf@ == zone_server_info_spec(encode_utf8(route.ip@), route.port),
{
    let mut buf = [0u8; 130];
    let ip_bytes = route.ip.as_str().as_bytes();
    let len = if ip_bytes.len() < 127 {
        ip_bytes.len()
    } else {
        127
    };
    let ghost target = zone_server_info_spec(ip_bytes@, route.port);
    let mut i: usize = 0;
    while i < len
        invariant
            i <= len,
            len <= 127,
            len <= ip_bytes@.len(),
            len == (if ip_bytes@.len() < 127 {
                ip_bytes@.len()
            } else {
                127
            }),
            buf@.len() == 130,
            forall|k: int| 0 <= k < i ==> buf@[k] == ip_bytes@[k],
            forall|k: int| i <= k < 130 ==> buf@[k] == 0,
        decreases len - i,
    {
        buf[i] = ip_bytes[i];
        i = i + 1;
    }
    buf[128] = (route.port & 0xFF) as u8;
    buf[129] = (route.port >> 8) as u8;
    assert(buf@ =~= target);
    buf
}

} // verus!
