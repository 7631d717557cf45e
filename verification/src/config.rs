//! The parameters of one lifecycle event and the routes that come with it.

use vstd::prelude::*;

verus! {

/// Why the VPN client raised the event.
#[derive(Clone, Copy, Debug, PartialEq, Eq, Structural)]
pub enum Reason {
    Connect,
    Disconnect,
    PreInit,
    AttemptReconnect,
    Reconnect,
}

/// One split-tunnel route.
#[derive(Clone, Debug, PartialEq, Eq)]
pub struct Route {
    pub addr: String,
    pub mask: String,
    pub masklen: u8,
    pub protocol: u8,
    pub sport: u16,
    pub dport: u16,
}

/// What a `Route` holds, as mathematical values.
pub struct RouteView {
    pub addr: Seq<char>,
    pub mask: Seq<char>,
    pub masklen: u8,
    pub protocol: u8,
    pub sport: u16,
    pub dport: u16,
}

impl View for Route {
    type V = RouteView;

    open spec fn view(&self) -> RouteView {
        RouteView {
            addr: self.addr@,
            mask: self.mask@,
            masklen: self.masklen,
            protocol: self.protocol,
            sport: self.sport,
            dport: self.dport,
        }
    }
}

impl Route {
    /// The protocol of a route that names none.
    pub fn default_protocol() -> (protocol: u8)
        ensures
            protocol == 0,
    {
        0
    }

    /// The port of a route that names none.
    pub fn default_port() -> (port: u16)
        ensures
            port == 0,
    {
        0
    }
}

/// The parameters of one lifecycle event.
#[derive(Clone, Debug, PartialEq, Eq)]
pub struct Config {
    pub reason: Reason,
    pub vpngateway: String,
    pub tundev: String,
    pub address: String,
    pub mtu: Option<u32>,
    pub netmask: Option<String>,
    pub netmasklen: u8,
    pub netaddr: Option<String>,
    pub dns: Option<String>,
    pub nbns: Option<String>,
    pub def_domain: Option<String>,
    pub banner: Option<String>,
    pub split_routes_inc: usize,
}

/// What a `Config` holds, as mathematical values.
pub struct ConfigView {
    pub reason: Reason,
    pub vpngateway: Seq<char>,
    pub tundev: Seq<char>,
    pub address: Seq<char>,
    pub mtu: Option<u32>,
    pub netmask: Option<Seq<char>>,
    pub netmasklen: u8,
    pub netaddr: Option<Seq<char>>,
    pub dns: Option<Seq<char>>,
    pub nbns: Option<Seq<char>>,
    pub def_domain: Option<Seq<char>>,
    pub banner: Option<Seq<char>>,
    pub split_routes_inc: nat,
}

/// The characters of an optional string.
pub open spec fn opt_text(s: Option<String>) -> Option<Seq<char>> {
    match s {
        Some(t) => Some(t@),
        None => None,
    }
}

/// The views of a list of routes, in order.
pub open spec fn route_views(routes: Seq<Route>) -> Seq<RouteView> {
    Seq::new(routes.len(), |i: int| routes[i]@)
}

impl View for Config {
    type V = ConfigView;

    open spec fn view(&self) -> ConfigView {
        ConfigView {
            reason: self.reason,
            vpngateway: self.vpngateway@,
            tundev: self.tundev@,
            address: self.address@,
            mtu: self.mtu,
            netmask: opt_text(self.netmask),
            netmasklen: self.netmasklen,
            netaddr: opt_text(self.netaddr),
            dns: opt_text(self.dns),
            nbns: opt_text(self.nbns),
            def_domain: opt_text(self.def_domain),
            banner: opt_text(self.banner),
            split_routes_inc: self.split_routes_inc as nat,
        }
    }
}

impl Config {
    /// The netmask length of an event that names none: a host address.
    pub fn default_netmasklen() -> (len: u8)
        ensures
            len == 32,
    {
        32
    }

    /// The number of split routes of an event that names none.
    pub fn default_split_routes() -> (count: usize)
        ensures
            count == 0,
    {
        0
    }
}

} // verus!
