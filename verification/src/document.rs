//! The text of the `.network` file, piece by piece.
//!
//! Each piece is written to the file in one go. The pieces come in a fixed
//! order: link, address and host route; the route of the netmask; the split
//! routes; match and network; the default route; the search domain; the name
//! servers.

use crate::text::{decimal, push_decimal};
use vstd::prelude::*;
use vstd::string::*;

verus! {

/// The directory in which systemd-networkd looks for its configuration.
pub open spec fn config_dir() -> Seq<char> {
    "/etc/systemd/network/"@
}

/// The configuration file of the tunnel device `tundev`.
pub open spec fn network_file_of(tundev: Seq<char>) -> Seq<char> {
    config_dir() + tundev + ".network"@
}

/// The MTU to configure: the one given, else 1412.
pub open spec fn effective_mtu(mtu: Option<u32>) -> nat {
    match mtu {
        Some(m) => m as nat,
        None => 1412,
    }
}

/// Link, address and the host route. The gateway of the host route is the
/// internal address itself.
pub open spec fn head_text(mtu: Option<u32>, address: Seq<char>) -> Seq<char> {
    "\n[Link]\nMTUBytes="@ + decimal(effective_mtu(mtu)) + "\n\n[Address]\nAddress="@ + address
        + "/32\n\n[Route]\nDestination="@ + address + "/32\nGateway="@ + address + "\n\n"@
}

/// The link-scoped route to the network that the netmask describes.
pub open spec fn netmask_text(netaddr: Seq<char>, netmasklen: u8) -> Seq<char> {
    "\n[Route]\nDestination="@ + netaddr + "/"@ + decimal(netmasklen as nat) + "\nScope=link\n\n"@
}

/// The link-scoped route of one split route.
pub open spec fn route_text(addr: Seq<char>, masklen: u8) -> Seq<char> {
    "\n[Route]\nScope=link\nDestination="@ + addr + "/"@ + decimal(masklen as nat) + "\n\n"@
}

/// Match on the tunnel device, and the network section.
pub open spec fn match_text(tundev: Seq<char>, vpngateway: Seq<char>) -> Seq<char> {
    "\n[Match]\nName="@ + tundev + "\n\n[Network]\nDescription=Cisco VPN to "@ + vpngateway
        + "\nDHCP=no\nIPv6AcceptRA=no\n\n"@
}

/// The directive that makes the tunnel the default route.
pub open spec fn default_route_text() -> Seq<char> {
    "DefaultRouteOnDevice=yes\n"@
}

/// The search domain.
pub open spec fn domains_text(domain: Seq<char>) -> Seq<char> {
    "Domains="@ + domain + "\n"@
}

/// One name server.
pub open spec fn dns_text(server: Seq<char>) -> Seq<char> {
    "DNS="@ + server + "\n"@
}

/// What the user is shown of the connect banner.
pub open spec fn banner_text(banner: Seq<char>) -> Seq<char> {
    "Connect Banner:\n"@ + banner + "\n"@
}

/// The destination that stands for "everything": a split route to it asks
/// for the default route and is not written as a route of its own.
pub open spec fn any_destination() -> Seq<char> {
    "0.0.0.0"@
}

/// The path of the configuration file of the tunnel device `tundev`.
pub fn network_file(tundev: &str) -> (path: String)
    ensures
        path@ == network_file_of(tundev@),
{
    let mut path = String::from_str("/etc/systemd/network/");
    path.append(tundev);
    path.append(".network");
    path
}

/// The text of the link and address sections and of the host route.
pub fn head_stanza(mtu: Option<u32>, address: &str) -> (text: String)
    ensures
        text@ == head_text(mtu, address@),
{
    let mtu_bytes: u32 = match mtu {
        Some(m) => m,
        None => 1412,
    };
    let mut text = String::from_str("\n[Link]\nMTUBytes=");
    push_decimal(&mut text, mtu_bytes as u64);
    text.append("\n\n[Address]\nAddress=");
    text.append(address);
    text.append("/32\n\n[Route]\nDestination=");
    text.append(address);
    text.append("/32\nGateway=");
    text.append(address);
    text.append("\n\n");
    text
}

/// The text of the route to the network of the netmask.
pub fn netmask_stanza(netaddr: &str, netmasklen: u8) -> (text: String)
    ensures
        text@ == netmask_text(netaddr@, netmasklen),
{
    let mut text = String::from_str("\n[Route]\nDestination=");
    text.append(netaddr);
    text.append("/");
    push_decimal(&mut text, netmasklen as u64);
    text.append("\nScope=link\n\n");
    text
}

/// The text of the route of one split route.
pub fn route_stanza(addr: &str, masklen: u8) -> (text: String)
    ensures
        text@ == route_text(addr@, masklen),
{
    let mut text = String::from_str("\n[Route]\nScope=link\nDestination=");
    text.append(addr);
    text.append("/");
    push_decimal(&mut text, masklen as u64);
    text.append("\n\n");
    text
}

/// The text of the match and network sections.
pub fn match_stanza(tundev: &str, vpngateway: &str) -> (text: String)
    ensures
        text@ == match_text(tundev@, vpngateway@),
{
    let mut text = String::from_str("\n[Match]\nName=");
    text.append(tundev);
    text.append("\n\n[Network]\nDescription=Cisco VPN to ");
    text.append(vpngateway);
    text.append("\nDHCP=no\nIPv6AcceptRA=no\n\n");
    text
}

/// The line that makes the tunnel the default route.
pub fn default_route_line() -> (text: String)
    ensures
        text@ == default_route_text(),
{
    String::from_str("DefaultRouteOnDevice=yes\n")
}

/// The line of the search domain.
pub fn domains_line(domain: &str) -> (text: String)
    ensures
        text@ == domains_text(domain@),
{
    let mut text = String::from_str("Domains=");
    text.append(domain);
    text.append("\n");
    text
}

/// The line of one name server.
pub fn dns_line(server: &str) -> (text: String)
    ensures
        text@ == dns_text(server@),
{
    let mut text = String::from_str("DNS=");
    text.append(server);
    text.append("\n");
    text
}

/// What the user is shown of the connect banner.
pub fn banner_notice(banner: &str) -> (text: String)
    ensures
        text@ == banner_text(banner@),
{
    let mut text = String::from_str("Connect Banner:\n");
    text.append(banner);
    text.append("\n");
    text
}

/// Whether `addr` is the destination that stands for "everything".
pub fn is_any_destination(addr: &String) -> (yes: bool)
    ensures
        yes == (addr@ == any_destination()),
{
    let any = String::from_str("0.0.0.0");
    *addr == any
}

} // verus!
