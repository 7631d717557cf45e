use systemd_networkd_vpnc::config::{Config, Reason, Route};
use systemd_networkd_vpnc::error::{EnvFailure, Error};
use systemd_networkd_vpnc::plan::{Changed, Step, Synthesis};
use systemd_networkd_vpnc::process::Process;

const FILE: &str = "/etc/systemd/network/tun0.network";

const HEAD: &str = "\n[Link]\nMTUBytes=1412\n\n[Address]\nAddress=10.0.0.5/32\n\n[Route]\nDestination=10.0.0.5/32\nGateway=10.0.0.5\n\n";

const NETWORK: &str = "\n[Match]\nName=tun0\n\n[Network]\nDescription=Cisco VPN to vpn.example.com\nDHCP=no\nIPv6AcceptRA=no\n\n";

fn event(reason: Reason) -> Config {
    Config {
        reason,
        vpngateway: "vpn.example.com".to_string(),
        tundev: "tun0".to_string(),
        address: "10.0.0.5".to_string(),
        mtu: None,
        netmask: None,
        netmasklen: Config::default_netmasklen(),
        netaddr: None,
        dns: None,
        nbns: None,
        def_domain: None,
        banner: None,
        split_routes_inc: Config::default_split_routes(),
    }
}

fn route(addr: &str, mask: &str, masklen: u8) -> Route {
    Route {
        addr: addr.to_string(),
        mask: mask.to_string(),
        masklen,
        protocol: Route::default_protocol(),
        sport: Route::default_port(),
        dport: Route::default_port(),
    }
}

fn synthesize(config: Config, routes: Vec<Route>) -> Synthesis {
    Process::new(config, routes).run()
}

/// The text of the file once all the steps have been performed.
fn written(steps: &[Step]) -> String {
    let mut file = String::new();
    for step in steps {
        if let Step::Append { path, text } = step {
            assert_eq!(path, FILE);
            file.push_str(text);
        }
    }
    file
}

fn append(text: &str) -> Step {
    Step::Append { path: FILE.to_string(), text: text.to_string() }
}

fn opening() -> Vec<Step> {
    vec![
        Step::EnsureParentDir { path: FILE.to_string() },
        Step::CreateFile { path: FILE.to_string() },
        append(HEAD),
    ]
}

#[test]
fn defaults_are_those_of_an_event_that_names_none() {
    assert_eq!(Route::default_protocol(), 0);
    assert_eq!(Route::default_port(), 0);
    assert_eq!(Config::default_netmasklen(), 32);
    assert_eq!(Config::default_split_routes(), 0);
}

#[test]
fn pre_init_touches_nothing() {
    let decided = synthesize(event(Reason::PreInit), vec![]);
    assert_eq!(decided.steps, vec![]);
    assert_eq!(decided.outcome, Ok(Changed::No));
}

#[test]
fn attempt_reconnect_touches_nothing() {
    let decided = synthesize(event(Reason::AttemptReconnect), vec![]);
    assert_eq!(decided.steps, vec![]);
    assert_eq!(decided.outcome, Ok(Changed::No));
}

#[test]
fn reconnect_touches_nothing_even_with_routes_and_names() {
    let mut config = event(Reason::Reconnect);
    config.dns = Some("8.8.8.8".to_string());
    config.banner = Some("hello".to_string());
    config.split_routes_inc = 1;
    let decided = synthesize(config, vec![route("192.168.1.0", "255.255.255.0", 24)]);
    assert_eq!(decided.steps, vec![]);
    assert_eq!(decided.outcome, Ok(Changed::No));
}

#[test]
fn the_methods_of_the_quiet_reasons_agree_with_run() {
    let process = Process::new(event(Reason::Connect), vec![]);
    for decided in [process.pre_init(), process.attempt_reconnect(), process.reconnect()] {
        assert_eq!(decided.steps, vec![]);
        assert_eq!(decided.outcome, Ok(Changed::No));
    }
}

#[test]
fn disconnect_removes_the_file_of_the_device() {
    let decided = synthesize(event(Reason::Disconnect), vec![]);
    assert_eq!(decided.steps, vec![Step::RemoveFile { path: FILE.to_string() }]);
    assert_eq!(decided.outcome, Ok(Changed::Yes));
}

#[test]
fn disconnect_names_the_file_after_the_device() {
    let mut config = event(Reason::Disconnect);
    config.tundev = "vpn.0".to_string();
    let decided = synthesize(config, vec![]);
    assert_eq!(
        decided.steps,
        vec![Step::RemoveFile { path: "/etc/systemd/network/vpn.0.network".to_string() }]
    );
}

#[test]
fn plain_connect_writes_host_address_and_default_route() {
    let decided = synthesize(event(Reason::Connect), vec![]);
    assert_eq!(decided.outcome, Ok(Changed::Yes));
    let mut expected = opening();
    expected.push(append(NETWORK));
    expected.push(append("DefaultRouteOnDevice=yes\n"));
    assert_eq!(decided.steps, expected);

    let file = written(&decided.steps);
    assert!(file.contains("[Link]\nMTUBytes=1412\n"));
    assert!(file.contains("[Address]\nAddress=10.0.0.5/32\n"));
    assert!(file.contains("[Route]\nDestination=10.0.0.5/32\nGateway=10.0.0.5\n"));
    assert!(file.contains("[Match]\nName=tun0\n"));
    assert!(file.contains("DefaultRouteOnDevice=yes\n"));
    assert_eq!(file, format!("{}{}DefaultRouteOnDevice=yes\n", HEAD, NETWORK));
}

#[test]
fn connect_takes_the_mtu_that_is_given() {
    let mut config = event(Reason::Connect);
    config.mtu = Some(1300);
    let file = written(&synthesize(config, vec![]).steps);
    assert!(file.starts_with("\n[Link]\nMTUBytes=1300\n\n[Address]\n"));
    assert!(!file.contains("1412"));
}

#[test]
fn connect_with_an_empty_address_writes_it_empty_and_no_default_route() {
    let mut config = event(Reason::Connect);
    config.address = String::new();
    let decided = synthesize(config, vec![]);
    assert_eq!(decided.outcome, Ok(Changed::Yes));
    let file = written(&decided.steps);
    assert!(file.contains("[Address]\nAddress=/32\n"));
    assert!(file.contains("[Route]\nDestination=/32\nGateway=\n"));
    assert!(!file.contains("DefaultRouteOnDevice"));
}

#[test]
fn gateway_of_the_host_route_is_the_address_not_the_vpn_gateway() {
    let file = written(&synthesize(event(Reason::Connect), vec![]).steps);
    assert!(file.contains("Gateway=10.0.0.5\n"));
    assert!(!file.contains("Gateway=vpn.example.com"));
    assert!(file.contains("Description=Cisco VPN to vpn.example.com\n"));
}

#[test]
fn split_route_to_everything_sets_the_default_route_and_writes_no_route() {
    let mut config = event(Reason::Connect);
    config.split_routes_inc = 1;
    let decided = synthesize(config, vec![route("0.0.0.0", "0.0.0.0", 0)]);
    let mut expected = opening();
    expected.push(append(NETWORK));
    expected.push(append("DefaultRouteOnDevice=yes\n"));
    assert_eq!(decided.steps, expected);
    let file = written(&decided.steps);
    assert!(file.contains("DefaultRouteOnDevice=yes\n"));
    assert!(!file.contains("Destination=0.0.0.0"));
    assert_eq!(file.matches("[Route]").count(), 1);
}

#[test]
fn split_route_to_a_network_writes_its_route_and_no_default_route() {
    let mut config = event(Reason::Connect);
    config.split_routes_inc = 1;
    let decided = synthesize(config, vec![route("192.168.1.0", "255.255.255.0", 24)]);
    let mut expected = opening();
    expected.push(append("\n[Route]\nScope=link\nDestination=192.168.1.0/24\n\n"));
    expected.push(append(NETWORK));
    assert_eq!(decided.steps, expected);
    let file = written(&decided.steps);
    assert!(file.contains("[Route]\nScope=link\nDestination=192.168.1.0/24\n"));
    assert!(!file.contains("DefaultRouteOnDevice=yes"));
}

#[test]
fn split_routes_keep_their_order() {
    let mut config = event(Reason::Connect);
    config.split_routes_inc = 3;
    let routes = vec![
        route("172.16.0.0", "255.240.0.0", 12),
        route("0.0.0.0", "0.0.0.0", 0),
        route("192.168.1.0", "255.255.255.0", 24),
    ];
    let decided = synthesize(config, routes);
    let mut expected = opening();
    expected.push(append("\n[Route]\nScope=link\nDestination=172.16.0.0/12\n\n"));
    expected.push(append("\n[Route]\nScope=link\nDestination=192.168.1.0/24\n\n"));
    expected.push(append(NETWORK));
    expected.push(append("DefaultRouteOnDevice=yes\n"));
    assert_eq!(decided.steps, expected);
}

#[test]
fn routes_are_ignored_where_the_event_announces_none() {
    let config = event(Reason::Connect);
    let decided = synthesize(config, vec![route("192.168.1.0", "255.255.255.0", 24)]);
    let mut expected = opening();
    expected.push(append(NETWORK));
    expected.push(append("DefaultRouteOnDevice=yes\n"));
    assert_eq!(decided.steps, expected);
}

#[test]
fn announced_routes_that_are_missing_suppress_the_default_route() {
    let mut config = event(Reason::Connect);
    config.split_routes_inc = 2;
    let decided = synthesize(config, vec![]);
    let mut expected = opening();
    expected.push(append(NETWORK));
    assert_eq!(decided.steps, expected);
}

#[test]
fn netmask_with_its_network_writes_the_scoped_route() {
    let mut config = event(Reason::Connect);
    config.netmask = Some("255.255.255.0".to_string());
    config.netaddr = Some("10.0.0.0".to_string());
    config.netmasklen = 24;
    let decided = synthesize(config, vec![]);
    assert_eq!(decided.outcome, Ok(Changed::Yes));
    let mut expected = opening();
    expected.push(append("\n[Route]\nDestination=10.0.0.0/24\nScope=link\n\n"));
    expected.push(append(NETWORK));
    expected.push(append("DefaultRouteOnDevice=yes\n"));
    assert_eq!(decided.steps, expected);
}

#[test]
fn netmask_without_its_network_fails_after_the_head() {
    let mut config = event(Reason::Connect);
    config.netmask = Some("255.255.255.0".to_string());
    config.dns = Some("8.8.8.8".to_string());
    let decided = synthesize(config, vec![]);
    assert_eq!(
        decided.outcome,
        Err(Error::Env(EnvFailure::MissingValue("internal_ip4_netaddr".to_string())))
    );
    assert_eq!(decided.steps, opening());
}

#[test]
fn network_address_without_netmask_is_not_written() {
    let mut config = event(Reason::Connect);
    config.netaddr = Some("10.0.0.0".to_string());
    let file = written(&synthesize(config, vec![]).steps);
    assert!(!file.contains("Scope=link"));
    assert!(!file.contains("10.0.0.0"));
}

#[test]
fn name_servers_without_a_domain() {
    let mut config = event(Reason::Connect);
    config.dns = Some("8.8.8.8 8.8.4.4".to_string());
    let decided = synthesize(config, vec![]);
    let mut expected = opening();
    expected.push(append(NETWORK));
    expected.push(append("DefaultRouteOnDevice=yes\n"));
    expected.push(append("DNS=8.8.8.8\n"));
    expected.push(append("DNS=8.8.4.4\n"));
    assert_eq!(decided.steps, expected);
    let file = written(&decided.steps);
    assert!(file.ends_with("DNS=8.8.8.8\nDNS=8.8.4.4\n"));
    assert!(!file.contains("Domains="));
}

#[test]
fn name_servers_with_a_domain() {
    let mut config = event(Reason::Connect);
    config.dns = Some("8.8.8.8 8.8.4.4".to_string());
    config.def_domain = Some("example.com".to_string());
    let decided = synthesize(config, vec![]);
    let file = written(&decided.steps);
    assert!(file.contains("Domains=example.com\n"));
    assert_eq!(file.matches("DNS=").count(), 2);
    assert!(file.find("DNS=8.8.8.8\n").unwrap() < file.find("DNS=8.8.4.4\n").unwrap());
    assert!(file.ends_with("Domains=example.com\nDNS=8.8.8.8\nDNS=8.8.4.4\n"));
}

#[test]
fn a_domain_without_name_servers_is_not_written() {
    let mut config = event(Reason::Connect);
    config.def_domain = Some("example.com".to_string());
    let file = written(&synthesize(config, vec![]).steps);
    assert!(!file.contains("Domains="));
    assert!(!file.contains("DNS="));
}

#[test]
fn name_servers_are_split_at_any_ascii_whitespace() {
    let mut config = event(Reason::Connect);
    config.dns = Some(" 10.1.1.1\t10.1.1.2\n\n10.1.1.3 ".to_string());
    let file = written(&synthesize(config, vec![]).steps);
    assert!(file.ends_with("DNS=10.1.1.1\nDNS=10.1.1.2\nDNS=10.1.1.3\n"));
}

#[test]
fn name_servers_of_blanks_only_write_no_line() {
    let mut config = event(Reason::Connect);
    config.dns = Some("  ".to_string());
    config.def_domain = Some("example.com".to_string());
    let file = written(&synthesize(config, vec![]).steps);
    assert!(file.ends_with("DefaultRouteOnDevice=yes\nDomains=example.com\n"));
}

#[test]
fn the_banner_is_shown_first_and_not_written() {
    let mut config = event(Reason::Connect);
    config.banner = Some("Authorized use only".to_string());
    let decided = synthesize(config, vec![]);
    assert_eq!(
        decided.steps[0],
        Step::Notice { text: "Connect Banner:\nAuthorized use only\n".to_string() }
    );
    assert_eq!(&decided.steps[1..4], &opening()[..]);
    assert!(!written(&decided.steps).contains("Authorized"));
}

#[test]
fn connect_and_run_agree() {
    let mut config = event(Reason::Connect);
    config.dns = Some("8.8.8.8".to_string());
    config.split_routes_inc = 1;
    let routes = vec![route("192.168.1.0", "255.255.255.0", 24)];
    let process = Process::new(config, routes);
    assert_eq!(process.run(), process.connect());
    assert_ne!(process.run(), process.disconnect());
}

#[test]
fn every_step_of_a_connect_names_the_same_file() {
    let mut config = event(Reason::Connect);
    config.tundev = "tun7".to_string();
    config.netmask = Some("255.255.0.0".to_string());
    config.netaddr = Some("10.0.0.0".to_string());
    config.netmasklen = 16;
    config.dns = Some("8.8.8.8".to_string());
    config.split_routes_inc = 1;
    let decided = synthesize(config, vec![route("192.168.1.0", "255.255.255.0", 24)]);
    for step in &decided.steps {
        match step {
            Step::EnsureParentDir { path }
            | Step::CreateFile { path }
            | Step::Append { path, .. }
            | Step::RemoveFile { path } => assert_eq!(path, "/etc/systemd/network/tun7.network"),
            Step::Notice { .. } => {}
            Step::Reload => panic!("the synthesizer does not reload"),
        }
    }
}
