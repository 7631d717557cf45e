use systemd_networkd_vpnc::agent::{reply, Agent, AgentAction, AgentEvent, AgentState};
use systemd_networkd_vpnc::caller::remote_outcome;
use systemd_networkd_vpnc::config::{Config, Reason, Route};
use systemd_networkd_vpnc::error::{EnvFailure, Error, IoFailure, IoKind};
use systemd_networkd_vpnc::params::{route_prefix, split_routes, Reading};

fn failure() -> Error {
    Error::Io(IoFailure {
        kind: IoKind::NotFound,
        message: "No such file or directory (os error 2)".to_string(),
    })
}

fn failure_message() -> String {
    "No such file or directory (os error 2)".to_string()
}

#[test]
fn a_new_agent_is_idle() {
    assert_eq!(Agent::new().current(), AgentState::Idle);
}

#[test]
fn one_connection_with_one_request() {
    let mut agent = Agent::new();
    assert_eq!(agent.step(AgentEvent::Connected { conn: 1 }), AgentAction::Receive { conn: 1 });
    assert_eq!(agent.current(), AgentState::Serving { conn: 1 });
    assert_eq!(agent.step(AgentEvent::Requested { conn: 1 }), AgentAction::Process { conn: 1 });
    assert_eq!(agent.current(), AgentState::Processing { conn: 1 });
    assert_eq!(
        agent.step(AgentEvent::Processed { result: Ok(()) }),
        AgentAction::Respond { conn: 1, reply: Ok(()) }
    );
    assert_eq!(agent.current(), AgentState::Serving { conn: 1 });
    assert_eq!(agent.step(AgentEvent::Closed { conn: 1 }), AgentAction::Accept);
    assert_eq!(agent.current(), AgentState::Idle);
}

#[test]
fn a_connection_may_send_several_requests_in_turn() {
    let mut agent = Agent::new();
    agent.step(AgentEvent::Connected { conn: 4 });
    for _ in 0..3 {
        assert_eq!(agent.step(AgentEvent::Requested { conn: 4 }), AgentAction::Process { conn: 4 });
        assert_eq!(
            agent.step(AgentEvent::Processed { result: Ok(()) }),
            AgentAction::Respond { conn: 4, reply: Ok(()) }
        );
    }
    assert_eq!(agent.step(AgentEvent::Closed { conn: 4 }), AgentAction::Accept);
}

#[test]
fn a_second_connection_waits_until_the_first_has_ended() {
    let mut agent = Agent::new();
    agent.step(AgentEvent::Connected { conn: 1 });
    agent.step(AgentEvent::Requested { conn: 1 });

    // The second connection turns up while the first is in the middle of
    // its request: nothing is done for it.
    assert_eq!(agent.step(AgentEvent::Connected { conn: 2 }), AgentAction::Wait);
    assert_eq!(agent.step(AgentEvent::Requested { conn: 2 }), AgentAction::Wait);
    assert_eq!(agent.current(), AgentState::Processing { conn: 1 });

    assert_eq!(
        agent.step(AgentEvent::Processed { result: Ok(()) }),
        AgentAction::Respond { conn: 1, reply: Ok(()) }
    );
    // Nor between two requests of the first.
    assert_eq!(agent.step(AgentEvent::Connected { conn: 2 }), AgentAction::Wait);
    assert_eq!(agent.step(AgentEvent::Requested { conn: 2 }), AgentAction::Wait);
    assert_eq!(agent.step(AgentEvent::Closed { conn: 2 }), AgentAction::Wait);
    assert_eq!(agent.current(), AgentState::Serving { conn: 1 });

    // Once the first has ended, the second is served.
    assert_eq!(agent.step(AgentEvent::Closed { conn: 1 }), AgentAction::Accept);
    assert_eq!(agent.step(AgentEvent::Connected { conn: 2 }), AgentAction::Receive { conn: 2 });
    assert_eq!(agent.step(AgentEvent::Requested { conn: 2 }), AgentAction::Process { conn: 2 });
}

#[test]
fn the_end_of_a_connection_is_not_seen_while_its_request_is_processed() {
    let mut agent = Agent::new();
    agent.step(AgentEvent::Connected { conn: 1 });
    agent.step(AgentEvent::Requested { conn: 1 });
    assert_eq!(agent.step(AgentEvent::Closed { conn: 1 }), AgentAction::Wait);
    assert_eq!(agent.step(AgentEvent::Requested { conn: 1 }), AgentAction::Wait);
    assert_eq!(agent.current(), AgentState::Processing { conn: 1 });
}

#[test]
fn an_idle_agent_looks_for_connections_only() {
    let mut agent = Agent::new();
    assert_eq!(agent.step(AgentEvent::Requested { conn: 1 }), AgentAction::Wait);
    assert_eq!(agent.step(AgentEvent::Closed { conn: 1 }), AgentAction::Wait);
    assert_eq!(agent.step(AgentEvent::Processed { result: Ok(()) }), AgentAction::Wait);
    assert_eq!(agent.current(), AgentState::Idle);
}

#[test]
fn a_failure_is_reported_and_the_agent_goes_on() {
    let mut agent = Agent::new();
    agent.step(AgentEvent::Connected { conn: 1 });
    agent.step(AgentEvent::Requested { conn: 1 });
    assert_eq!(
        agent.step(AgentEvent::Processed { result: Err(failure()) }),
        AgentAction::Respond { conn: 1, reply: Err(failure_message()) }
    );
    assert_eq!(agent.current(), AgentState::Serving { conn: 1 });

    // The same connection can go on.
    assert_eq!(agent.step(AgentEvent::Requested { conn: 1 }), AgentAction::Process { conn: 1 });
    assert_eq!(
        agent.step(AgentEvent::Processed { result: Ok(()) }),
        AgentAction::Respond { conn: 1, reply: Ok(()) }
    );

    // And so can the next.
    assert_eq!(agent.step(AgentEvent::Closed { conn: 1 }), AgentAction::Accept);
    assert_eq!(agent.step(AgentEvent::Connected { conn: 2 }), AgentAction::Receive { conn: 2 });
}

#[test]
fn replies_carry_the_message_of_the_failure() {
    assert_eq!(reply(Ok(())), Ok(()));
    assert_eq!(reply(Err(failure())), Err(failure_message()));
    assert_eq!(
        reply(Err(Error::Env(EnvFailure::MissingValue("reason".to_string())))),
        Err("missing value for field reason".to_string())
    );
    assert_eq!(
        reply(Err(Error::Env(EnvFailure::Custom("invalid digit found in string".to_string())))),
        Err("invalid digit found in string".to_string())
    );
    assert_eq!(reply(Err(Error::Anyhow("whoops".to_string()))), Err("whoops".to_string()));
}

#[test]
fn messages_of_failures() {
    assert_eq!(failure().message(), failure_message());
    assert_eq!(
        Error::Env(EnvFailure::MissingValue("internal_ip4_netaddr".to_string())).message(),
        "missing value for field internal_ip4_netaddr"
    );
    assert_eq!(Error::Env(EnvFailure::Custom("bad".to_string())).message(), "bad");
    assert_eq!(Error::Anyhow("remote".to_string()).message(), "remote");
}

#[test]
fn the_caller_turns_the_reply_into_its_result() {
    assert_eq!(remote_outcome(Ok(())), Ok(()));
    assert_eq!(
        remote_outcome(Err("Permission denied (os error 13)".to_string())),
        Err(Error::Anyhow("Permission denied (os error 13)".to_string()))
    );
}

#[test]
fn a_failure_keeps_its_words_across_the_channel() {
    let seen = remote_outcome(reply(Err(failure()))).unwrap_err();
    assert_eq!(seen.message(), failure().message());
}

#[test]
fn route_groups_are_numbered_from_zero() {
    assert_eq!(route_prefix(0), "CISCO_SPLIT_INC_0_");
    assert_eq!(route_prefix(1), "CISCO_SPLIT_INC_1_");
    assert_eq!(route_prefix(12), "CISCO_SPLIT_INC_12_");
}

fn announcing(count: usize) -> Config {
    Config {
        reason: Reason::Connect,
        vpngateway: "192.0.2.1".to_string(),
        tundev: "tun0".to_string(),
        address: "10.0.0.5".to_string(),
        mtu: None,
        netmask: None,
        netmasklen: 32,
        netaddr: None,
        dns: None,
        nbns: None,
        def_domain: None,
        banner: None,
        split_routes_inc: count,
    }
}

fn net(addr: &str, masklen: u8) -> Route {
    Route {
        addr: addr.to_string(),
        mask: String::new(),
        masklen,
        protocol: 0,
        sport: 0,
        dport: 0,
    }
}

/// Reads the routes of an event whose groups hold `entries`, and returns
/// the prefixes that were asked for and the result.
fn read(
    count: usize,
    entries: Vec<Result<Route, EnvFailure>>,
) -> (Vec<String>, Result<Vec<Route>, Error>) {
    let mut asked = Vec::new();
    let mut entries = entries.into_iter();
    let mut reading = split_routes(&announcing(count));
    loop {
        match reading {
            Reading::Done(routes) => return (asked, routes),
            Reading::Group(prefix, reader) => {
                asked.push(prefix);
                reading = reader.accept(entries.next().expect("a group that is not there"));
            }
        }
    }
}

#[test]
fn an_event_without_split_routes_reads_nothing() {
    assert_eq!(split_routes(&announcing(0)), Reading::Done(Ok(vec![])));
}

#[test]
fn routes_are_read_group_by_group_and_kept_in_order() {
    let (asked, routes) = read(2, vec![Ok(net("10.0.0.0", 8)), Ok(net("172.16.0.0", 12))]);
    assert_eq!(asked, vec!["CISCO_SPLIT_INC_0_", "CISCO_SPLIT_INC_1_"]);
    assert_eq!(routes, Ok(vec![net("10.0.0.0", 8), net("172.16.0.0", 12)]));
}

#[test]
fn exactly_as_many_routes_are_read_as_are_announced() {
    let entries = (0..11).map(|n| Ok(net("10.0.0.0", n))).collect();
    let (asked, routes) = read(11, entries);
    assert_eq!(asked.len(), 11);
    assert_eq!(asked.last().unwrap(), "CISCO_SPLIT_INC_10_");
    assert_eq!(routes.unwrap().len(), 11);
}

#[test]
fn the_first_route_that_cannot_be_read_fails_them_all() {
    let entries = vec![
        Ok(net("10.0.0.0", 8)),
        Err(EnvFailure::MissingValue("addr".to_string())),
    ];
    let (asked, routes) = read(4, entries);
    assert_eq!(asked, vec!["CISCO_SPLIT_INC_0_", "CISCO_SPLIT_INC_1_"]);
    assert_eq!(routes, Err(Error::Env(EnvFailure::MissingValue("addr".to_string()))));
}

#[test]
fn a_malformed_route_fails_with_its_message() {
    let entries = vec![Err(EnvFailure::Custom("invalid digit found in string".to_string()))];
    let (asked, routes) = read(usize::MAX, entries);
    assert_eq!(asked, vec!["CISCO_SPLIT_INC_0_"]);
    assert_eq!(
        routes,
        Err(Error::Env(EnvFailure::Custom("invalid digit found in string".to_string())))
    );
}
