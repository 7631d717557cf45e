//! The configuration synthesizer: what each lifecycle event does to the
//! configuration file of its tunnel device.

use crate::config::{Config, ConfigView, Reason, Route, RouteView, route_views};
use crate::document::{
    any_destination, banner_notice, banner_text, default_route_line, default_route_text, dns_line,
    dns_text, domains_line, domains_text, head_stanza, head_text, is_any_destination, match_stanza,
    config_dir, match_text, netmask_stanza, netmask_text, network_file, network_file_of,
    route_stanza, route_text,
};
use crate::error::{EnvFailure, EnvFailureView, Error, ErrorView};
use crate::plan::{
    Changed, Step, StepView, Synthesis, SynthesisView, confined_to, lemma_confined_concat,
    step_views,
};
use crate::text::{split_words, texts, words};
use vstd::prelude::*;
use vstd::string::*;

verus! {

/// The name under which the network address of the netmask is given.
pub open spec fn netaddr_field() -> Seq<char> {
    "internal_ip4_netaddr"@
}

/// The banner, where there is one, is shown before anything else happens.
pub open spec fn notice_steps(banner: Option<Seq<char>>) -> Seq<StepView> {
    match banner {
        Some(b) => seq![StepView::Notice { text: banner_text(b) }],
        None => Seq::empty(),
    }
}

/// The file is created, after the directory that holds it, and the link,
/// address and host route are written.
pub open spec fn opening_steps(c: ConfigView, path: Seq<char>) -> Seq<StepView> {
    seq![
        StepView::EnsureParentDir { path },
        StepView::CreateFile { path },
        StepView::Append { path, text: head_text(c.mtu, c.address) },
    ]
}

/// A netmask asks for the address of its network: an event that has the
/// first without the second cannot be synthesized.
pub open spec fn pairing_broken(c: ConfigView) -> bool {
    c.netmask is Some && c.netaddr is None
}

/// The route of the netmask, where the event has a netmask.
pub open spec fn netmask_steps(c: ConfigView, path: Seq<char>) -> Seq<StepView> {
    match (c.netmask, c.netaddr) {
        (Some(_), Some(netaddr)) => seq![
            StepView::Append { path, text: netmask_text(netaddr, c.netmasklen) },
        ],
        _ => Seq::empty(),
    }
}

/// Whether a split route is written as a route of its own.
pub open spec fn writes_route(r: RouteView) -> bool {
    r.addr != any_destination()
}

/// The step that writes the split route `r`.
pub open spec fn route_step(path: Seq<char>, r: RouteView) -> StepView {
    StepView::Append { path, text: route_text(r.addr, r.masklen) }
}

/// One step for each split route that is written, in the order of `routes`.
pub open spec fn route_steps(path: Seq<char>, routes: Seq<RouteView>) -> Seq<StepView> {
    routes.filter(|r: RouteView| writes_route(r)).map_values(|r: RouteView| route_step(path, r))
}

/// The split routes count only where the event announces some.
pub open spec fn split_steps(c: ConfigView, routes: Seq<RouteView>, path: Seq<char>) -> Seq<
    StepView,
> {
    if c.split_routes_inc > 0 {
        route_steps(path, routes)
    } else {
        Seq::empty()
    }
}

/// Whether one of `routes` goes to the destination that stands for
/// "everything".
pub open spec fn has_any_destination(routes: Seq<RouteView>) -> bool {
    exists|i: int| 0 <= i < routes.len() && !writes_route(#[trigger] routes[i])
}

/// Whether the tunnel becomes the default route. Where the event announces
/// split routes, one of them has to ask for it; where it announces none, any
/// event with an internal address gets it.
pub open spec fn wants_default_route(c: ConfigView, routes: Seq<RouteView>) -> bool {
    if c.split_routes_inc > 0 {
        has_any_destination(routes)
    } else {
        c.address.len() > 0
    }
}

/// The step that writes the directive for the default route.
pub open spec fn route_to_everything(path: Seq<char>) -> StepView {
    StepView::Append { path, text: default_route_text() }
}

/// The default route follows the network section, where it is wanted.
pub open spec fn default_route_steps(c: ConfigView, routes: Seq<RouteView>, path: Seq<char>) -> Seq<
    StepView,
> {
    if wants_default_route(c, routes) {
        seq![route_to_everything(path)]
    } else {
        Seq::empty()
    }
}

/// The step that writes the search domain.
pub open spec fn domain_step(domain: Seq<char>, path: Seq<char>) -> StepView {
    StepView::Append { path, text: domains_text(domain) }
}

/// The search domain, where there is one.
pub open spec fn domain_steps(def_domain: Option<Seq<char>>, path: Seq<char>) -> Seq<StepView> {
    match def_domain {
        Some(domain) => seq![domain_step(domain, path)],
        None => Seq::empty(),
    }
}

/// The step that writes one name server.
pub open spec fn dns_step(server: Seq<char>, path: Seq<char>) -> StepView {
    StepView::Append { path, text: dns_text(server) }
}

/// One step for each name server, in the order given.
pub open spec fn dns_steps(servers: Seq<Seq<char>>, path: Seq<char>) -> Seq<StepView> {
    Seq::new(servers.len(), |i: int| dns_step(servers[i], path))
}

/// The search domain and the name servers. The search domain is written only
/// where the event has name servers too, and before them.
pub open spec fn name_steps(c: ConfigView, path: Seq<char>) -> Seq<StepView> {
    match c.dns {
        Some(dns) => domain_steps(c.def_domain, path) + dns_steps(words(dns), path),
        None => Seq::empty(),
    }
}

/// The match and network sections.
pub open spec fn network_steps(c: ConfigView, path: Seq<char>) -> Seq<StepView> {
    seq![StepView::Append { path, text: match_text(c.tundev, c.vpngateway) }]
}

/// The steps of a connect event. An event whose netmask lacks its network
/// address stops after the host route, and leaves the file as it is then.
pub open spec fn connect_steps(c: ConfigView, routes: Seq<RouteView>) -> Seq<StepView> {
    let path = network_file_of(c.tundev);
    if pairing_broken(c) {
        notice_steps(c.banner) + opening_steps(c, path)
    } else {
        notice_steps(c.banner) + opening_steps(c, path) + netmask_steps(c, path) + split_steps(
            c,
            routes,
            path,
        ) + network_steps(c, path) + default_route_steps(c, routes, path) + name_steps(c, path)
    }
}

/// What a connect event comes to when its steps have been performed.
pub open spec fn connect_outcome(c: ConfigView) -> Result<Changed, ErrorView> {
    if pairing_broken(c) {
        Err(ErrorView::Env(EnvFailureView::MissingValue(netaddr_field())))
    } else {
        Ok(Changed::Yes)
    }
}

/// The steps of a disconnect event: the removal of the configuration file.
pub open spec fn disconnect_steps(c: ConfigView) -> Seq<StepView> {
    seq![StepView::RemoveFile { path: network_file_of(c.tundev) }]
}

/// What the synthesizer decides for an event: by its reason alone, it
/// writes the file, deletes it, or leaves the filesystem alone.
pub open spec fn synthesis(c: ConfigView, routes: Seq<RouteView>) -> SynthesisView {
    match c.reason {
        Reason::Connect => SynthesisView {
            steps: connect_steps(c, routes),
            outcome: connect_outcome(c),
        },
        Reason::Disconnect => SynthesisView {
            steps: disconnect_steps(c),
            outcome: Ok(Changed::Yes),
        },
        Reason::PreInit | Reason::AttemptReconnect | Reason::Reconnect => SynthesisView {
            steps: Seq::empty(),
            outcome: Ok(Changed::No),
        },
    }
}

/// Taking one more route into account adds its step, or nothing.
pub proof fn lemma_route_steps_take(path: Seq<char>, routes: Seq<RouteView>, i: int)
    requires
        0 <= i < routes.len(),
    ensures
        writes_route(routes[i]) ==> route_steps(path, routes.take(i + 1)) == route_steps(
            path,
            routes.take(i),
        ).push(route_step(path, routes[i])),
        !writes_route(routes[i]) ==> route_steps(path, routes.take(i + 1)) == route_steps(
            path,
            routes.take(i),
        ),
{
    let written = |r: RouteView| writes_route(r);
    let step = |r: RouteView| route_step(path, r);
    let before = routes.take(i);
    assert(routes.take(i + 1) =~= before.push(routes[i]));
    before.lemma_filter_push(routes[i], written);
    before.filter(written).lemma_push_map_commute(step, routes[i]);
}

/// An event whose reason is neither connect nor disconnect leaves the
/// filesystem alone: the synthesizer asks for no step at all, and reports
/// that nothing has changed.
pub proof fn law_other_reasons_touch_nothing(c: ConfigView, routes: Seq<RouteView>)
    requires
        c.reason == Reason::PreInit || c.reason == Reason::AttemptReconnect || c.reason
            == Reason::Reconnect,
    ensures
        synthesis(c, routes).steps == Seq::<StepView>::empty(),
        synthesis(c, routes).outcome == Ok::<Changed, ErrorView>(Changed::No),
{
}

/// A disconnect asks for one step, the removal of the configuration file of
/// the tunnel device, at the configuration directory followed by the
/// device's name and `.network`. Nothing looks first whether the file is
/// there.
pub proof fn law_disconnect_removes_the_file(c: ConfigView, routes: Seq<RouteView>)
    requires
        c.reason == Reason::Disconnect,
    ensures
        synthesis(c, routes).steps.len() == 1,
        synthesis(c, routes).steps[0] is RemoveFile,
        synthesis(c, routes).steps[0].path() == Some(config_dir() + c.tundev + ".network"@),
        synthesis(c, routes).outcome == Ok::<Changed, ErrorView>(Changed::Yes),
{
}

/// A connect reports a change exactly where its netmask, if it has one, comes
/// with its network address; else it fails for want of that address.
pub proof fn law_connect_outcome(c: ConfigView, routes: Seq<RouteView>)
    requires
        c.reason == Reason::Connect,
    ensures
        synthesis(c, routes).outcome == Ok::<Changed, ErrorView>(Changed::Yes) <==> !(c.netmask
            is Some && c.netaddr is None),
        synthesis(c, routes).outcome is Err <==> c.netmask is Some && c.netaddr is None,
        synthesis(c, routes).outcome != Ok::<Changed, ErrorView>(Changed::No),
{
}

/// The synthesizer touches one file only, whatever the event: the
/// configuration file of the tunnel device. It never asks for a reload
/// itself.
pub proof fn law_only_the_network_file(c: ConfigView, routes: Seq<RouteView>)
    ensures
        confined_to(synthesis(c, routes).steps, network_file_of(c.tundev)),
{
    let path = network_file_of(c.tundev);
    match c.reason {
        Reason::Connect => {
            let opening = notice_steps(c.banner) + opening_steps(c, path);
            lemma_confined_concat(notice_steps(c.banner), opening_steps(c, path), path);
            if !pairing_broken(c) {
                lemma_confined_concat(opening, netmask_steps(c, path), path);
                let a = opening + netmask_steps(c, path);
                lemma_confined_concat(a, split_steps(c, routes, path), path);
                let b = a + split_steps(c, routes, path);
                lemma_confined_concat(b, network_steps(c, path), path);
                let d = b + network_steps(c, path);
                lemma_confined_concat(d, default_route_steps(c, routes, path), path);
                let e = d + default_route_steps(c, routes, path);
                match c.dns {
                    Some(dns) => {
                        lemma_confined_concat(
                            domain_steps(c.def_domain, path),
                            dns_steps(words(dns), path),
                            path,
                        );
                    },
                    None => {},
                }
                lemma_confined_concat(e, name_steps(c, path), path);
            }
        },
        _ => {},
    }
}

/// The default route is configured exactly where it is wanted, by one
/// directive; and every route that is written is one of the split routes,
/// none of them the one that asks for the default route.
pub proof fn law_default_route(c: ConfigView, routes: Seq<RouteView>)
    ensures
        wants_default_route(c, routes) ==> default_route_steps(c, routes, network_file_of(c.tundev))
            == seq![route_to_everything(network_file_of(c.tundev))],
        !wants_default_route(c, routes) ==> default_route_steps(
            c,
            routes,
            network_file_of(c.tundev),
        ).len() == 0,
        forall|i: int|
            0 <= i < route_steps(network_file_of(c.tundev), routes).len() ==> exists|k: int|
                0 <= k < routes.len() && writes_route(routes[k]) && #[trigger] route_steps(
                    network_file_of(c.tundev),
                    routes,
                )[i] == route_step(network_file_of(c.tundev), routes[k]),
{
    let path = network_file_of(c.tundev);
    let written = |r: RouteView| writes_route(r);
    let kept = routes.filter(written);
    assert forall|i: int| 0 <= i < route_steps(path, routes).len() implies exists|k: int|
        0 <= k < routes.len() && writes_route(routes[k]) && #[trigger] route_steps(path, routes)[i]
            == route_step(path, routes[k]) by {
        routes.lemma_filter_pred(written, i);
        assert(kept.contains(kept[i]));
        routes.lemma_filter_contains_rev(written, kept[i]);
        let k = choose|k: int| 0 <= k < routes.len() && routes[k] == kept[i];
        assert(writes_route(routes[k]));
        assert(route_steps(path, routes)[i] == route_step(path, routes[k]));
    }
}

/// The name servers are written one to a line, in the order given, whether
/// or not there is a search domain; the search domain is written, before
/// them, only where there are name servers too.
pub proof fn law_names(c: ConfigView)
    ensures
        c.dns is None ==> name_steps(c, network_file_of(c.tundev)).len() == 0,
        c.dns is Some && c.def_domain is None ==> name_steps(c, network_file_of(c.tundev))
            == dns_steps(words(c.dns->Some_0), network_file_of(c.tundev)),
        c.dns is Some && c.def_domain is Some ==> name_steps(c, network_file_of(c.tundev)) == seq![
            domain_step(c.def_domain->Some_0, network_file_of(c.tundev)),
        ] + dns_steps(words(c.dns->Some_0), network_file_of(c.tundev)),
        c.dns is Some ==> dns_steps(words(c.dns->Some_0), network_file_of(c.tundev)).len() == words(
            c.dns->Some_0,
        ).len(),
        forall|i: int|
            c.dns is Some && 0 <= i < words(c.dns->Some_0).len() ==> #[trigger] dns_steps(
                words(c.dns->Some_0),
                network_file_of(c.tundev),
            )[i] == dns_step(words(c.dns->Some_0)[i], network_file_of(c.tundev)),
{
    if c.dns is Some && c.def_domain is None {
        let path = network_file_of(c.tundev);
        assert(Seq::<StepView>::empty() + dns_steps(words(c.dns->Some_0), path) =~= dns_steps(
            words(c.dns->Some_0),
            path,
        ));
    }
}

/// One event, ready to be synthesized.
pub struct Process {
    config: Config,
    split_routes_inc: Vec<Route>,
    network_file: String,
}

impl Process {
    /// The parameters of the event.
    pub closed spec fn config(&self) -> ConfigView {
        self.config@
    }

    /// The split routes of the event.
    pub closed spec fn routes(&self) -> Seq<RouteView> {
        route_views(self.split_routes_inc@)
    }

    /// The path of the configuration file of the event's tunnel device.
    pub closed spec fn network_file(&self) -> Seq<char> {
        self.network_file@
    }

    #[verifier::type_invariant]
    spec fn well_formed(&self) -> bool {
        self.network_file@ == network_file_of(self.config.tundev@)
    }

    /// The event with the parameters `config` and the split routes
    /// `split_routes_inc`.
    pub fn new(config: Config, split_routes_inc: Vec<Route>) -> (process: Process)
        ensures
            process.config() == config@,
            process.routes() == route_views(split_routes_inc@),
            process.network_file() == network_file_of(config@.tundev),
    {
        let network_file = network_file(config.tundev.as_str());
        Process { config, split_routes_inc, network_file }
    }

    /// Synthesizes the event.
    pub fn run(&self) -> (decided: Synthesis)
        ensures
            decided@ == synthesis(self.config(), self.routes()),
            self.config().reason != Reason::Connect && self.config().reason != Reason::Disconnect
                ==> decided@.steps.len() == 0 && decided@.outcome == Ok::<Changed, ErrorView>(
                Changed::No,
            ),
            self.config().reason == Reason::Disconnect ==> decided@.steps == disconnect_steps(
                self.config(),
            ) && decided@.outcome == Ok::<Changed, ErrorView>(Changed::Yes),
    {
        let decided = match self.config.reason {
            Reason::PreInit => self.pre_init(),
            Reason::Connect => self.connect(),
            Reason::Disconnect => self.disconnect(),
            Reason::AttemptReconnect => self.attempt_reconnect(),
            Reason::Reconnect => self.reconnect(),
        };
        assert(decided@.steps =~= synthesis(self.config(), self.routes()).steps);
        decided
    }

    /// A reconnect leaves the filesystem alone.
    pub fn reconnect(&self) -> (decided: Synthesis)
        ensures
            decided@.steps.len() == 0,
            decided@.outcome == Ok::<Changed, ErrorView>(Changed::No),
    {
        Synthesis { steps: Vec::new(), outcome: Ok(Changed::No) }
    }

    /// The time before the tunnel is set up leaves the filesystem alone.
    pub fn pre_init(&self) -> (decided: Synthesis)
        ensures
            decided@.steps.len() == 0,
            decided@.outcome == Ok::<Changed, ErrorView>(Changed::No),
    {
        Synthesis { steps: Vec::new(), outcome: Ok(Changed::No) }
    }

    /// An attempt to reconnect leaves the filesystem alone.
    pub fn attempt_reconnect(&self) -> (decided: Synthesis)
        ensures
            decided@.steps.len() == 0,
            decided@.outcome == Ok::<Changed, ErrorView>(Changed::No),
    {
        Synthesis { steps: Vec::new(), outcome: Ok(Changed::No) }
    }

    /// A disconnect deletes the configuration file, and nothing else.
    pub fn disconnect(&self) -> (decided: Synthesis)
        ensures
            decided@.steps == disconnect_steps(self.config()),
            decided@.outcome == Ok::<Changed, ErrorView>(Changed::Yes),
    {
        proof {
            use_type_invariant(self);
        }
        let mut steps: Vec<Step> = Vec::new();
        steps.push(Step::RemoveFile { path: self.network_file.clone() });
        assert(step_views(steps@) =~= disconnect_steps(self.config()));
        Synthesis { steps, outcome: Ok(Changed::Yes) }
    }

    /// A connect writes the whole configuration file anew.
    pub fn connect(&self) -> (decided: Synthesis)
        ensures
            decided@.steps == connect_steps(self.config(), self.routes()),
            decided@.outcome == connect_outcome(self.config()),
    {
        let mut steps: Vec<Step> = Vec::new();
        self.push_opening_steps(&mut steps);
        if !self.push_netmask_steps(&mut steps) {
            let field = String::from_str("internal_ip4_netaddr");
            return Synthesis { steps, outcome: Err(Error::Env(EnvFailure::MissingValue(field))) };
        }
        let default_route = self.push_split_steps(&mut steps);
        self.push_network_steps(&mut steps, default_route);
        self.push_name_steps(&mut steps);
        Synthesis { steps, outcome: Ok(Changed::Yes) }
    }

    /// Adds the banner's notice and the steps that create the file and write
    /// its head.
    fn push_opening_steps(&self, steps: &mut Vec<Step>)
        requires
            old(steps)@.len() == 0,
        ensures
            step_views(final(steps)@) == notice_steps(self.config().banner) + opening_steps(
                self.config(),
                network_file_of(self.config().tundev),
            ),
    {
        proof {
            use_type_invariant(self);
        }
        if let Some(banner) = &self.config.banner {
            steps.push(Step::Notice { text: banner_notice(banner.as_str()) });
        }
        assert(step_views(steps@) =~= notice_steps(self.config@.banner));
        steps.push(Step::EnsureParentDir { path: self.network_file.clone() });
        steps.push(Step::CreateFile { path: self.network_file.clone() });
        steps.push(
            Step::Append {
                path: self.network_file.clone(),
                text: head_stanza(self.config.mtu, self.config.address.as_str()),
            },
        );
        assert(step_views(steps@) =~= notice_steps(self.config@.banner) + opening_steps(
            self.config@,
            network_file_of(self.config@.tundev),
        ));
    }

    /// Adds the route of the netmask, where there is a netmask. Returns
    /// `false`, and adds nothing, where the netmask lacks its network address.
    fn push_netmask_steps(&self, steps: &mut Vec<Step>) -> (paired: bool)
        ensures
            paired == !pairing_broken(self.config()),
            paired ==> step_views(final(steps)@) == step_views(old(steps)@) + netmask_steps(
                self.config(),
                network_file_of(self.config().tundev),
            ),
            !paired ==> final(steps)@ == old(steps)@,
    {
        proof {
            use_type_invariant(self);
        }
        let ghost before = step_views(steps@);
        let ghost path = network_file_of(self.config@.tundev);
        if self.config.netmask.is_some() {
            match &self.config.netaddr {
                Some(netaddr) => {
                    steps.push(
                        Step::Append {
                            path: self.network_file.clone(),
                            text: netmask_stanza(netaddr.as_str(), self.config.netmasklen),
                        },
                    );
                },
                None => {
                    return false;
                },
            }
        }
        assert(step_views(steps@) =~= before + netmask_steps(self.config@, path));
        true
    }

    /// Adds the steps of the split routes, where the event announces some,
    /// and says whether the tunnel becomes the default route.
    fn push_split_steps(&self, steps: &mut Vec<Step>) -> (default_route: bool)
        ensures
            step_views(final(steps)@) == step_views(old(steps)@) + split_steps(
                self.config(),
                self.routes(),
                network_file_of(self.config().tundev),
            ),
            default_route == wants_default_route(self.config(), self.routes()),
    {
        if self.config.split_routes_inc > 0 {
            self.push_route_steps(steps)
        } else {
            assert(step_views(steps@) =~= step_views(steps@) + Seq::<StepView>::empty());
            !self.config.address.as_str().is_empty()
        }
    }

    /// Adds the match and network sections, and the default route where it
    /// is wanted.
    fn push_network_steps(&self, steps: &mut Vec<Step>, default_route: bool)
        requires
            default_route == wants_default_route(self.config(), self.routes()),
        ensures
            step_views(final(steps)@) == step_views(old(steps)@) + network_steps(
                self.config(),
                network_file_of(self.config().tundev),
            ) + default_route_steps(
                self.config(),
                self.routes(),
                network_file_of(self.config().tundev),
            ),
    {
        proof {
            use_type_invariant(self);
        }
        let ghost before = step_views(steps@);
        let ghost path = network_file_of(self.config@.tundev);
        steps.push(
            Step::Append {
                path: self.network_file.clone(),
                text: match_stanza(self.config.tundev.as_str(), self.config.vpngateway.as_str()),
            },
        );
        if default_route {
            steps.push(
                Step::Append { path: self.network_file.clone(), text: default_route_line() },
            );
        }
        assert(step_views(steps@) =~= before + network_steps(self.config@, path)
            + default_route_steps(self.config@, self.routes(), path));
    }

    /// Adds the steps of the split routes, and says whether one of the routes
    /// asks for the default route.
    fn push_route_steps(&self, steps: &mut Vec<Step>) -> (any: bool)
        ensures
            step_views(final(steps)@) == step_views(old(steps)@) + route_steps(
                network_file_of(self.config().tundev),
                self.routes(),
            ),
            any == has_any_destination(self.routes()),
    {
        proof {
            use_type_invariant(self);
        }
        let ghost path = network_file_of(self.config@.tundev);
        let ghost routes = route_views(self.split_routes_inc@);
        let ghost before = step_views(steps@);
        let mut any = false;
        let mut i: usize = 0;
        proof {
            reveal(Seq::filter);
            assert(routes.take(0) =~= Seq::<RouteView>::empty());
            assert(route_steps(path, routes.take(0)) =~= Seq::<StepView>::empty());
            assert(step_views(steps@) =~= before + route_steps(path, routes.take(0)));
        }
        while i < self.split_routes_inc.len()
            invariant
                i <= self.split_routes_inc.len(),
                routes == route_views(self.split_routes_inc@),
                path == network_file_of(self.config@.tundev),
                self.network_file@ == path,
                step_views(steps@) == before + route_steps(path, routes.take(i as int)),
                any == exists|k: int| 0 <= k < i && !writes_route(#[trigger] routes[k]),
            decreases self.split_routes_inc.len() - i,
        {
            let route = &self.split_routes_inc[i];
            proof {
                lemma_route_steps_take(path, routes, i as int);
                assert(routes[i as int] == route@);
            }
            let ghost earlier = step_views(steps@);
            if is_any_destination(&route.addr) {
                any = true;
            } else {
                steps.push(
                    Step::Append {
                        path: self.network_file.clone(),
                        text: route_stanza(route.addr.as_str(), route.masklen),
                    },
                );
                assert(step_views(steps@) =~= earlier.push(route_step(path, routes[i as int])));
            }
            i = i + 1;
            assert(step_views(steps@) =~= before + route_steps(path, routes.take(i as int)));
        }
        assert(routes.take(i as int) =~= routes);
        any
    }

    /// Adds the steps of the search domain and of the name servers.
    fn push_name_steps(&self, steps: &mut Vec<Step>)
        ensures
            step_views(final(steps)@) == step_views(old(steps)@) + name_steps(
                self.config(),
                network_file_of(self.config().tundev),
            ),
    {
        proof {
            use_type_invariant(self);
        }
        let ghost path = network_file_of(self.config@.tundev);
        let ghost before = step_views(steps@);
        match &self.config.dns {
            Some(dns) => {
                if let Some(domain) = &self.config.def_domain {
                    steps.push(
                        Step::Append {
                            path: self.network_file.clone(),
                            text: domains_line(domain.as_str()),
                        },
                    );
                }
                let ghost start = step_views(steps@);
                assert(start =~= before + domain_steps(self.config@.def_domain, path));
                let servers = split_words(dns.as_str());
                let mut i: usize = 0;
                assert(dns_steps(texts(servers@).take(0), path) =~= Seq::<StepView>::empty());
                while i < servers.len()
                    invariant
                        i <= servers.len(),
                        self.network_file@ == path,
                        step_views(steps@) == start + dns_steps(texts(servers@).take(i as int), path),
                    decreases servers.len() - i,
                {
                    let ghost earlier = step_views(steps@);
                    let ghost named = texts(servers@);
                    steps.push(
                        Step::Append {
                            path: self.network_file.clone(),
                            text: dns_line(servers[i].as_str()),
                        },
                    );
                    proof {
                        assert(named[i as int] == servers@[i as int]@);
                        assert(named.take(i + 1) =~= named.take(i as int).push(named[i as int]));
                        assert(dns_steps(named.take(i + 1), path) =~= dns_steps(
                            named.take(i as int),
                            path,
                        ).push(StepView::Append { path, text: dns_text(named[i as int]) }));
                        assert(step_views(steps@) =~= earlier.push(
                            StepView::Append { path, text: dns_text(named[i as int]) },
                        ));
                    }
                    i = i + 1;
                    assert(step_views(steps@) =~= start + dns_steps(
                        texts(servers@).take(i as int),
                        path,
                    ));
                }
                assert(texts(servers@).take(i as int) =~= words(dns@));
                assert(step_views(steps@) =~= before + name_steps(self.config@, path));
            },
            None => {
                assert(step_views(steps@) =~= before + name_steps(self.config@, path));
            },
        }
    }
}

} // verus!
