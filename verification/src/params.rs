//! Where the split routes of an event are found among its named values.
//!
//! An event that announces `n` split routes carries `n` groups of values,
//! numbered from 0. The values of group `k` have names that begin with
//! `CISCO_SPLIT_INC_k_`. The groups are read one after the other, and the
//! first that cannot be read ends the reading: the event has all its routes
//! or none.

use crate::config::{Config, Route, RouteView, route_views};
use crate::error::{EnvFailure, EnvFailureView, Error, ErrorView};
use crate::text::{decimal, push_decimal};
use vstd::prelude::*;
use vstd::string::*;

verus! {

/// The beginning of the names of the values of route group `n`.
pub open spec fn route_prefix_of(n: nat) -> Seq<char> {
    "CISCO_SPLIT_INC_"@ + decimal(n) + "_"@
}

/// The beginning of the names of the values of route group `n`.
pub fn route_prefix(n: usize) -> (prefix: String)
    ensures
        prefix@ == route_prefix_of(n as nat),
{
    let mut prefix = String::from_str("CISCO_SPLIT_INC_");
    push_decimal(&mut prefix, n as u64);
    prefix.append("_");
    prefix
}

/// The routes read so far, of the `count` that the event announces.
#[derive(Debug, PartialEq, Eq)]
pub struct RouteReader {
    count: usize,
    routes: Vec<Route>,
}

/// What a `RouteReader` holds, as mathematical values.
pub struct RouteReaderView {
    pub count: nat,
    pub routes: Seq<RouteView>,
}

impl View for RouteReader {
    type V = RouteReaderView;

    closed spec fn view(&self) -> RouteReaderView {
        RouteReaderView { count: self.count as nat, routes: route_views(self.routes@) }
    }
}

/// What the caller does next.
#[derive(Debug, PartialEq, Eq)]
pub enum Reading {
    /// Read the route whose values have names that begin with this prefix,
    /// then hand what was read to the reader.
    Group(String, RouteReader),
    /// The reading has ended, with the routes of the event or with the
    /// failure to read one of them.
    Done(Result<Vec<Route>, Error>),
}

/// What a `Reading` holds, as mathematical values.
pub enum ReadingView {
    Group(Seq<char>, RouteReaderView),
    Done(Result<Seq<RouteView>, ErrorView>),
}

/// The view of a list of routes or a failure.
pub open spec fn routes_view(routes: Result<Vec<Route>, Error>) -> Result<Seq<RouteView>, ErrorView> {
    match routes {
        Ok(list) => Ok(route_views(list@)),
        Err(e) => Err(e@),
    }
}

impl View for Reading {
    type V = ReadingView;

    open spec fn view(&self) -> ReadingView {
        match self {
            Reading::Group(prefix, reader) => ReadingView::Group(prefix@, reader@),
            Reading::Done(routes) => ReadingView::Done(routes_view(*routes)),
        }
    }
}

/// The view of what was read of one route group.
pub open spec fn entry_view(entry: Result<Route, EnvFailure>) -> Result<RouteView, EnvFailureView> {
    match entry {
        Ok(route) => Ok(route@),
        Err(failure) => Err(failure@),
    }
}

/// A reader that has read nothing yet of the `count` routes of its event.
pub open spec fn fresh_reader(count: nat) -> RouteReaderView {
    RouteReaderView { count, routes: Seq::empty() }
}

/// The next thing to do when no group has failed: to read the group that
/// follows those read so far, or to end with the routes where all the groups
/// that the event announces have been read.
pub open spec fn next_group(r: RouteReaderView) -> ReadingView {
    if r.routes.len() < r.count {
        ReadingView::Group(route_prefix_of(r.routes.len()), r)
    } else {
        ReadingView::Done(Ok(r.routes))
    }
}

/// The next thing to do after a group: a route is kept, behind those read
/// before it; a failure ends the reading and is its result.
pub open spec fn after_group(r: RouteReaderView, entry: Result<RouteView, EnvFailureView>)
    -> ReadingView {
    match entry {
        Ok(route) => next_group(RouteReaderView { count: r.count, routes: r.routes.push(route) }),
        Err(failure) => ReadingView::Done(Err(ErrorView::Env(failure))),
    }
}

impl RouteReader {
    fn next(self) -> (reading: Reading)
        ensures
            reading@ == next_group(self@),
    {
        if self.routes.len() < self.count {
            Reading::Group(route_prefix(self.routes.len()), self)
        } else {
            Reading::Done(Ok(self.routes))
        }
    }

    /// Takes what was read of the group that was asked for last, and says
    /// what to do next.
    pub fn accept(self, entry: Result<Route, EnvFailure>) -> (reading: Reading)
        ensures
            reading@ == after_group(self@, entry_view(entry)),
    {
        match entry {
            Ok(route) => {
                let RouteReader { count, routes } = self;
                let mut routes = routes;
                let ghost before = route_views(routes@);
                routes.push(route);
                assert(route_views(routes@) =~= before.push(route@));
                let reader = RouteReader { count, routes };
                reader.next()
            },
            Err(failure) => Reading::Done(Err(Error::Env(failure))),
        }
    }
}

/// Begins to read the split routes that the event `config` announces.
pub fn split_routes(config: &Config) -> (reading: Reading)
    ensures
        reading@ == next_group(fresh_reader(config@.split_routes_inc)),
{
    let reader = RouteReader { count: config.split_routes_inc, routes: Vec::new() };
    assert(route_views(reader.routes@) =~= Seq::<RouteView>::empty());
    reader.next()
}

/// The prefixes that a caller is handed, in order, and the result of the
/// reading, if it has come to its end, where what the caller reads of the
/// groups is `entries`, in order. Entries beyond the end are not looked at.
pub open spec fn read_groups(reading: ReadingView, entries: Seq<Result<RouteView, EnvFailureView>>)
    -> (Seq<Seq<char>>, Option<Result<Seq<RouteView>, ErrorView>>)
    decreases entries.len(),
{
    match reading {
        ReadingView::Done(result) => (Seq::empty(), Some(result)),
        ReadingView::Group(prefix, reader) => if entries.len() == 0 {
            (seq![prefix], None)
        } else {
            let (more, end) = read_groups(after_group(reader, entries[0]), entries.skip(1));
            (seq![prefix] + more, end)
        },
    }
}

/// The groups that follow `from`, up to `to`.
pub open spec fn prefixes_between(from: nat, to: nat) -> Seq<Seq<char>> {
    Seq::new((to - from) as nat, |i: int| route_prefix_of((from + i) as nat))
}

/// Where every group can be read, the caller is asked for each group that
/// is still missing, once and in order, and the reading ends with the routes
/// in the order of their groups: as many as the event announces.
pub proof fn law_all_groups_are_read(
    r: RouteReaderView,
    entries: Seq<Result<RouteView, EnvFailureView>>,
)
    requires
        r.routes.len() <= r.count,
        entries.len() >= r.count - r.routes.len(),
        forall|i: int| 0 <= i < r.count - r.routes.len() ==> #[trigger] entries[i] is Ok,
    ensures
        read_groups(next_group(r), entries).0 == prefixes_between(r.routes.len(), r.count),
        read_groups(next_group(r), entries).1 == Some(
            Ok::<Seq<RouteView>, ErrorView>(
                r.routes + Seq::new(
                    (r.count - r.routes.len()) as nat,
                    |i: int| entries[i]->Ok_0,
                ),
            ),
        ),
    decreases r.count - r.routes.len(),
{
    let missing = (r.count - r.routes.len()) as nat;
    let read = Seq::new(missing, |i: int| entries[i]->Ok_0);
    if missing == 0 {
        assert(r.routes + read =~= r.routes);
        assert(prefixes_between(r.routes.len(), r.count) =~= Seq::<Seq<char>>::empty());
    } else {
        let route = entries[0]->Ok_0;
        assert(entries[0] is Ok);
        let then = RouteReaderView { count: r.count, routes: r.routes.push(route) };
        let later = entries.skip(1);
        assert forall|i: int| 0 <= i < then.count - then.routes.len() implies #[trigger] later[i]
            is Ok by {
            assert(later[i] == entries[i + 1]);
        }
        law_all_groups_are_read(then, later);
        let read_later = Seq::new((missing - 1) as nat, |i: int| later[i]->Ok_0);
        assert(then.routes + read_later =~= r.routes + read);
        assert(seq![route_prefix_of(r.routes.len())] + prefixes_between(then.routes.len(), r.count)
            =~= prefixes_between(r.routes.len(), r.count));
    }
}

/// Where the group at `k` is the first that cannot be read, the caller is
/// asked for the groups up to that one and no further, and the reading ends
/// with that failure: no route is kept.
pub proof fn law_first_failure_ends_the_reading(
    r: RouteReaderView,
    entries: Seq<Result<RouteView, EnvFailureView>>,
    k: int,
)
    requires
        0 <= k < r.count - r.routes.len(),
        k < entries.len(),
        forall|i: int| 0 <= i < k ==> #[trigger] entries[i] is Ok,
        entries[k] is Err,
    ensures
        read_groups(next_group(r), entries).0 == prefixes_between(
            r.routes.len(),
            (r.routes.len() + k + 1) as nat,
        ),
        read_groups(next_group(r), entries).1 == Some(
            Err::<Seq<RouteView>, ErrorView>(ErrorView::Env(entries[k]->Err_0)),
        ),
    decreases k,
{
    let later = entries.skip(1);
    let here = r.routes.len();
    if k == 0 {
        assert(read_groups(after_group(r, entries[0]), later).0 =~= Seq::<Seq<char>>::empty());
        assert(seq![route_prefix_of(here)] + Seq::<Seq<char>>::empty() =~= prefixes_between(
            here,
            (here + 1) as nat,
        ));
    } else {
        assert(entries[0] is Ok);
        let then = RouteReaderView { count: r.count, routes: r.routes.push(entries[0]->Ok_0) };
        assert forall|i: int| 0 <= i < k - 1 implies #[trigger] later[i] is Ok by {
            assert(later[i] == entries[i + 1]);
        }
        assert(later[k - 1] == entries[k]);
        law_first_failure_ends_the_reading(then, later, k - 1);
        assert(seq![route_prefix_of(here)] + prefixes_between(
            then.routes.len(),
            (then.routes.len() + (k - 1) + 1) as nat,
        ) =~= prefixes_between(here, (here + k + 1) as nat));
    }
}

} // verus!
