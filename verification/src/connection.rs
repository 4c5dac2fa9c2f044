//! Handling one client connection: finding a target socket and proxying to it.

use vstd::prelude::*;

use crate::find::{
    collect_paths, collected_paths, found_order, law_collected_paths_stably_sorted,
    law_found_order_total_preorder, FoundPath, GlobExpansion, GlobSort,
};
use crate::order::Order;
use crate::path::copy_path;
use crate::span::{optional_span, Span};
use crate::text::{copy_result, copy_texts, result_text};

verus! {

/// How far the handling of a connection has come.
pub enum Stage {
    /// The target patterns are being expanded.
    ExpandingTargets,
    /// The socket at `current` is being connected to, and those at `rest` come
    /// after it. `fallback` tells whether the fallback patterns gave them.
    Trying { fallback: bool, current: Seq<u8>, rest: Seq<Seq<u8>> },
    /// The fallback patterns are being expanded.
    ExpandingFallback,
    /// Data is copied between the client and the socket at `path`.
    Proxying { path: Seq<u8> },
    /// Nothing is left to do.
    Finished { result: Result<(), Seq<char>> },
}

/// The handling of a connection, as a value.
pub struct ConnectionModel {
    /// The target patterns.
    pub target_globs: Seq<String>,
    /// The fallback patterns.
    pub fallback_globs: Seq<String>,
    /// How the paths that patterns match are sorted.
    pub sort: GlobSort,
    /// The bound on each connection attempt, in nanoseconds.
    pub timeout: Option<nat>,
    pub stage: Stage,
}

enum Progress {
    ExpandingTargets,
    Trying { fallback: bool, current: Vec<u8>, rest: Vec<FoundPath> },
    ExpandingFallback,
    Proxying { path: Vec<u8> },
    Finished { result: Result<(), String> },
}

/// One client connection that is being handled.
pub struct Connection {
    target_globs: Vec<String>,
    fallback_globs: Vec<String>,
    sort: GlobSort,
    timeout: Option<Span>,
    progress: Progress,
}

/// What came of the last action.
#[derive(Debug)]
pub enum ConnectionEvent {
    /// The target patterns stand for these paths.
    TargetsExpanded(Vec<GlobExpansion>),
    /// The fallback patterns stand for these paths.
    FallbackExpanded(Vec<GlobExpansion>),
    /// The socket accepted the connection.
    Connected,
    /// The socket could not be connected to.
    ConnectFailed,
    /// The socket did not answer in time.
    ConnectTimedOut,
    /// Copying came to its end, or failed.
    Proxied(Result<(), String>),
}

/// What to do next.
#[derive(Debug)]
pub enum ConnectionAction {
    /// Expand the target patterns, which are `globs`, and look up when what they
    /// match was last modified where `with_times` says so.
    ExpandTargets { globs: Vec<String>, with_times: bool },
    /// Connect to the socket at `path`, giving up after `timeout` if there is one.
    Connect { path: Vec<u8>, timeout: Option<Span> },
    /// Expand the fallback patterns in the same way.
    ExpandFallback { globs: Vec<String>, with_times: bool },
    /// Copy data between the client and the socket, both ways.
    Proxy,
    /// Close the connection.
    Finish(Result<(), String>),
}

/// The result of a connection for which there is no target.
pub open spec fn no_target() -> Result<(), Seq<char>> {
    Err("No target socket found; cannot proxy request"@)
}

/// The names of found paths.
pub open spec fn names(found: Seq<FoundPath>) -> Seq<Seq<u8>> {
    found.map_values(|f: FoundPath| f.path@)
}

impl ConnectionModel {
    /// The same connection at another stage.
    pub open spec fn at(self, stage: Stage) -> ConnectionModel {
        ConnectionModel { stage, ..self }
    }

    /// Whether there are fallback patterns.
    pub open spec fn has_fallback(self) -> bool {
        self.fallback_globs.len() > 0
    }

    /// Whether the order of the paths depends on when they were last modified.
    pub open spec fn needs_times(self) -> bool {
        self.sort != GlobSort::Name
    }

    /// With `paths` left to try: the first of them is tried; where there is none,
    /// the fallback patterns come after the target patterns, and nothing comes
    /// after those.
    pub open spec fn try_first(self, fallback: bool, paths: Seq<Seq<u8>>) -> ConnectionModel {
        if paths.len() > 0 {
            self.at(Stage::Trying { fallback, current: paths[0], rest: paths.skip(1) })
        } else if !fallback && self.has_fallback() {
            self.at(Stage::ExpandingFallback)
        } else {
            self.at(Stage::Finished { result: no_target() })
        }
    }

    /// Whether `event` can come of what is being done.
    pub open spec fn expects(self, event: ConnectionEvent) -> bool {
        match self.stage {
            Stage::ExpandingTargets => event is TargetsExpanded,
            Stage::Trying { .. } => event is Connected || event is ConnectFailed
                || event is ConnectTimedOut,
            Stage::ExpandingFallback => event is FallbackExpanded,
            Stage::Proxying { .. } => event is Proxied,
            Stage::Finished { .. } => false,
        }
    }

    /// The connection after `event`.
    pub open spec fn after(self, event: ConnectionEvent) -> ConnectionModel {
        match (self.stage, event) {
            (
                Stage::ExpandingTargets,
                ConnectionEvent::TargetsExpanded(expansions),
            ) => self.try_first(false, names(collected_paths(expansions@, self.sort))),
            (Stage::Trying { current, .. }, ConnectionEvent::Connected) => self.at(
                Stage::Proxying { path: current },
            ),
            (Stage::Trying { fallback, rest, .. }, _) => self.try_first(fallback, rest),
            (
                Stage::ExpandingFallback,
                ConnectionEvent::FallbackExpanded(expansions),
            ) => self.try_first(true, names(collected_paths(expansions@, self.sort))),
            (Stage::Proxying { .. }, ConnectionEvent::Proxied(result)) => self.at(
                Stage::Finished { result: result_text(result) },
            ),
            _ => self,
        }
    }

    /// Whether `action` is what to do at this stage.
    pub open spec fn calls_for(self, action: ConnectionAction) -> bool {
        match self.stage {
            Stage::ExpandingTargets => action matches ConnectionAction::ExpandTargets {
                globs,
                with_times,
            } && globs@ == self.target_globs && with_times == self.needs_times(),
            Stage::Trying { current, .. } => action matches ConnectionAction::Connect {
                path,
                timeout,
            } && path@ == current && optional_span(timeout) == self.timeout,
            Stage::ExpandingFallback => action matches ConnectionAction::ExpandFallback {
                globs,
                with_times,
            } && globs@ == self.fallback_globs && with_times == self.needs_times(),
            Stage::Proxying { .. } => action is Proxy,
            Stage::Finished { result } => action matches ConnectionAction::Finish(r) && result_text(
                r,
            ) == result,
        }
    }
}

impl View for Progress {
    type V = Stage;

    closed spec fn view(&self) -> Stage {
        match self {
            Progress::ExpandingTargets => Stage::ExpandingTargets,
            Progress::Trying { fallback, current, rest } => Stage::Trying {
                fallback: *fallback,
                current: current@,
                rest: names(rest@),
            },
            Progress::ExpandingFallback => Stage::ExpandingFallback,
            Progress::Proxying { path } => Stage::Proxying { path: path@ },
            Progress::Finished { result } => Stage::Finished { result: result_text(*result) },
        }
    }
}

impl View for Connection {
    type V = ConnectionModel;

    closed spec fn view(&self) -> ConnectionModel {
        ConnectionModel {
            target_globs: self.target_globs@,
            fallback_globs: self.fallback_globs@,
            sort: self.sort,
            timeout: optional_span(self.timeout),
            stage: self.progress@,
        }
    }
}

impl Connection {
    /// A connection that was just accepted.
    pub fn new(
        target_globs: &[String],
        fallback_globs: &[String],
        connect_timeout: Option<Span>,
        glob_sort: GlobSort,
    ) -> (connection: Self)
        ensures
            connection@ == (ConnectionModel {
                target_globs: target_globs@,
                fallback_globs: fallback_globs@,
                sort: glob_sort,
                timeout: optional_span(connect_timeout),
                stage: Stage::ExpandingTargets,
            }),
            match (connect_timeout, connection@.timeout) {
                (Some(span), Some(length)) => span@ == length,
                (None, None) => true,
                _ => false,
            },
    {
        Connection {
            target_globs: copy_texts(target_globs),
            fallback_globs: copy_texts(fallback_globs),
            sort: glob_sort,
            timeout: connect_timeout,
            progress: Progress::ExpandingTargets,
        }
    }

    /// What to do next.
    pub fn action(&self) -> (action: ConnectionAction)
        ensures
            self@.calls_for(action),
    {
        match &self.progress {
            Progress::ExpandingTargets => ConnectionAction::ExpandTargets {
                globs: copy_texts(self.target_globs.as_slice()),
                with_times: self.sort != GlobSort::Name,
            },
            Progress::Trying { current, .. } => ConnectionAction::Connect {
                path: copy_path(current),
                timeout: self.timeout,
            },
            Progress::ExpandingFallback => ConnectionAction::ExpandFallback {
                globs: copy_texts(self.fallback_globs.as_slice()),
                with_times: self.sort != GlobSort::Name,
            },
            Progress::Proxying { .. } => ConnectionAction::Proxy,
            Progress::Finished { result } => ConnectionAction::Finish(copy_result(result)),
        }
    }

    /// Tells whether `event` can come of the action at hand.
    pub fn expects(&self, event: &ConnectionEvent) -> (yes: bool)
        ensures
            yes == self@.expects(*event),
    {
        match (&self.progress, event) {
            (Progress::ExpandingTargets, ConnectionEvent::TargetsExpanded(_)) => true,
            (Progress::Trying { .. }, ConnectionEvent::Connected) => true,
            (Progress::Trying { .. }, ConnectionEvent::ConnectFailed) => true,
            (Progress::Trying { .. }, ConnectionEvent::ConnectTimedOut) => true,
            (Progress::ExpandingFallback, ConnectionEvent::FallbackExpanded(_)) => true,
            (Progress::Proxying { .. }, ConnectionEvent::Proxied(_)) => true,
            _ => false,
        }
    }

    /// With `paths` left to try, goes to the first of them.
    fn try_first(self, fallback: bool, paths: Vec<FoundPath>) -> (next: Connection)
        ensures
            next@ == self@.try_first(fallback, names(paths@)),
    {
        let mut rest: Vec<FoundPath> = paths;
        let progress: Progress = if rest.len() > 0 {
            let first: FoundPath = rest.remove(0);
            assert(names(rest@) == names(paths@).skip(1));
            Progress::Trying { fallback, current: first.path, rest }
        } else if !fallback && !self.fallback_globs.is_empty() {
            Progress::ExpandingFallback
        } else {
            Progress::Finished {
                result: Err("No target socket found; cannot proxy request".to_owned()),
            }
        };
        Connection { progress, ..self }
    }

    /// Takes note of what came of the action at hand.
    pub fn step(self, event: ConnectionEvent) -> (next: Connection)
        requires
            self@.expects(event),
        ensures
            next@ == self@.after(event),
    {
        match (self.progress, event) {
            (Progress::ExpandingTargets, ConnectionEvent::TargetsExpanded(expansions)) => {
                let paths: Vec<FoundPath> = collect_paths(expansions, self.sort);
                Connection { progress: Progress::ExpandingTargets, ..self }.try_first(false, paths)
            },
            (Progress::Trying { current, .. }, ConnectionEvent::Connected) => Connection {
                progress: Progress::Proxying { path: current },
                ..self
            },
            (Progress::Trying { fallback, rest, .. }, _) => {
                Connection { progress: Progress::ExpandingTargets, ..self }.try_first(
                    fallback,
                    rest,
                )
            },
            (Progress::ExpandingFallback, ConnectionEvent::FallbackExpanded(expansions)) => {
                let paths: Vec<FoundPath> = collect_paths(expansions, self.sort);
                Connection { progress: Progress::ExpandingFallback, ..self }.try_first(true, paths)
            },
            (Progress::Proxying { .. }, ConnectionEvent::Proxied(result)) => Connection {
                progress: Progress::Finished { result },
                ..self
            },
            (progress, _) => Connection { progress, ..self },
        }
    }
}

/// What comes of an attempt to connect to a socket.
pub enum Attempt {
    Accepted,
    Refused,
    TimedOut,
}

/// What a connection finds as it is handled.
pub struct World {
    /// What the target patterns stand for.
    pub targets: Vec<GlobExpansion>,
    /// What the fallback patterns stand for, when they are needed.
    pub fallback: Vec<GlobExpansion>,
    /// What comes of connecting to the socket at a path, with so many attempts made
    /// before.
    pub attempt: spec_fn(nat, Seq<u8>) -> Attempt,
}

impl World {
    /// Whether the socket at `path` accepts, with `made` attempts made before.
    pub open spec fn accepts(self, made: nat, path: Seq<u8>) -> bool {
        (self.attempt)(made, path) is Accepted
    }

    /// The first of `paths` whose socket accepts, where they are tried one after the
    /// other, with `made` attempts made before.
    pub open spec fn first_accepting(self, made: nat, paths: Seq<Seq<u8>>) -> Option<Seq<u8>>
        decreases paths.len(),
    {
        if paths.len() == 0 {
            None
        } else if self.accepts(made, paths[0]) {
            Some(paths[0])
        } else {
            self.first_accepting(made + 1, paths.skip(1))
        }
    }

    /// The socket that a client is to be proxied to: the first target that accepts,
    /// or else the first fallback that does.
    pub open spec fn chosen_socket(self, sort: GlobSort, has_fallback: bool) -> Option<Seq<u8>> {
        let targets = names(collected_paths(self.targets@, sort));
        let fallback = names(collected_paths(self.fallback@, sort));
        match self.first_accepting(0, targets) {
            Some(path) => Some(path),
            None => if has_fallback {
                self.first_accepting(targets.len(), fallback)
            } else {
                None
            },
        }
    }

    /// What comes of the action at hand, with `made` attempts made before.
    pub open spec fn reply(self, connection: ConnectionModel, made: nat) -> ConnectionEvent {
        match connection.stage {
            Stage::ExpandingTargets => ConnectionEvent::TargetsExpanded(self.targets),
            Stage::ExpandingFallback => ConnectionEvent::FallbackExpanded(self.fallback),
            Stage::Trying { current, .. } => match (self.attempt)(made, current) {
                Attempt::Accepted => ConnectionEvent::Connected,
                Attempt::Refused => ConnectionEvent::ConnectFailed,
                Attempt::TimedOut => ConnectionEvent::ConnectTimedOut,
            },
            _ => ConnectionEvent::Proxied(Ok(())),
        }
    }

    /// The connection once the search for a socket has come to its end, with `made`
    /// attempts made before.
    pub open spec fn settled(self, connection: ConnectionModel, made: nat) -> ConnectionModel
        decreases search_measure(connection.stage).0, search_measure(connection.stage).1,
    {
        if connection.stage is Proxying || connection.stage is Finished {
            connection
        } else {
            self.settled(
                connection.after(self.reply(connection, made)),
                if connection.stage is Trying {
                    made + 1
                } else {
                    made
                },
            )
        }
    }
}

/// A number that shrinks as the search for a socket goes on, and how many paths
/// are left to try before it does.
pub open spec fn search_measure(stage: Stage) -> (nat, nat) {
    match stage {
        Stage::ExpandingTargets => (4, 0),
        Stage::Trying { fallback: false, rest, .. } => (3, rest.len()),
        Stage::ExpandingFallback => (2, 0),
        Stage::Trying { fallback: true, rest, .. } => (1, rest.len()),
        _ => (0, 0),
    }
}

proof fn lemma_settled_trying(
    world: World,
    connection: ConnectionModel,
    fallback: bool,
    paths: Seq<Seq<u8>>,
    made: nat,
)
    ensures
        world.settled(connection.try_first(fallback, paths), made) == match world.first_accepting(
            made,
            paths,
        ) {
            Some(path) => connection.at(Stage::Proxying { path }),
            None => world.settled(
                connection.try_first(fallback, Seq::empty()),
                made + paths.len(),
            ),
        },
    decreases paths.len(),
{
    if paths.len() == 0 {
        assert(paths == Seq::<Seq<u8>>::empty());
    } else {
        let trying = connection.try_first(fallback, paths);
        let next = trying.after(world.reply(trying, made));
        assert(world.settled(trying, made) == world.settled(next, made + 1));
        if !world.accepts(made, paths[0]) {
            assert(next == connection.try_first(fallback, paths.skip(1)));
            lemma_settled_trying(world, connection, fallback, paths.skip(1), made + 1);
        }
    }
}

/// A client is proxied to the first target that accepts, tried in the order asked
/// for. Only if none does is it proxied to the first fallback that accepts, and if
/// no fallback does either, it is turned away.
pub proof fn law_first_accepting_target_wins(world: World, connection: ConnectionModel)
    requires
        connection.stage is ExpandingTargets,
    ensures
        world.settled(connection, 0) == connection.at(
            match world.chosen_socket(connection.sort, connection.has_fallback()) {
                Some(path) => Stage::Proxying { path },
                None => Stage::Finished { result: no_target() },
            },
        ),
{
    let first = names(collected_paths(world.targets@, connection.sort));
    let second = names(collected_paths(world.fallback@, connection.sort));
    lemma_settled_trying(world, connection, false, first, 0);
    lemma_settled_trying(world, connection, true, second, first.len());
    assert(connection.after(world.reply(connection, 0)) == connection.try_first(false, first));
    let idle = connection.try_first(false, Seq::empty());
    if connection.has_fallback() {
        assert(idle.after(world.reply(idle, first.len())) == connection.try_first(true, second));
    }
}

/// Whether `found[k]` accepted after all paths before it were tried in vain, and
/// `sort` puts none of the paths behind it ahead of it.
pub open spec fn best_accepting(
    world: World,
    made: nat,
    sort: GlobSort,
    found: Seq<FoundPath>,
    k: int,
) -> bool {
    &&& 0 <= k < found.len()
    &&& world.accepts((made + k) as nat, found[k].path@)
    &&& forall|j: int|
        0 <= j < k ==> !world.accepts((made + j) as nat, (#[trigger] found[j]).path@)
    &&& forall|j: int|
        k < j < found.len() ==> found_order(sort, #[trigger] found[j], found[k]) != Order::Less
}

proof fn lemma_first_accepting(world: World, made: nat, paths: Seq<Seq<u8>>) -> (k: int)
    ensures
        0 <= k <= paths.len(),
        forall|j: int|
            0 <= j < k ==> !world.accepts((made + j) as nat, #[trigger] paths[j]),
        world.first_accepting(made, paths) == if k < paths.len() {
            Some(paths[k])
        } else {
            None
        },
        k < paths.len() ==> world.accepts((made + k) as nat, paths[k]),
    decreases paths.len(),
{
    if paths.len() == 0 || world.accepts(made, paths[0]) {
        0
    } else {
        let rest = paths.skip(1);
        let k = lemma_first_accepting(world, made + 1, rest);
        assert forall|j: int| 0 <= j < k + 1 implies !world.accepts(
            (made + j) as nat,
            #[trigger] paths[j],
        ) by {
            if j > 0 {
                assert(paths[j] == rest[j - 1]);
                assert((made + 1 + (j - 1)) as nat == (made + j) as nat);
            }
        }
        k + 1
    }
}

/// Every socket that the sort order puts ahead of the chosen one was tried before it
/// and did not accept: sorted by newest time stamp, the newest socket that accepts
/// wins. Nothing is chosen only where none accepts.
pub proof fn law_chosen_socket_comes_first(
    world: World,
    made: nat,
    expansions: Seq<GlobExpansion>,
    sort: GlobSort,
)
    ensures
        match world.first_accepting(made, names(collected_paths(expansions, sort))) {
            Some(path) => exists|k: int| #[trigger]
                best_accepting(world, made, sort, collected_paths(expansions, sort), k)
                    && collected_paths(expansions, sort)[k].path@ == path,
            None => forall|j: int|
                0 <= j < collected_paths(expansions, sort).len() ==> !world.accepts(
                    (made + j) as nat,
                    (#[trigger] collected_paths(expansions, sort)[j]).path@,
                ),
        },
{
    let found = collected_paths(expansions, sort);
    law_collected_paths_stably_sorted(expansions, sort);
    let k = lemma_first_accepting(world, made, names(found));
    assert forall|j: int| 0 <= j < k implies !world.accepts(
        (made + j) as nat,
        (#[trigger] found[j]).path@,
    ) by {
        assert(names(found)[j] == found[j].path@);
    }
    if k < found.len() {
        assert(names(found)[k] == found[k].path@);
        assert forall|j: int| k < j < found.len() implies found_order(
            sort,
            #[trigger] found[j],
            found[k],
        ) != Order::Less by {
            law_found_order_total_preorder(sort);
            let order = |a: FoundPath, b: FoundPath| found_order(sort, a, b);
            assert(order(found[k], found[j]) == order(found[j], found[k]).flipped());
        }
        assert(best_accepting(world, made, sort, found, k));
    }
}

/// Nothing changes what a connection was set up with; so every attempt to connect is
/// bounded by the same timeout, and both sets of paths are sorted alike.
pub proof fn law_connection_settings_kept(connection: ConnectionModel, event: ConnectionEvent)
    ensures
        connection.after(event).target_globs == connection.target_globs,
        connection.after(event).fallback_globs == connection.fallback_globs,
        connection.after(event).sort == connection.sort,
        connection.after(event).timeout == connection.timeout,
{
}

/// A socket that does not answer in time counts as one that cannot be reached.
pub proof fn law_timeout_counts_as_failure(connection: ConnectionModel)
    requires
        connection.stage is Trying,
    ensures
        connection.after(ConnectionEvent::ConnectTimedOut) == connection.after(
            ConnectionEvent::ConnectFailed,
        ),
{
}

proof fn lemma_first_accepting_is(world: World, made: nat, paths: Seq<Seq<u8>>, k: int)
    requires
        0 <= k <= paths.len(),
        forall|j: int| 0 <= j < k ==> !world.accepts((made + j) as nat, #[trigger] paths[j]),
        k < paths.len() ==> world.accepts((made + k) as nat, paths[k]),
    ensures
        k < paths.len() ==> world.first_accepting(made, paths) == Some(paths[k]),
        k == paths.len() ==> world.first_accepting(made, paths) is None,
{
    let first = lemma_first_accepting(world, made, paths);
    if first < k {
        assert(!world.accepts((made + first) as nat, paths[first]));
    }
    if k < first {
        assert(!world.accepts((made + k) as nat, paths[k]));
    }
}

/// A client is proxied to the target at place `k` of those collected if that accepts
/// and none before it does, however many come before it.
pub proof fn law_target_is_proxied_to(world: World, connection: ConnectionModel, k: int)
    requires
        connection.stage is ExpandingTargets,
        ({
            let targets = collected_paths(world.targets@, connection.sort);
            &&& 0 <= k < targets.len()
            &&& (world.attempt)(k as nat, targets[k].path@) is Accepted
            &&& forall|j: int|
                0 <= j < k ==> !((world.attempt)(j as nat, (#[trigger] targets[j]).path@)
                    is Accepted)
        }),
    ensures
        world.settled(connection, 0).stage == (Stage::Proxying {
            path: collected_paths(world.targets@, connection.sort)[k].path@,
        }),
{
    let targets = collected_paths(world.targets@, connection.sort);
    let paths = names(targets);
    assert forall|j: int| 0 <= j < k implies !world.accepts(
        (0 + j) as nat,
        #[trigger] paths[j],
    ) by {
        assert(paths[j] == targets[j].path@);
    }
    assert(paths[k] == targets[k].path@);
    lemma_first_accepting_is(world, 0, paths, k);
    law_first_accepting_target_wins(world, connection);
}

/// Where no target accepts and there is a fallback pattern, however many there are, a
/// client is proxied to the fallback at place `k` of those collected if that accepts
/// and none before it does.
pub proof fn law_fallback_is_proxied_to(world: World, connection: ConnectionModel, k: int)
    requires
        connection.stage is ExpandingTargets,
        connection.fallback_globs.len() > 0,
        ({
            let targets = collected_paths(world.targets@, connection.sort);
            let fallback = collected_paths(world.fallback@, connection.sort);
            &&& forall|j: int|
                0 <= j < targets.len() ==> !((world.attempt)(
                    j as nat,
                    (#[trigger] targets[j]).path@,
                ) is Accepted)
            &&& 0 <= k < fallback.len()
            &&& (world.attempt)((targets.len() + k) as nat, fallback[k].path@) is Accepted
            &&& forall|j: int|
                0 <= j < k ==> !((world.attempt)(
                    (targets.len() + j) as nat,
                    (#[trigger] fallback[j]).path@,
                ) is Accepted)
        }),
    ensures
        world.settled(connection, 0).stage == (Stage::Proxying {
            path: collected_paths(world.fallback@, connection.sort)[k].path@,
        }),
{
    let targets = collected_paths(world.targets@, connection.sort);
    let fallback = collected_paths(world.fallback@, connection.sort);
    lemma_no_target_accepts(world, connection);
    let paths = names(fallback);
    assert forall|j: int| 0 <= j < k implies !world.accepts(
        (targets.len() + j) as nat,
        #[trigger] paths[j],
    ) by {
        assert(paths[j] == fallback[j].path@);
    }
    assert(paths[k] == fallback[k].path@);
    lemma_first_accepting_is(world, targets.len(), paths, k);
    law_first_accepting_target_wins(world, connection);
}

proof fn lemma_no_target_accepts(world: World, connection: ConnectionModel)
    requires
        ({
            let targets = collected_paths(world.targets@, connection.sort);
            forall|j: int|
                0 <= j < targets.len() ==> !((world.attempt)(
                    j as nat,
                    (#[trigger] targets[j]).path@,
                ) is Accepted)
        }),
    ensures
        world.first_accepting(0, names(collected_paths(world.targets@, connection.sort))) is None,
{
    let targets = collected_paths(world.targets@, connection.sort);
    let paths = names(targets);
    assert forall|j: int| 0 <= j < paths.len() implies !world.accepts(
        (0 + j) as nat,
        #[trigger] paths[j],
    ) by {
        assert(paths[j] == targets[j].path@);
    }
    lemma_first_accepting_is(world, 0, paths, paths.len() as int);
}

/// A client is turned away where no target accepts and there is no fallback pattern,
/// or no fallback accepts either.
pub proof fn law_client_is_turned_away(world: World, connection: ConnectionModel)
    requires
        connection.stage is ExpandingTargets,
        ({
            let targets = collected_paths(world.targets@, connection.sort);
            let fallback = collected_paths(world.fallback@, connection.sort);
            &&& forall|j: int|
                0 <= j < targets.len() ==> !((world.attempt)(
                    j as nat,
                    (#[trigger] targets[j]).path@,
                ) is Accepted)
            &&& connection.fallback_globs.len() == 0 || forall|j: int|
                0 <= j < fallback.len() ==> !((world.attempt)(
                    (targets.len() + j) as nat,
                    (#[trigger] fallback[j]).path@,
                ) is Accepted)
        }),
    ensures
        world.settled(connection, 0).stage == (Stage::Finished {
            result: Err("No target socket found; cannot proxy request"@),
        }),
{
    let targets = collected_paths(world.targets@, connection.sort);
    let fallback = collected_paths(world.fallback@, connection.sort);
    lemma_no_target_accepts(world, connection);
    if connection.fallback_globs.len() > 0 {
        let paths = names(fallback);
        assert forall|j: int| 0 <= j < paths.len() implies !world.accepts(
            (targets.len() + j) as nat,
            #[trigger] paths[j],
        ) by {
            assert(paths[j] == fallback[j].path@);
        }
        lemma_first_accepting_is(world, targets.len(), paths, paths.len() as int);
    }
    law_first_accepting_target_wins(world, connection);
}

/// Whether `event` is the end of the targets: none was found, or the last of them did
/// not accept.
pub open spec fn targets_exhausted(connection: ConnectionModel, event: ConnectionEvent) -> bool {
    match (connection.stage, event) {
        (
            Stage::ExpandingTargets,
            ConnectionEvent::TargetsExpanded(expansions),
        ) => collected_paths(expansions@, connection.sort).len() == 0,
        (Stage::Trying { fallback: false, rest, .. }, ConnectionEvent::ConnectFailed) => rest.len()
            == 0,
        (Stage::Trying { fallback: false, rest, .. }, ConnectionEvent::ConnectTimedOut) =>
            rest.len() == 0,
        _ => false,
    }
}

/// Once no target has accepted, all fallback patterns are expanded, if there is one at
/// least. Without any, the client is turned away.
pub proof fn law_fallback_follows_targets(
    connection: ConnectionModel,
    event: ConnectionEvent,
    action: ConnectionAction,
)
    requires
        targets_exhausted(connection, event),
        connection.after(event).calls_for(action),
    ensures
        connection.fallback_globs.len() > 0 ==> {
            &&& connection.after(event).stage is ExpandingFallback
            &&& action is ExpandFallback
            &&& action->ExpandFallback_globs@ == connection.fallback_globs
        },
        connection.fallback_globs.len() == 0 ==> {
            &&& action is Finish
            &&& action->Finish_0 is Err
            &&& action->Finish_0->Err_0@ == "No target socket found; cannot proxy request"@
        },
{
}

/// What patterns give is tried from the first path on, whether they are the target
/// patterns or the fallback patterns.
pub proof fn law_first_path_is_tried_first(
    connection: ConnectionModel,
    expansions: Vec<GlobExpansion>,
    fallback: bool,
    action: ConnectionAction,
)
    requires
        fallback ==> connection.stage is ExpandingFallback,
        !fallback ==> connection.stage is ExpandingTargets,
        collected_paths(expansions@, connection.sort).len() > 0,
        connection.after(
            if fallback {
                ConnectionEvent::FallbackExpanded(expansions)
            } else {
                ConnectionEvent::TargetsExpanded(expansions)
            },
        ).calls_for(action),
    ensures
        action is Connect,
        action->path@ == collected_paths(expansions@, connection.sort)[0].path@,
        match (action->timeout, connection.timeout) {
            (Some(span), Some(length)) => span@ == length,
            (None, None) => true,
            _ => false,
        },
        ({
            let found = collected_paths(expansions@, connection.sort);
            let next = connection.after(
                if fallback {
                    ConnectionEvent::FallbackExpanded(expansions)
                } else {
                    ConnectionEvent::TargetsExpanded(expansions)
                },
            );
            &&& next.stage is Trying
            &&& next.stage->fallback == fallback
            &&& next.stage->rest.len() == found.len() - 1
            &&& forall|i: int|
                1 <= i < found.len() ==> next.stage->rest[i - 1] == (#[trigger] found[i]).path@
        }),
{
    let found = collected_paths(expansions@, connection.sort);
    let paths = names(found);
    assert(paths[0] == found[0].path@);
    assert forall|i: int| 1 <= i < found.len() implies paths.skip(1)[i - 1] == (
    #[trigger] found[i]).path@ by {
        assert(paths[i] == found[i].path@);
    }
}

/// A path that does not accept is passed over for the next one.
pub proof fn law_next_path_is_tried_next(
    connection: ConnectionModel,
    event: ConnectionEvent,
    fallback: bool,
    current: Seq<u8>,
    rest: Seq<Seq<u8>>,
    action: ConnectionAction,
)
    requires
        connection.stage == (Stage::Trying { fallback, current, rest }),
        event is ConnectFailed || event is ConnectTimedOut,
        rest.len() > 0,
        connection.after(event).calls_for(action),
    ensures
        connection.after(event).stage == (Stage::Trying {
            fallback,
            current: rest[0],
            rest: rest.subrange(1, rest.len() as int),
        }),
        action is Connect,
        action->path@ == rest[0],
        match (action->timeout, connection.timeout) {
            (Some(span), Some(length)) => span@ == length,
            (None, None) => true,
            _ => false,
        },
{
    assert(rest.skip(1) =~= rest.subrange(1, rest.len() as int));
}

/// Where the last fallback does not accept, or there is none, the client is turned
/// away.
pub proof fn law_nothing_follows_the_fallback(
    connection: ConnectionModel,
    expansions: Vec<GlobExpansion>,
    event: ConnectionEvent,
    current: Seq<u8>,
)
    ensures
        connection.stage is ExpandingFallback && collected_paths(
            expansions@,
            connection.sort,
        ).len() == 0 ==> connection.after(ConnectionEvent::FallbackExpanded(expansions)).stage == (
        Stage::Finished { result: Err("No target socket found; cannot proxy request"@) }),
        connection.stage == (Stage::Trying { fallback: true, current, rest: Seq::empty() }) && (
        event is ConnectFailed || event is ConnectTimedOut) ==> connection.after(event).stage == (
        Stage::Finished { result: Err("No target socket found; cannot proxy request"@) }),
{
}

/// The socket that accepts is the one that data is copied to and from. When that comes
/// to its end, its result is the result, with all of the text of an error.
pub proof fn law_accepting_socket_is_used(
    connection: ConnectionModel,
    fallback: bool,
    current: Seq<u8>,
    rest: Seq<Seq<u8>>,
    result: Result<(), String>,
    action: ConnectionAction,
)
    requires
        connection.stage == (Stage::Trying { fallback, current, rest }),
    ensures
        ({
            let proxying = connection.after(ConnectionEvent::Connected);
            let finished = proxying.after(ConnectionEvent::Proxied(result));
            &&& proxying.stage == (Stage::Proxying { path: current })
            &&& proxying.calls_for(action) ==> action is Proxy
            &&& finished.calls_for(action) ==> {
                &&& action is Finish
                &&& action->Finish_0 is Ok <==> result is Ok
                &&& result is Err ==> action->Finish_0->Err_0@ == result->Err_0@
            }
        }),
{
}

/// A connection that was just accepted has its target patterns expanded, all of them.
/// Times are looked up only where the paths are not sorted by name.
pub proof fn law_all_targets_are_expanded(connection: ConnectionModel, action: ConnectionAction)
    requires
        connection.stage is ExpandingTargets,
        connection.calls_for(action),
    ensures
        action is ExpandTargets,
        action->ExpandTargets_globs@ == connection.target_globs,
        action->ExpandTargets_with_times <==> connection.sort == GlobSort::TimestampOldest
            || connection.sort == GlobSort::TimestampNewest,
{
}

/// Likewise for the fallback patterns.
pub proof fn law_all_fallbacks_are_expanded(connection: ConnectionModel, action: ConnectionAction)
    requires
        connection.stage is ExpandingFallback,
        connection.calls_for(action),
    ensures
        action is ExpandFallback,
        action->ExpandFallback_globs@ == connection.fallback_globs,
        action->ExpandFallback_with_times <==> connection.sort == GlobSort::TimestampOldest
            || connection.sort == GlobSort::TimestampNewest,
{
}

/// What can come of an action is what the action can bring about, whatever it is.
pub proof fn law_what_comes_of_an_action(
    connection: ConnectionModel,
    action: ConnectionAction,
    event: ConnectionEvent,
)
    requires
        connection.calls_for(action),
    ensures
        connection.expects(event) <==> match action {
            ConnectionAction::ExpandTargets { .. } => event is TargetsExpanded,
            ConnectionAction::ExpandFallback { .. } => event is FallbackExpanded,
            ConnectionAction::Connect { .. } => event is Connected || event is ConnectFailed
                || event is ConnectTimedOut,
            ConnectionAction::Proxy => event is Proxied,
            ConnectionAction::Finish(_) => false,
        },
{
}

} // verus!
