//! Background work over the two memories: the runner that holds both
//! stores, and the archive monitor that decides, one tick at a time, which
//! sessions are large enough to be archived.

use vstd::prelude::*;
use std::sync::Arc;
use crate::neo4j::Neo4jClient;
use crate::redis::RedisClient;

verus! {

/// The background worker: it holds the short-term and the long-term store.
pub struct Runner {
    redis: Arc<RedisClient>,
    neo4j: Arc<Neo4jClient>,
}

impl Runner {
    /// A runner over the two stores.
    pub fn new(redis: Arc<RedisClient>, neo4j: Arc<Neo4jClient>) -> (r: Self)
        ensures
            r.redis_store() == redis,
            r.graph_store() == neo4j,
    {
        Runner { redis, neo4j }
    }

    /// The short-term store.
    pub closed spec fn redis_store(&self) -> Arc<RedisClient> {
        self.redis
    }

    /// The long-term store.
    pub closed spec fn graph_store(&self) -> Arc<Neo4jClient> {
        self.neo4j
    }

    /// The short-term store.
    pub fn redis(&self) -> (r: &Arc<RedisClient>)
        ensures
            *r == self.redis_store(),
    {
        &self.redis
    }

    /// The long-term store.
    pub fn neo4j(&self) -> (n: &Arc<Neo4jClient>)
        ensures
            *n == self.graph_store(),
    {
        &self.neo4j
    }
}

/// A session holding more tokens than this is archived.
pub const ARCHIVE_TOKEN_LIMIT: u64 = 1000;

/// Seconds between two checks of the active sessions.
pub const ARCHIVE_CHECK_INTERVAL_SECS: u64 = 10;

/// Seconds between two migrations of old buffers to the graph.
pub const BUFFER_MIGRATION_INTERVAL_SECS: u64 = 3600;

/// A session with `token_count` tokens is to be archived.
pub open spec fn needs_archive(token_count: u64) -> bool {
    token_count > ARCHIVE_TOKEN_LIMIT
}

/// Whether a session with `token_count` tokens is to be archived.
pub fn should_archive(token_count: u64) -> (b: bool)
    ensures
        b == needs_archive(token_count),
{
    token_count > ARCHIVE_TOKEN_LIMIT
}

/// Where the archive monitor stands.
#[derive(Debug, Clone, Copy, PartialEq, Eq, Structural)]
pub enum Phase {
    /// Waiting for the next tick.
    Waiting,
    /// Waiting for the list of active sessions.
    Listing,
    /// Waiting for the user of the current session.
    LookingUp,
    /// Waiting for the token count of the current session.
    Counting,
    /// Waiting for the current session to be archived.
    Archiving,
    /// Listing the sessions failed; the monitor has ended.
    Stopped,
}

/// What the monitor asks to be done next.
#[derive(Debug, Clone)]
pub enum MonitorAction {
    WaitForTick,
    ListSessions,
    LookUpUser { session: String },
    CountTokens { session: String },
    Archive { user: String, session: String },
    Stop,
}

/// What came of the last action.
#[derive(Debug, Clone)]
pub enum MonitorEvent {
    Ticked,
    SessionsListed(Vec<String>),
    ListingFailed,
    UserFound(String),
    UserNotFound,
    TokensCounted(u64),
    CountFailed,
    Archived,
    ArchiveFailed,
}

/// The mathematical value of a `MonitorAction`.
pub enum ActionModel {
    WaitForTick,
    ListSessions,
    LookUpUser { session: Seq<char> },
    CountTokens { session: Seq<char> },
    Archive { user: Seq<char>, session: Seq<char> },
    Stop,
}

/// The mathematical value of a `MonitorEvent`.
pub enum EventModel {
    Ticked,
    SessionsListed(Seq<Seq<char>>),
    ListingFailed,
    UserFound(Seq<char>),
    UserNotFound,
    TokensCounted(u64),
    CountFailed,
    Archived,
    ArchiveFailed,
}

impl View for MonitorAction {
    type V = ActionModel;

    open spec fn view(&self) -> ActionModel {
        match self {
            MonitorAction::WaitForTick => ActionModel::WaitForTick,
            MonitorAction::ListSessions => ActionModel::ListSessions,
            MonitorAction::LookUpUser { session } => ActionModel::LookUpUser { session: session@ },
            MonitorAction::CountTokens { session } => ActionModel::CountTokens { session: session@ },
            MonitorAction::Archive { user, session } => ActionModel::Archive {
                user: user@,
                session: session@,
            },
            MonitorAction::Stop => ActionModel::Stop,
        }
    }
}

impl View for MonitorEvent {
    type V = EventModel;

    open spec fn view(&self) -> EventModel {
        match self {
            MonitorEvent::Ticked => EventModel::Ticked,
            MonitorEvent::SessionsListed(v) => EventModel::SessionsListed(crate::text::views(v@)),
            MonitorEvent::ListingFailed => EventModel::ListingFailed,
            MonitorEvent::UserFound(u) => EventModel::UserFound(u@),
            MonitorEvent::UserNotFound => EventModel::UserNotFound,
            MonitorEvent::TokensCounted(n) => EventModel::TokensCounted(*n),
            MonitorEvent::CountFailed => EventModel::CountFailed,
            MonitorEvent::Archived => EventModel::Archived,
            MonitorEvent::ArchiveFailed => EventModel::ArchiveFailed,
        }
    }
}

/// The mathematical value of an `ArchiveMonitor`: its phase, the sessions
/// of the current round, the index of the current session and the user it
/// belongs to.
pub struct MonitorModel {
    pub phase: Phase,
    pub sessions: Seq<Seq<char>>,
    pub next: int,
    pub user: Seq<char>,
}

/// A phase that works on one session of the round.
pub open spec fn per_session(p: Phase) -> bool {
    p == Phase::LookingUp || p == Phase::Counting || p == Phase::Archiving
}

/// The monitor is consistent: a phase that works on a session has one.
pub open spec fn monitor_wf(m: MonitorModel) -> bool {
    &&& 0 <= m.next <= m.sessions.len()
    &&& per_session(m.phase) ==> m.next < m.sessions.len()
}

/// Go on with the session at index `next`, or wait for the next tick when
/// the round has none left.
pub open spec fn continue_round(m: MonitorModel, next: int) -> MonitorModel {
    if next < m.sessions.len() {
        MonitorModel { phase: Phase::LookingUp, next, ..m }
    } else {
        MonitorModel { phase: Phase::Waiting, next, ..m }
    }
}

/// One step of the monitor: what it becomes once `e` has come of its last
/// action. An event that does not answer the pending action changes nothing.
pub open spec fn monitor_step(m: MonitorModel, e: EventModel) -> MonitorModel {
    match (m.phase, e) {
        (Phase::Waiting, EventModel::Ticked) => MonitorModel { phase: Phase::Listing, ..m },
        (Phase::Listing, EventModel::SessionsListed(v)) => continue_round(
            MonitorModel { sessions: v, ..m },
            0,
        ),
        (Phase::Listing, EventModel::ListingFailed) => MonitorModel { phase: Phase::Stopped, ..m },
        (Phase::LookingUp, EventModel::UserFound(u)) => MonitorModel {
            phase: Phase::Counting,
            user: u,
            ..m
        },
        (Phase::LookingUp, EventModel::UserNotFound) => continue_round(m, m.next + 1),
        (Phase::Counting, EventModel::TokensCounted(n)) => if needs_archive(n) {
            MonitorModel { phase: Phase::Archiving, ..m }
        } else {
            continue_round(m, m.next + 1)
        },
        (Phase::Counting, EventModel::CountFailed) => continue_round(m, m.next + 1),
        (Phase::Archiving, EventModel::Archived) => continue_round(m, m.next + 1),
        (Phase::Archiving, EventModel::ArchiveFailed) => continue_round(m, m.next + 1),
        _ => m,
    }
}

/// The action a monitor in state `m` waits on.
pub open spec fn pending_action(m: MonitorModel) -> ActionModel {
    match m.phase {
        Phase::Waiting => ActionModel::WaitForTick,
        Phase::Listing => ActionModel::ListSessions,
        Phase::LookingUp => ActionModel::LookUpUser { session: m.sessions[m.next] },
        Phase::Counting => ActionModel::CountTokens { session: m.sessions[m.next] },
        Phase::Archiving => ActionModel::Archive { user: m.user, session: m.sessions[m.next] },
        Phase::Stopped => ActionModel::Stop,
    }
}

/// A monitor that has stopped stays stopped, whatever comes.
pub proof fn lemma_stopped_is_final(m: MonitorModel, e: EventModel)
    requires
        m.phase == Phase::Stopped,
    ensures
        monitor_step(m, e) == m,
        pending_action(monitor_step(m, e)) == ActionModel::Stop,
{
}

/// A failed listing of the sessions ends the monitor.
pub proof fn lemma_failed_listing_stops(m: MonitorModel)
    requires
        m.phase == Phase::Listing,
    ensures
        monitor_step(m, EventModel::ListingFailed).phase == Phase::Stopped,
{
}

/// A session is archived only right after its token count came back above
/// the limit, and the archive names the session whose tokens were counted
/// and the user found for it.
pub proof fn lemma_archive_only_above_limit(m: MonitorModel, e: EventModel)
    requires
        monitor_wf(m),
        m.phase != Phase::Archiving,
        monitor_step(m, e).phase == Phase::Archiving,
    ensures
        m.phase == Phase::Counting,
        e matches EventModel::TokensCounted(n) && needs_archive(n),
        pending_action(monitor_step(m, e)) == (ActionModel::Archive {
            user: m.user,
            session: m.sessions[m.next],
        }),
{
}

/// One round visits the listed sessions in order: a listing starts at the
/// first session (or waits for the next tick when there is none), and each
/// step that leaves a session goes to the one after it, or back to waiting
/// after the last.
pub proof fn lemma_round_goes_in_order(m: MonitorModel, e: EventModel)
    requires
        monitor_wf(m),
    ensures
        m.phase == Phase::Listing && (e matches EventModel::SessionsListed(v)) ==> {
            &&& monitor_step(m, e).sessions == e->SessionsListed_0
            &&& monitor_step(m, e).next == 0
            &&& monitor_step(m, e).phase == (if e->SessionsListed_0.len() > 0 {
                Phase::LookingUp
            } else {
                Phase::Waiting
            })
        },
        per_session(m.phase) && monitor_step(m, e).next != m.next ==> {
            &&& monitor_step(m, e).sessions == m.sessions
            &&& monitor_step(m, e).next == m.next + 1
            &&& monitor_step(m, e).phase == (if m.next + 1 < m.sessions.len() {
                Phase::LookingUp
            } else {
                Phase::Waiting
            })
        },
{
}

/// The monitor makes progress through a round. A session is done when its
/// user is not found, its count fails or is at most 1000, or its archive has
/// been tried (whether or not it worked); the monitor then goes on to the
/// next session, or waits for the next tick after the last one. A found user
/// leads to counting that session's tokens, a count above 1000 to archiving
/// it, and a tick to listing the sessions.
pub proof fn lemma_monitor_progress(m: MonitorModel, e: EventModel)
    requires
        monitor_wf(m),
    ensures
        ({
            let done = (m.phase == Phase::LookingUp && e == EventModel::UserNotFound) || (m.phase
                == Phase::Counting && (e == EventModel::CountFailed || (e matches EventModel::TokensCounted(n)
                && n <= 1000))) || (m.phase == Phase::Archiving && (e == EventModel::Archived || e
                == EventModel::ArchiveFailed));
            done ==> {
                &&& monitor_step(m, e).sessions == m.sessions
                &&& monitor_step(m, e).next == m.next + 1
                &&& monitor_step(m, e).phase == (if m.next + 1 < m.sessions.len() {
                    Phase::LookingUp
                } else {
                    Phase::Waiting
                })
            }
        }),
        m.phase == Phase::LookingUp && (e matches EventModel::UserFound(u)) ==> {
            &&& monitor_step(m, e).phase == Phase::Counting
            &&& monitor_step(m, e).next == m.next
            &&& monitor_step(m, e).user == e->UserFound_0
        },
        m.phase == Phase::Counting && (e matches EventModel::TokensCounted(n)) && e->TokensCounted_0
            > 1000 ==> {
            &&& monitor_step(m, e).phase == Phase::Archiving
            &&& monitor_step(m, e).next == m.next
            &&& monitor_step(m, e).user == m.user
        },
        m.phase == Phase::Waiting && e == EventModel::Ticked ==> monitor_step(m, e).phase
            == Phase::Listing,
{
}

/// Every step keeps the monitor consistent.
pub proof fn lemma_step_keeps_wf(m: MonitorModel, e: EventModel)
    requires
        monitor_wf(m),
    ensures
        monitor_wf(monitor_step(m, e)),
{
}

/// The archive monitor. Every tick it lists the active sessions; for each,
/// in order, it looks up the user, counts the tokens and archives the
/// session when it holds more than `ARCHIVE_TOKEN_LIMIT` tokens. A session
/// whose user is unknown, or whose check fails, is passed over; a failed
/// listing ends the monitor.
pub struct ArchiveMonitor {
    phase: Phase,
    sessions: Vec<String>,
    next: usize,
    user: String,
}

impl View for ArchiveMonitor {
    type V = MonitorModel;

    closed spec fn view(&self) -> MonitorModel {
        MonitorModel {
            phase: self.phase,
            sessions: crate::text::views(self.sessions@),
            next: self.next as int,
            user: self.user@,
        }
    }
}

impl ArchiveMonitor {
    /// Every monitor is consistent: a phase that works on a session has one.
    #[verifier::type_invariant]
    spec fn consistent(&self) -> bool {
        &&& self.next <= self.sessions@.len()
        &&& per_session(self.phase) ==> self.next < self.sessions@.len()
    }

    /// A monitor waiting for its first tick.
    pub fn new() -> (m: ArchiveMonitor)
        ensures
            m@.phase == Phase::Waiting,
            m@.sessions == Seq::<Seq<char>>::empty(),
            m@.next == 0,
            m@.user == Seq::<char>::empty(),
            monitor_wf(m@),
            pending_action(m@) == ActionModel::WaitForTick,
    {
        let m = ArchiveMonitor { phase: Phase::Waiting, sessions: Vec::new(), next: 0, user: String::new() };
        assert(m@.sessions =~= Seq::<Seq<char>>::empty());
        m
    }

    /// The action the monitor waits on.
    pub fn pending(&self) -> (a: MonitorAction)
        ensures
            a@ == pending_action(self@),
    {
        proof {
            use_type_invariant(self);
        }
        match self.phase {
            Phase::Waiting => MonitorAction::WaitForTick,
            Phase::Listing => MonitorAction::ListSessions,
            Phase::LookingUp => MonitorAction::LookUpUser { session: self.sessions[self.next].clone() },
            Phase::Counting => MonitorAction::CountTokens { session: self.sessions[self.next].clone() },
            Phase::Archiving => MonitorAction::Archive {
                user: self.user.clone(),
                session: self.sessions[self.next].clone(),
            },
            Phase::Stopped => MonitorAction::Stop,
        }
    }

    fn advance(&mut self)
        requires
            old(self).next < old(self).sessions@.len(),
        ensures
            final(self)@ == continue_round(old(self)@, old(self)@.next + 1),
    {
        let count = self.sessions.len();
        self.phase = Phase::Waiting;
        self.next = self.next + 1;
        if self.next < count {
            self.phase = Phase::LookingUp;
        }
    }

    /// Takes in what came of the last action.
    pub fn step(&mut self, event: MonitorEvent)
        ensures
            final(self)@ == monitor_step(old(self)@, event@),
            monitor_wf(final(self)@),
    {
        proof {
            use_type_invariant(&*self);
        }
        assert(self@.sessions.len() == self.sessions@.len());
        match self.phase {
            Phase::Waiting => {
                if let MonitorEvent::Ticked = event {
                    self.phase = Phase::Listing;
                }
            },
            Phase::Listing => {
                match event {
                    MonitorEvent::SessionsListed(v) => {
                        self.next = 0;
                        self.sessions = v;
                        if self.sessions.len() > 0 {
                            self.phase = Phase::LookingUp;
                        } else {
                            self.phase = Phase::Waiting;
                        }
                    },
                    MonitorEvent::ListingFailed => {
                        self.phase = Phase::Stopped;
                    },
                    _ => {},
                }
            },
            Phase::LookingUp => {
                assert(self.next < self.sessions@.len());
                match event {
                    MonitorEvent::UserFound(u) => {
                        self.user = u;
                        self.phase = Phase::Counting;
                    },
                    MonitorEvent::UserNotFound => {
                        self.advance();
                    },
                    _ => {},
                }
            },
            Phase::Counting => {
                assert(self.next < self.sessions@.len());
                match event {
                    MonitorEvent::TokensCounted(n) => {
                        if should_archive(n) {
                            self.phase = Phase::Archiving;
                        } else {
                            self.advance();
                        }
                    },
                    MonitorEvent::CountFailed => {
                        self.advance();
                    },
                    _ => {},
                }
            },
            Phase::Archiving => {
                assert(self.next < self.sessions@.len());
                match event {
                    MonitorEvent::Archived => {
                        self.advance();
                    },
                    MonitorEvent::ArchiveFailed => {
                        self.advance();
                    },
                    _ => {},
                }
            },
            Phase::Stopped => {},
        }
    }
}

} // verus!
