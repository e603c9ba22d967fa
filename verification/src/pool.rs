//! The decisions of the connection pool.
//!
//! A pool keeps its idle connections in a `ConcurrentBag` and counts the
//! connections it has opened. Opening a connection (within a timeout), asking
//! the factory whether a connection is still valid, and waiting for another
//! thread to give a connection back are work done outside: `ConnectionPool`
//! here says what to do next (`InitStep` while a pool is built, `GetStep`
//! for a request) and takes the outcome of that work as the argument of its
//! next step. It also counts the connections out of the bag, so that it can
//! show that no more than `max_connections` ever exist.

use vstd::prelude::*;
use crate::concurrent_bag_list::{ConcurrentBag, ConcurrentBagView};

verus! {

/// The settings of a pool.
#[derive(Clone, Copy)]
pub struct ConnectionPoolConfig {
    pub initial_connections: u16,
    pub max_connections: u16,
    pub connect_timeout_millis: u32,
    pub get_timeout_millis: u32,
}

impl ConnectionPoolConfig {
    /// Settings with the given values.
    pub fn new(
        initial_connections: u16,
        max_connections: u16,
        connect_timeout_millis: u32,
        get_timeout_millis: u32,
    ) -> (config: ConnectionPoolConfig)
        ensures
            config.initial_connections == initial_connections,
            config.max_connections == max_connections,
            config.connect_timeout_millis == connect_timeout_millis,
            config.get_timeout_millis == get_timeout_millis,
    {
        ConnectionPoolConfig {
            initial_connections,
            max_connections,
            connect_timeout_millis,
            get_timeout_millis,
        }
    }
}

/// An error of the pool, with its message.
#[derive(Debug, Clone)]
pub struct HkcpError {
    message: String,
}

impl View for HkcpError {
    type V = Seq<char>;

    closed spec fn view(&self) -> Seq<char> {
        self.message@
    }
}

impl HkcpError {
    /// An error with the given message.
    pub fn new(message: String) -> (e: HkcpError)
        ensures
            e@ == message@,
    {
        HkcpError { message }
    }

    /// The message.
    pub fn description(&self) -> (message: &str)
        ensures
            message@ == self@,
    {
        self.message.as_str()
    }

    /// The text that displaying the error shows: its message.
    pub fn to_string(&self) -> (text: String)
        ensures
            text@ == self@,
    {
        self.message.clone()
    }
}

/// The message of a request that found no connection to hand out.
pub open spec fn no_available_connection() -> Seq<char> {
    "No available connection in pool"@
}

/// The message of a request whose new connection was not found in the bag.
pub open spec fn entry_missing_from_bag() -> Seq<char> {
    "Internal Error while getting entry from bag"@
}

fn no_available_connection_error() -> (e: HkcpError)
    ensures
        e@ == no_available_connection(),
{
    HkcpError::new(String::from_str("No available connection in pool"))
}

fn entry_missing_from_bag_error() -> (e: HkcpError)
    ensures
        e@ == entry_missing_from_bag(),
{
    HkcpError::new(String::from_str("Internal Error while getting entry from bag"))
}

/// What a request for a connection does next.
pub enum GetStep<C> {
    /// Hand this connection to the caller.
    Ready(C),
    /// The request fails with this error.
    Failed(HkcpError),
    /// Ask the factory whether this idle connection is still valid, then call
    /// `check_connection`.
    Validate(C),
    /// Ask the factory whether this connection, found after a wait, is still
    /// valid, then call `check_waited_connection`.
    ValidateAfterWait(C),
    /// Open a new connection within the connect timeout, then call
    /// `connection_created`.
    Connect,
    /// Wait up to the get timeout for a connection to be given back, then
    /// call `wait_finished`.
    Wait,
}

/// A `GetStep` with the error taken by its message.
pub enum GetStepView<C> {
    Ready(C),
    Failed(Seq<char>),
    Validate(C),
    ValidateAfterWait(C),
    Connect,
    Wait,
}

impl<C> View for GetStep<C> {
    type V = GetStepView<C>;

    open spec fn view(&self) -> GetStepView<C> {
        match self {
            GetStep::Ready(c) => GetStepView::Ready(*c),
            GetStep::Failed(e) => GetStepView::Failed(e@),
            GetStep::Validate(c) => GetStepView::Validate(*c),
            GetStep::ValidateAfterWait(c) => GetStepView::ValidateAfterWait(*c),
            GetStep::Connect => GetStepView::Connect,
            GetStep::Wait => GetStepView::Wait,
        }
    }
}

/// An outcome of opening a connection, with the error taken by its message.
pub open spec fn outcome_view<C>(outcome: Result<C, HkcpError>) -> Result<C, Seq<char>> {
    match outcome {
        Ok(c) => Ok(c),
        Err(e) => Err(e@),
    }
}

/// What building a pool does next, while it opens its initial connections.
pub enum InitStep {
    /// Open one more connection within the connect timeout, then call
    /// `initial_connection_created`.
    Connect,
    /// The pool is built.
    Done,
    /// Building the pool fails with this error.
    Failed(HkcpError),
}

/// An `InitStep` with the error taken by its message.
pub enum InitStepView {
    Connect,
    Done,
    Failed(Seq<char>),
}

impl View for InitStep {
    type V = InitStepView;

    open spec fn view(&self) -> InitStepView {
        match self {
            InitStep::Connect => InitStepView::Connect,
            InitStep::Done => InitStepView::Done,
            InitStep::Failed(e) => InitStepView::Failed(e@),
        }
    }
}

/// The abstract state of a pool.
pub struct ConnectionPoolView<C> {
    /// The idle connections.
    pub bag: ConcurrentBagView<C>,
    /// The count of connections that the pool holds itself to.
    pub current_connections_num: u16,
    /// How many connections were opened (wrapping).
    pub available_entries: u16,
    /// How many connections are out of the bag: being validated or lent.
    pub lent_connections: u16,
    pub config: ConnectionPoolConfig,
}

impl<C> ConnectionPoolView<C> {
    /// The connections that exist: idle ones and those out of the bag.
    pub open spec fn live(self) -> int {
        self.bag.len() + self.lent_connections
    }

    /// The most connections the pool ever holds: `max_connections`, or more
    /// when more initial connections are asked for.
    pub open spec fn cap(self) -> int {
        if self.config.initial_connections <= self.config.max_connections {
            self.config.max_connections as int
        } else {
            self.config.initial_connections as int
        }
    }

    /// The bag keeps its invariant; the count covers every connection that
    /// exists, and no more than `cap` exist.
    pub open spec fn wf(self) -> bool {
        &&& self.bag.wf()
        &&& self.live() <= self.current_connections_num
        &&& self.live() <= self.cap()
    }

    /// A pool that holds no connection yet.
    pub open spec fn empty(config: ConnectionPoolConfig) -> ConnectionPoolView<C> {
        ConnectionPoolView {
            bag: ConcurrentBagView {
                list_1: Seq::empty(),
                list_2: Seq::empty(),
                available_1: 0,
                available_2: 0,
                sequence_gen: 0,
                sequence_gen_release: 0,
            },
            current_connections_num: 0,
            available_entries: 0,
            lent_connections: 0,
            config,
        }
    }

    /// While the pool is built: open another connection while fewer than
    /// `initial_connections` are counted, else the pool is built.
    pub open spec fn initial_step(self) -> InitStepView {
        if self.current_connections_num < self.config.initial_connections {
            InitStepView::Connect
        } else {
            InitStepView::Done
        }
    }

    /// The outcome of opening an initial connection: a new connection is
    /// added (`add_connection`) and building goes on (`initial_step`); a
    /// failure ends the building with the same message.
    pub open spec fn initial_created(self, outcome: Result<C, Seq<char>>) -> (
        ConnectionPoolView<C>,
        InitStepView,
    ) {
        match outcome {
            Ok(conn) => (self.add_connection(conn), self.add_connection(conn).initial_step()),
            Err(message) => (self, InitStepView::Failed(message)),
        }
    }

    /// With no idle connection to hand out: open a new one while fewer than
    /// `max_connections` are counted, else wait for one to be given back.
    pub open spec fn decide(self) -> GetStepView<C> {
        if self.current_connections_num < self.config.max_connections {
            GetStepView::Connect
        } else {
            GetStepView::Wait
        }
    }

    /// The pool after a connection is taken out of the bag.
    pub open spec fn take(self) -> (ConnectionPoolView<C>, Option<C>) {
        let (bag, taken) = self.bag.borrow();
        let lent = if taken is Some {
            (self.lent_connections + 1) as u16
        } else {
            self.lent_connections
        };
        (ConnectionPoolView { bag, lent_connections: lent, ..self }, taken)
    }

    /// A request for a connection: an idle connection, taken from the bag, is
    /// to be validated; without one, `decide`.
    pub open spec fn get(self) -> (ConnectionPoolView<C>, GetStepView<C>) {
        let (pool, taken) = self.take();
        match taken {
            Some(c) => (pool, GetStepView::Validate(c)),
            None => (pool, pool.decide()),
        }
    }

    /// The pool after an invalid connection, out of the bag, is thrown away:
    /// one fewer counted and one fewer out of the bag.
    pub open spec fn discard(self) -> ConnectionPoolView<C> {
        ConnectionPoolView {
            current_connections_num: (self.current_connections_num - 1) as u16,
            lent_connections: (self.lent_connections - 1) as u16,
            ..self
        }
    }

    /// The verdict on an idle connection: a valid one is handed out; an
    /// invalid one is thrown away and the request starts over.
    pub open spec fn check(self, conn: C, valid: bool) -> (ConnectionPoolView<C>, GetStepView<C>) {
        if valid {
            (self, GetStepView::Ready(conn))
        } else {
            self.discard().get()
        }
    }

    /// The verdict on a connection found after a wait: a valid one is handed
    /// out; an invalid one is thrown away and the pool decides again.
    pub open spec fn check_waited(self, conn: C, valid: bool) -> (
        ConnectionPoolView<C>,
        GetStepView<C>,
    ) {
        if valid {
            (self, GetStepView::Ready(conn))
        } else {
            (self.discard(), self.discard().decide())
        }
    }

    /// The pool after it opened `conn`: one more counted, one more opened,
    /// and the connection idle in the bag.
    pub open spec fn add_connection(self, conn: C) -> ConnectionPoolView<C> {
        ConnectionPoolView {
            bag: self.bag.release(conn),
            current_connections_num: (self.current_connections_num + 1) as u16,
            available_entries: self.available_entries.wrapping_add(1),
            ..self
        }
    }

    /// The outcome of opening a connection for a request. A failure is the
    /// request's failure, with the same message. A new connection is added
    /// (`add_connection`), counted once more, and the request takes a
    /// connection from the bag; a bag that hands out nothing fails the request.
    pub open spec fn created(self, outcome: Result<C, Seq<char>>) -> (
        ConnectionPoolView<C>,
        Result<C, Seq<char>>,
    ) {
        match outcome {
            Ok(conn) => {
                let added = self.add_connection(conn);
                let counted = ConnectionPoolView {
                    current_connections_num: (added.current_connections_num + 1) as u16,
                    ..added
                };
                let (pool, taken) = counted.take();
                match taken {
                    Some(c) => (pool, Ok(c)),
                    None => (pool, Err(entry_missing_from_bag())),
                }
            },
            Err(message) => (self, Err(message)),
        }
    }

    /// The end of a wait: a wait that timed out fails the request; otherwise
    /// a connection taken from the bag is to be validated, and a bag that
    /// hands out nothing fails the request.
    pub open spec fn waited(self, timed_out: bool) -> (ConnectionPoolView<C>, GetStepView<C>) {
        if timed_out {
            (self, GetStepView::Failed(no_available_connection()))
        } else {
            let (pool, taken) = self.take();
            match taken {
                Some(c) => (pool, GetStepView::ValidateAfterWait(c)),
                None => (pool, GetStepView::Failed(no_available_connection())),
            }
        }
    }

    /// The pool after `conn` is given back: idle in the bag, one fewer out
    /// of the bag.
    pub open spec fn release(self, conn: C) -> ConnectionPoolView<C> {
        ConnectionPoolView {
            bag: self.bag.release(conn),
            lent_connections: (self.lent_connections - 1) as u16,
            ..self
        }
    }
}

/// Taking a connection out of the bag of a well-formed pool keeps it well
/// formed, and succeeds exactly when the bag is not empty.
proof fn lemma_take<C>(v: ConnectionPoolView<C>)
    requires
        v.wf(),
    ensures
        v.take().0.wf(),
        v.take().1 is Some <==> v.bag.len() > 0,
        v.take().0.live() == v.live(),
        v.take().0.bag.len() + (if v.take().1 is Some { 1int } else { 0int }) == v.bag.len(),
        v.take().1 matches Some(c) ==> v.take().0.bag.entries().insert(c) == v.bag.entries(),
{
    broadcast use vstd::multiset::group_multiset_axioms;

    crate::concurrent_bag_list::lemma_borrow_conserves_entries(v.bag);
    crate::concurrent_bag_list::lemma_borrow_succeeds_iff_not_empty(v.bag);
    if v.take().1 is Some {
        let c = v.take().1->0;
        assert(v.take().0.bag.entries().insert(c) =~= v.bag.entries());
    }
}

/// Giving a connection to the bag (opened or given back) makes it one more.
proof fn lemma_bag_release<C>(v: ConnectionPoolView<C>, conn: C)
    requires
        v.bag.wf(),
    ensures
        v.bag.release(conn).wf(),
        v.bag.release(conn).len() == v.bag.len() + 1,
{
    crate::concurrent_bag_list::lemma_release_conserves_entries(v.bag, conn);
}

/// Building a pool, with the outcomes of its connection attempts in order:
/// each attempt is made only while the building asks for one.
pub open spec fn initial_run<C>(pool: ConnectionPoolView<C>, outcomes: Seq<Result<C, Seq<char>>>) -> (
    ConnectionPoolView<C>,
    InitStepView,
)
    decreases outcomes.len(),
{
    if outcomes.len() == 0 {
        (pool, pool.initial_step())
    } else {
        let (p, step) = initial_run(pool, outcomes.drop_last());
        if step is Connect {
            p.initial_created(outcomes.last())
        } else {
            (p, step)
        }
    }
}

/// The outcomes of attempts that each opened a connection.
pub open spec fn all_opened<C>(conns: Seq<C>) -> Seq<Result<C, Seq<char>>> {
    conns.map_values(|c: C| Ok(c))
}

/// The pool after it opened each of `conns`, in order.
pub open spec fn open_all<C>(pool: ConnectionPoolView<C>, conns: Seq<C>) -> ConnectionPoolView<C>
    decreases conns.len(),
{
    if conns.len() == 0 {
        pool
    } else {
        open_all(pool, conns.drop_last()).add_connection(conns.last())
    }
}

/// After a new pool opens connections (at most `initial_connections`), it
/// holds exactly those as idle connections, counts each of them once, and
/// lends none.
pub proof fn lemma_initial_connections<C>(config: ConnectionPoolConfig, conns: Seq<C>)
    requires
        conns.len() <= config.initial_connections,
    ensures
        open_all(ConnectionPoolView::empty(config), conns).wf(),
        open_all(ConnectionPoolView::empty(config), conns).bag.entries() == conns.to_multiset(),
        open_all(ConnectionPoolView::empty(config), conns).bag.len() == conns.len(),
        open_all(ConnectionPoolView::empty(config), conns).current_connections_num == conns.len(),
        open_all(ConnectionPoolView::empty(config), conns).available_entries == conns.len(),
        open_all(ConnectionPoolView::empty(config), conns).lent_connections == 0,
        open_all(ConnectionPoolView::empty(config), conns).config == config,
    decreases conns.len(),
{
    broadcast use vstd::multiset::group_multiset_axioms;
    broadcast use vstd::seq_lib::group_to_multiset_ensures;

    let empty = ConnectionPoolView::<C>::empty(config);
    if conns.len() == 0 {
        assert(empty.bag.entries() =~= conns.to_multiset());
    } else {
        let before = conns.drop_last();
        lemma_initial_connections(config, before);
        let p = open_all(empty, before);
        crate::concurrent_bag_list::lemma_release_conserves_entries(p.bag, conns.last());
        assert(before.push(conns.last()) =~= conns);
    }
}

/// Building a pool whose connection attempts all open a connection: after
/// `k` of them (`k` at most `initial_connections`) the pool holds exactly
/// those `k` connections (`lemma_initial_connections`), and asks for another
/// attempt exactly while `k < initial_connections`; once built it asks for
/// none.
pub proof fn lemma_initial_run_opens<C>(config: ConnectionPoolConfig, conns: Seq<C>)
    requires
        conns.len() <= config.initial_connections,
    ensures
        initial_run(ConnectionPoolView::empty(config), all_opened(conns)) == (
            open_all(ConnectionPoolView::empty(config), conns),
            if conns.len() < config.initial_connections {
                InitStepView::Connect
            } else {
                InitStepView::Done
            },
        ),
    decreases conns.len(),
{
    lemma_initial_connections(config, conns);
    if conns.len() > 0 {
        let before = conns.drop_last();
        assert(all_opened(conns).drop_last() =~= all_opened(before));
        lemma_initial_run_opens(config, before);
    }
}

/// Building a pool whose attempts open `conns` and whose next attempt fails
/// with `message`, before `initial_connections` are open: the building fails
/// with that message, after exactly `conns.len() + 1` attempts (it asks for
/// no more, `lemma_initial_run_finished`), and the connections opened so far
/// are left in the state that is given up.
pub proof fn lemma_initial_run_fails<C>(
    config: ConnectionPoolConfig,
    conns: Seq<C>,
    message: Seq<char>,
)
    requires
        conns.len() < config.initial_connections,
    ensures
        initial_run(ConnectionPoolView::empty(config), all_opened(conns).push(Err(message))) == (
            open_all(ConnectionPoolView::empty(config), conns),
            InitStepView::Failed(message),
        ),
{
    lemma_initial_run_opens(config, conns);
    assert(all_opened(conns).push(Err(message)).drop_last() =~= all_opened(conns));
}

/// Once building is done or has failed, it asks for no more attempts:
/// further outcomes change nothing.
pub proof fn lemma_initial_run_finished<C>(
    pool: ConnectionPoolView<C>,
    outcomes: Seq<Result<C, Seq<char>>>,
    more: Seq<Result<C, Seq<char>>>,
)
    requires
        !(initial_run(pool, outcomes).1 is Connect),
    ensures
        initial_run(pool, outcomes + more) == initial_run(pool, outcomes),
    decreases more.len(),
{
    if more.len() == 0 {
        assert(outcomes + more =~= outcomes);
    } else {
        lemma_initial_run_finished(pool, outcomes, more.drop_last());
        assert((outcomes + more).drop_last() =~= outcomes + more.drop_last());
    }
}

/// What a request's first step is. While the pool holds idle connections it
/// takes one of them out of the bag for validation, lending it, and counts
/// no new connection. With none idle the pool is left as it was, and the
/// request opens a connection exactly when fewer than `max_connections` are
/// counted and waits otherwise. A first step never fails a request.
pub proof fn lemma_get_first_step<C>(v: ConnectionPoolView<C>)
    requires
        v.wf(),
    ensures
        v.get().0.wf(),
        v.get().0.current_connections_num == v.current_connections_num,
        v.get().0.available_entries == v.available_entries,
        v.get().0.config == v.config,
        v.bag.len() > 0 ==> (v.get().1 matches GetStepView::Validate(c) && {
            &&& v.get().0.bag.entries().insert(c) == v.bag.entries()
            &&& v.get().0.bag.len() + 1 == v.bag.len()
            &&& v.get().0.lent_connections == v.lent_connections + 1
        }),
        v.bag.len() == 0 ==> {
            &&& v.get().0 == v
            &&& (v.get().1 is Connect <==> v.current_connections_num < v.config.max_connections)
            &&& (v.get().1 is Wait <==> v.current_connections_num >= v.config.max_connections)
        },
        v.get().1 is Validate || v.get().1 is Connect || v.get().1 is Wait,
{
    lemma_take(v);
}

/// What the end of a wait gives. A wait that timed out fails the request
/// with "No available connection in pool" and leaves the pool as it was. A
/// wait that did not time out takes an idle connection, whichever the bag
/// holds, out of the bag for validation, lending it; only with none idle
/// does it fail the request, leaving the pool as it was. It never opens a
/// connection.
pub proof fn lemma_wait_end<C>(v: ConnectionPoolView<C>, timed_out: bool)
    requires
        v.wf(),
    ensures
        v.waited(timed_out).0.wf(),
        v.waited(timed_out).0.current_connections_num == v.current_connections_num,
        v.waited(timed_out).0.available_entries == v.available_entries,
        timed_out ==> v.waited(timed_out) == (v, GetStepView::<C>::Failed(no_available_connection())),
        !timed_out && v.bag.len() > 0 ==> (v.waited(timed_out).1 matches GetStepView::ValidateAfterWait(c) && {
            &&& v.waited(timed_out).0.bag.entries().insert(c) == v.bag.entries()
            &&& v.waited(timed_out).0.bag.len() + 1 == v.bag.len()
            &&& v.waited(timed_out).0.lent_connections == v.lent_connections + 1
        }),
        !timed_out && v.bag.len() == 0 ==> v.waited(timed_out) == (v, GetStepView::<C>::Failed(no_available_connection())),
{
    lemma_take(v);
}

/// What the factory's verdict on an idle connection leads to. A valid one
/// is handed out and nothing else changes. An invalid one is thrown away:
/// one fewer is counted and one fewer lent; then, while the pool still holds
/// idle connections, the next one is taken out of the bag for validation
/// (an idle connection comes before connecting or waiting); with none idle,
/// a connection is opened exactly when the lower count is below
/// `max_connections`, and the request waits otherwise.
pub proof fn lemma_check_verdict<C>(v: ConnectionPoolView<C>, conn: C, valid: bool)
    requires
        v.wf(),
        !valid ==> v.lent_connections > 0,
    ensures
        v.check(conn, valid).0.wf(),
        valid ==> v.check(conn, valid) == (v, GetStepView::Ready(conn)),
        !valid ==> v.check(conn, valid).0.current_connections_num + 1 == v.current_connections_num,
        !valid ==> v.check(conn, valid).0.available_entries == v.available_entries,
        !valid && v.bag.len() > 0 ==> (v.check(conn, valid).1 matches GetStepView::Validate(c) && {
            &&& v.check(conn, valid).0.bag.entries().insert(c) == v.bag.entries()
            &&& v.check(conn, valid).0.lent_connections == v.lent_connections
        }),
        !valid && v.bag.len() == 0 ==> {
            &&& v.check(conn, valid).0.bag == v.bag
            &&& v.check(conn, valid).0.lent_connections + 1 == v.lent_connections
            &&& (v.check(conn, valid).1 is Connect <==> v.current_connections_num - 1
                < v.config.max_connections)
            &&& (v.check(conn, valid).1 is Wait <==> v.current_connections_num - 1
                >= v.config.max_connections)
        },
{
    if !valid {
        let d = v.discard();
        assert(d.wf());
        lemma_get_first_step(d);
    }
}

/// What opening a connection for a request leads to. A failed connect
/// fails only that request, with the same message, and leaves the pool as
/// it was: nothing is counted. A new connection is counted twice and
/// recorded as opened; the request takes a connection out of the bag, which
/// now holds the new one besides the idle ones, and it is lent.
pub proof fn lemma_connect_outcome<C>(v: ConnectionPoolView<C>, outcome: Result<C, Seq<char>>)
    requires
        v.wf(),
        outcome is Ok ==> v.current_connections_num < v.config.max_connections,
        outcome is Ok ==> v.current_connections_num + 2 <= u16::MAX,
    ensures
        v.created(outcome).0.wf(),
        outcome matches Err(m) ==> v.created(outcome) == (v, Err::<C, Seq<char>>(m)),
        outcome matches Ok(conn) ==> {
            &&& v.created(outcome).1 matches Ok(c) && v.created(outcome).0.bag.entries().insert(c)
                == v.bag.entries().insert(conn)
            &&& v.created(outcome).0.bag.len() == v.bag.len()
            &&& v.created(outcome).0.current_connections_num == v.current_connections_num + 2
            &&& v.created(outcome).0.available_entries == v.available_entries.wrapping_add(1)
            &&& v.created(outcome).0.lent_connections == v.lent_connections + 1
        },
{
    if let Ok(conn) = outcome {
        lemma_bag_release(v, conn);
        crate::concurrent_bag_list::lemma_release_conserves_entries(v.bag, conn);
        let added = v.add_connection(conn);
        let counted = ConnectionPoolView {
            current_connections_num: (added.current_connections_num + 1) as u16,
            ..added
        };
        assert(counted.wf());
        lemma_take(counted);
    }
}

/// Giving a connection back always makes it idle, whatever the bag held:
/// the bag gains exactly that connection, one fewer is lent, and the counts
/// are left alone.
pub proof fn lemma_release_makes_idle<C>(v: ConnectionPoolView<C>, conn: C)
    requires
        v.wf(),
        v.lent_connections > 0,
    ensures
        v.release(conn).wf(),
        v.release(conn).bag.entries() == v.bag.entries().insert(conn),
        v.release(conn).bag.len() == v.bag.len() + 1,
        v.release(conn).lent_connections + 1 == v.lent_connections,
        v.release(conn).current_connections_num == v.current_connections_num,
        v.release(conn).available_entries == v.available_entries,
        v.release(conn).config == v.config,
{
    crate::concurrent_bag_list::lemma_release_conserves_entries(v.bag, conn);
}

/// What the factory's verdict on a connection found after a wait leads to.
/// A valid one is handed out and nothing else changes. An invalid one is
/// thrown away, one fewer counted and one fewer lent, and the bag is left
/// alone; then a connection is opened exactly when the lower count is below
/// `max_connections`, and the request waits otherwise.
pub proof fn lemma_waited_verdict<C>(v: ConnectionPoolView<C>, conn: C, valid: bool)
    requires
        v.wf(),
        !valid ==> v.lent_connections > 0,
    ensures
        v.check_waited(conn, valid).0.wf(),
        valid ==> v.check_waited(conn, valid) == (v, GetStepView::Ready(conn)),
        !valid ==> {
            &&& v.check_waited(conn, valid).0.bag == v.bag
            &&& v.check_waited(conn, valid).0.current_connections_num + 1
                == v.current_connections_num
            &&& v.check_waited(conn, valid).0.lent_connections + 1 == v.lent_connections
            &&& v.check_waited(conn, valid).0.available_entries == v.available_entries
            &&& (v.check_waited(conn, valid).1 is Connect <==> v.current_connections_num - 1
                < v.config.max_connections)
            &&& (v.check_waited(conn, valid).1 is Wait <==> v.current_connections_num - 1
                >= v.config.max_connections)
        },
{
}

/// How a pool is built, step by step. It asks for another connection
/// exactly while fewer than `initial_connections` are counted. A failed
/// attempt ends the building with the same message and changes nothing. A
/// new connection becomes idle, is counted once and recorded as opened, and
/// nothing is lent.
pub proof fn lemma_initial_outcome<C>(v: ConnectionPoolView<C>, outcome: Result<C, Seq<char>>)
    requires
        v.wf(),
        v.current_connections_num < v.config.initial_connections,
    ensures
        v.initial_step() is Connect,
        v.initial_created(outcome).0.wf(),
        outcome matches Err(m) ==> v.initial_created(outcome) == (v, InitStepView::Failed(m)),
        outcome matches Ok(conn) ==> {
            &&& v.initial_created(outcome).0.bag.entries() == v.bag.entries().insert(conn)
            &&& v.initial_created(outcome).0.bag.len() == v.bag.len() + 1
            &&& v.initial_created(outcome).0.current_connections_num == v.current_connections_num + 1
            &&& v.initial_created(outcome).0.available_entries == v.available_entries.wrapping_add(1)
            &&& v.initial_created(outcome).0.lent_connections == v.lent_connections
            &&& (v.initial_created(outcome).1 is Connect <==> v.current_connections_num + 1
                < v.config.initial_connections)
            &&& (v.initial_created(outcome).1 is Done <==> v.current_connections_num + 1
                >= v.config.initial_connections)
        },
{
    if let Ok(conn) = outcome {
        lemma_bag_release(v, conn);
        crate::concurrent_bag_list::lemma_release_conserves_entries(v.bag, conn);
    }
}

/// A pool never holds more than `max_connections` connections, idle and
/// out of the bag together, when it was not asked for more initial ones.
pub proof fn lemma_never_more_than_max<C>(v: ConnectionPoolView<C>)
    requires
        v.wf(),
        v.config.initial_connections <= v.config.max_connections,
    ensures
        v.bag.len() + v.lent_connections <= v.config.max_connections,
{
}

/// Once `max_connections` connections exist, a request never opens another:
/// it takes an idle one, or waits for one to be given back.
pub proof fn lemma_full_pool_never_connects<C>(v: ConnectionPoolView<C>)
    requires
        v.wf(),
        v.live() >= v.config.max_connections,
    ensures
        v.decide() == GetStepView::<C>::Wait,
        !(v.get().1 is Connect),
        !(v.waited(false).1 is Connect),
        !(v.waited(true).1 is Connect),
{
    lemma_take(v);
}

/// An idle connection is always handed out for validation before the pool
/// opens a new one or waits: while the pool holds idle connections, a
/// request takes one of them out of the bag, and the count of connections
/// is left alone.
pub proof fn lemma_idle_connection_first<C>(v: ConnectionPoolView<C>)
    requires
        v.wf(),
        v.bag.len() > 0,
    ensures
        v.get().1 matches GetStepView::Validate(c) && {
            &&& v.get().0.bag.entries().insert(c) == v.bag.entries()
            &&& v.bag.entries().count(c) > 0
        },
        v.get().0.current_connections_num == v.current_connections_num,
        v.get().0.lent_connections == v.lent_connections + 1,
        v.get().0.wf(),
{
    broadcast use vstd::multiset::group_multiset_axioms;

    lemma_take(v);
}

/// The pool opens a new connection only while fewer than `max_connections`
/// are counted, and waits only when that many or more are counted.
pub proof fn lemma_connect_only_below_max<C>(v: ConnectionPoolView<C>, conn: C, valid: bool)
    ensures
        v.get().1 is Connect ==> v.current_connections_num < v.config.max_connections,
        v.get().1 is Wait ==> v.current_connections_num >= v.config.max_connections,
        v.check_waited(conn, valid).1 is Connect ==> v.check_waited(
            conn,
            valid,
        ).0.current_connections_num < v.config.max_connections,
        v.check_waited(conn, valid).1 is Wait ==> v.check_waited(
            conn,
            valid,
        ).0.current_connections_num >= v.config.max_connections,
        v.check(conn, valid).1 is Connect ==> v.check(conn, valid).0.current_connections_num
            < v.config.max_connections,
        v.check(conn, valid).1 is Wait ==> v.check(conn, valid).0.current_connections_num
            >= v.config.max_connections,
{
}

/// A connection given back to a pool with no other idle connection is the
/// one that the next request takes for validation, and the pool is left
/// with no idle connection.
pub proof fn lemma_release_then_get<C>(v: ConnectionPoolView<C>, conn: C)
    requires
        v.wf(),
        v.bag.len() == 0,
        v.lent_connections > 0,
    ensures
        v.release(conn).get().1 == GetStepView::Validate(conn),
        v.release(conn).get().0.bag.len() == 0,
        v.release(conn).get().0.wf(),
        v.release(conn).get().0.current_connections_num == v.current_connections_num,
        v.release(conn).get().0.lent_connections == v.lent_connections,
{
    crate::concurrent_bag_list::lemma_release_then_borrow(v.bag, conn);
}

/// A request waiting on a pool with no idle connection gets the connection
/// that is given back during the wait: when the wait ends without timing
/// out, that connection is taken for validation, no connection is opened,
/// and the pool is left with no idle connection and the same counts.
pub proof fn lemma_release_during_wait<C>(v: ConnectionPoolView<C>, conn: C)
    requires
        v.wf(),
        v.bag.len() == 0,
        v.lent_connections > 0,
    ensures
        v.release(conn).waited(false).1 == GetStepView::ValidateAfterWait(conn),
        v.release(conn).waited(false).0.bag.len() == 0,
        v.release(conn).waited(false).0.wf(),
        v.release(conn).waited(false).0.current_connections_num == v.current_connections_num,
        v.release(conn).waited(false).0.lent_connections == v.lent_connections,
        v.release(conn).waited(false).0.available_entries == v.available_entries,
{
    crate::concurrent_bag_list::lemma_release_then_borrow(v.bag, conn);
}

/// A pool with no idle connection hands the connection that it just opened
/// to the request, is left with no idle connection, and counts the new
/// connection twice (once when adding it, once for the request).
pub proof fn lemma_new_connection_handed_out<C>(v: ConnectionPoolView<C>, conn: C)
    requires
        v.wf(),
        v.bag.len() == 0,
        v.current_connections_num < v.config.max_connections,
        v.current_connections_num + 2 <= u16::MAX,
    ensures
        v.created(Ok(conn)).1 == Ok::<C, Seq<char>>(conn),
        v.created(Ok(conn)).0.bag.len() == 0,
        v.created(Ok(conn)).0.wf(),
        v.created(Ok(conn)).0.current_connections_num == v.current_connections_num + 2,
        v.created(Ok(conn)).0.lent_connections == v.lent_connections + 1,
        v.created(Ok(conn)).0.available_entries == v.available_entries.wrapping_add(1),
{
    crate::concurrent_bag_list::lemma_release_then_borrow(v.bag, conn);
}

/// The fields of a pool.
struct PoolState<C> {
    bag: ConcurrentBag<C>,
    current_connections_num: u16,
    available_entries: u16,
    lent_connections: u16,
    config: ConnectionPoolConfig,
}

impl<C> View for PoolState<C> {
    type V = ConnectionPoolView<C>;

    closed spec fn view(&self) -> ConnectionPoolView<C> {
        ConnectionPoolView {
            bag: self.bag@,
            current_connections_num: self.current_connections_num,
            available_entries: self.available_entries,
            lent_connections: self.lent_connections,
            config: self.config,
        }
    }
}

impl<C> PoolState<C> {
    /// A pool with the given settings that holds no connection yet. It is
    /// then built by opening connections while `initial_step` asks for them,
    /// handing each outcome to `initial_connection_created`.
    fn new_with_config(pool_config: ConnectionPoolConfig) -> (pool: PoolState<C>)
        ensures
            pool@ == ConnectionPoolView::<C>::empty(pool_config),
            pool@.wf(),
    {
        PoolState {
            bag: ConcurrentBag::new(),
            current_connections_num: 0,
            available_entries: 0,
            lent_connections: 0,
            config: pool_config,
        }
    }

    /// A pool with the default settings: one initial connection, at most two,
    /// 500 ms to connect and 5000 ms to wait for a connection.
    fn new() -> (pool: PoolState<C>)
        ensures
            pool@ == ConnectionPoolView::<C>::empty(
                ConnectionPoolConfig {
                    initial_connections: 1,
                    max_connections: 2,
                    connect_timeout_millis: 500,
                    get_timeout_millis: 5000,
                },
            ),
            pool@.wf(),
    {
        PoolState::new_with_config(
            ConnectionPoolConfig {
                initial_connections: 1,
                max_connections: 2,
                connect_timeout_millis: 500,
                get_timeout_millis: 5000,
            },
        )
    }

    /// What building the pool does next (see `ConnectionPoolView::initial_step`).
    fn initial_step(&self) -> (step: InitStep)
        ensures
            step@ == self@.initial_step(),
    {
        if self.current_connections_num < self.config.initial_connections {
            InitStep::Connect
        } else {
            InitStep::Done
        }
    }

    /// Takes the outcome of opening an initial connection, asked for by
    /// `initial_step` (see `ConnectionPoolView::initial_created`).
    fn initial_connection_created(&mut self, outcome: Result<C, HkcpError>) -> (step: InitStep)
        requires
            old(self)@.wf(),
            old(self)@.initial_step() is Connect,
        ensures
            final(self)@.wf(),
            (final(self)@, step@) == old(self)@.initial_created(outcome_view(outcome)),
    {
        match self.create_connection(outcome) {
            Ok(()) => self.initial_step(),
            Err(error) => InitStep::Failed(error),
        }
    }

    /// Takes the outcome of opening a connection: a new connection is added
    /// (`add_connection`); a failure is handed back, with its message, and
    /// the pool stays as it is.
    fn create_connection(&mut self, outcome: Result<C, HkcpError>) -> (r: Result<(), HkcpError>)
        requires
            old(self)@.wf(),
            outcome is Ok ==> old(self)@.current_connections_num < old(self)@.cap(),
        ensures
            final(self)@.wf(),
            match outcome {
                Ok(conn) => r is Ok && final(self)@ == old(self)@.add_connection(conn),
                Err(e) => r matches Err(e2) && e2@ == e@ && final(self)@ == old(self)@,
            },
    {
        match outcome {
            Ok(conn) => {
                proof {
                    lemma_bag_release(self@, conn);
                }
                self.current_connections_num = self.current_connections_num + 1;
                self.available_entries = self.available_entries.wrapping_add(1);
                self.bag.release_entry(conn);
                Ok(())
            },
            Err(error) => Err(HkcpError::new(error.to_string())),
        }
    }

    /// Gives a connection, out of the bag, back to the pool: it becomes idle.
    fn release_connection(&mut self, entry: C)
        requires
            old(self)@.wf(),
            old(self)@.lent_connections > 0,
        ensures
            final(self)@.wf(),
            final(self)@ == old(self)@.release(entry),
    {
        proof {
            lemma_bag_release(self@, entry);
        }
        self.bag.release_entry(entry);
        self.lent_connections = self.lent_connections - 1;
    }

    fn get_connection_internal(&self) -> (step: GetStep<C>)
        ensures
            step@ == self@.decide(),
    {
        if self.current_connections_num < self.config.max_connections {
            GetStep::Connect
        } else {
            GetStep::Wait
        }
    }

    /// Takes a connection out of the bag (see `ConnectionPoolView::take`).
    fn take(&mut self) -> (taken: Option<C>)
        requires
            old(self)@.wf(),
        ensures
            final(self)@.wf(),
            (final(self)@, taken) == old(self)@.take(),
    {
        proof {
            lemma_take(self@);
        }
        let taken = self.bag.borrow_entry();
        if taken.is_some() {
            self.lent_connections = self.lent_connections + 1;
        }
        taken
    }

    /// Starts a request for a connection (see `ConnectionPoolView::get`).
    fn get_connection(&mut self) -> (step: GetStep<C>)
        requires
            old(self)@.wf(),
        ensures
            final(self)@.wf(),
            (final(self)@, step@) == old(self)@.get(),
    {
        let opt_entry = self.take();
        match opt_entry {
            Some(conn) => GetStep::Validate(conn),
            None => self.get_connection_internal(),
        }
    }

    /// Takes the factory's verdict on a connection that `get_connection` or
    /// this function handed out for validation (see `ConnectionPoolView::check`).
    fn check_connection(&mut self, conn: C, valid: bool) -> (step: GetStep<C>)
        requires
            old(self)@.wf(),
            !valid ==> old(self)@.lent_connections > 0,
        ensures
            final(self)@.wf(),
            (final(self)@, step@) == old(self)@.check(conn, valid),
    {
        if valid {
            GetStep::Ready(conn)
        } else {
            self.current_connections_num = self.current_connections_num - 1;
            self.lent_connections = self.lent_connections - 1;
            self.get_connection()
        }
    }

    /// Takes the factory's verdict on a connection that `wait_finished` or
    /// this function handed out for validation (see
    /// `ConnectionPoolView::check_waited`).
    fn check_waited_connection(&mut self, conn: C, valid: bool) -> (step: GetStep<C>)
        requires
            old(self)@.wf(),
            !valid ==> old(self)@.lent_connections > 0,
        ensures
            final(self)@.wf(),
            (final(self)@, step@) == old(self)@.check_waited(conn, valid),
    {
        if valid {
            GetStep::Ready(conn)
        } else {
            self.current_connections_num = self.current_connections_num - 1;
            self.lent_connections = self.lent_connections - 1;
            self.get_connection_internal()
        }
    }

    /// Takes the outcome of opening a connection for a request, asked for by
    /// a `Connect` step (see `ConnectionPoolView::created`).
    fn connection_created(&mut self, outcome: Result<C, HkcpError>) -> (r: Result<
        C,
        HkcpError,
    >)
        requires
            old(self)@.wf(),
            outcome is Ok ==> old(self)@.current_connections_num
                < old(self)@.config.max_connections,
            outcome is Ok ==> old(self)@.current_connections_num + 2 <= u16::MAX,
        ensures
            final(self)@.wf(),
            (final(self)@, outcome_view(r)) == old(self)@.created(outcome_view(outcome)),
    {
        let create_result = self.create_connection(outcome);
        match create_result {
            Ok(()) => {
                self.current_connections_num = self.current_connections_num + 1;
                let opt_entry = self.take();
                match opt_entry {
                    Some(conn) => Ok(conn),
                    None => Err(entry_missing_from_bag_error()),
                }
            },
            Err(error) => Err(HkcpError::new(error.to_string())),
        }
    }

    /// Takes the end of a wait for a connection to be given back (see
    /// `ConnectionPoolView::waited`).
    fn wait_finished(&mut self, timed_out: bool) -> (step: GetStep<C>)
        requires
            old(self)@.wf(),
        ensures
            final(self)@.wf(),
            (final(self)@, step@) == old(self)@.waited(timed_out),
    {
        if timed_out {
            return GetStep::Failed(no_available_connection_error());
        }
        let opt_entry = self.take();
        match opt_entry {
            Some(conn) => GetStep::ValidateAfterWait(conn),
            None => GetStep::Failed(no_available_connection_error()),
        }
    }





    /// The number of idle connections.
    fn idle_connections(&self) -> (n: usize)
        requires
            self@.wf(),
        ensures
            n == self@.bag.len(),
    {
        self.bag.size()
    }
}

/// The state of a pool of connections of type `C`.
pub struct ConnectionPool<C> {
    state: PoolState<C>,
}

impl<C> View for ConnectionPool<C> {
    type V = ConnectionPoolView<C>;

    closed spec fn view(&self) -> ConnectionPoolView<C> {
        self.state@
    }
}

impl<C> ConnectionPool<C> {
    /// The bag keeps its invariant; the count covers every connection that
    /// exists, and no more than `cap` exist.
    #[verifier::type_invariant]
    spec fn well_formed(self) -> bool {
        self.state@.wf()
    }

    /// Takes the state out, leaving a pool with no connection in its place.
    fn take_state(&mut self) -> (state: PoolState<C>)
        ensures
            state@ == old(self)@,
            state@.wf(),
    {
        proof {
            use_type_invariant(&*self);
        }
        let mut state = PoolState::new_with_config(self.state.config);
        std::mem::swap(&mut self.state, &mut state);
        state
    }

    /// A pool with the given settings that holds no connection yet. It is
    /// then built by opening connections while `initial_step` asks for them,
    /// handing each outcome to `initial_connection_created`.
    pub fn new_with_config(pool_config: ConnectionPoolConfig) -> (pool: ConnectionPool<C>)
        ensures
            pool@ == ConnectionPoolView::<C>::empty(pool_config),
            pool@.wf(),
    {
        ConnectionPool { state: PoolState::new_with_config(pool_config) }
    }

    /// A pool with the default settings: one initial connection, at most two,
    /// 500 ms to connect and 5000 ms to wait for a connection.
    pub fn new() -> (pool: ConnectionPool<C>)
        ensures
            pool@ == ConnectionPoolView::<C>::empty(
                ConnectionPoolConfig {
                    initial_connections: 1,
                    max_connections: 2,
                    connect_timeout_millis: 500,
                    get_timeout_millis: 5000,
                },
            ),
            pool@.wf(),
    {
        ConnectionPool { state: PoolState::new() }
    }

    /// What building the pool does next (see `ConnectionPoolView::initial_step`).
    pub fn initial_step(&self) -> (step: InitStep)
        ensures
            step@ == self@.initial_step(),
    {
        self.state.initial_step()
    }

    /// Takes the outcome of opening an initial connection, asked for by
    /// `initial_step` (see `ConnectionPoolView::initial_created`).
    pub fn initial_connection_created(&mut self, outcome: Result<C, HkcpError>) -> (step: InitStep)
        requires
            old(self)@.initial_step() is Connect,
        ensures
            final(self)@.wf(),
            (final(self)@, step@) == old(self)@.initial_created(outcome_view(outcome)),
    {
        let mut state = self.take_state();
        let step = state.initial_connection_created(outcome);
        self.state = state;
        step
    }

    /// Gives a connection, out of the bag, back to the pool: it becomes idle.
    pub fn release_connection(&mut self, entry: C)
        requires
            old(self)@.lent_connections > 0,
        ensures
            final(self)@.wf(),
            final(self)@ == old(self)@.release(entry),
    {
        let mut state = self.take_state();
        state.release_connection(entry);
        self.state = state;
    }

    /// Starts a request for a connection (see `ConnectionPoolView::get`).
    pub fn get_connection(&mut self) -> (step: GetStep<C>)
        ensures
            final(self)@.wf(),
            (final(self)@, step@) == old(self)@.get(),
    {
        let mut state = self.take_state();
        let step = state.get_connection();
        self.state = state;
        step
    }

    /// Takes the factory's verdict on a connection that `get_connection` or
    /// this function handed out for validation (see `ConnectionPoolView::check`).
    pub fn check_connection(&mut self, conn: C, valid: bool) -> (step: GetStep<C>)
        requires
            !valid ==> old(self)@.lent_connections > 0,
        ensures
            final(self)@.wf(),
            (final(self)@, step@) == old(self)@.check(conn, valid),
    {
        let mut state = self.take_state();
        let step = state.check_connection(conn, valid);
        self.state = state;
        step
    }

    /// Takes the factory's verdict on a connection that `wait_finished` or
    /// this function handed out for validation (see
    /// `ConnectionPoolView::check_waited`).
    pub fn check_waited_connection(&mut self, conn: C, valid: bool) -> (step: GetStep<C>)
        requires
            !valid ==> old(self)@.lent_connections > 0,
        ensures
            final(self)@.wf(),
            (final(self)@, step@) == old(self)@.check_waited(conn, valid),
    {
        let mut state = self.take_state();
        let step = state.check_waited_connection(conn, valid);
        self.state = state;
        step
    }

    /// Takes the outcome of opening a connection for a request, asked for by
    /// a `Connect` step (see `ConnectionPoolView::created`).
    pub fn connection_created(&mut self, outcome: Result<C, HkcpError>) -> (r: Result<
        C,
        HkcpError,
    >)
        requires
            outcome is Ok ==> old(self)@.current_connections_num
                < old(self)@.config.max_connections,
            outcome is Ok ==> old(self)@.current_connections_num + 2 <= u16::MAX,
        ensures
            final(self)@.wf(),
            (final(self)@, outcome_view(r)) == old(self)@.created(outcome_view(outcome)),
    {
        let mut state = self.take_state();
        let r = state.connection_created(outcome);
        self.state = state;
        r
    }

    /// Takes the end of a wait for a connection to be given back (see
    /// `ConnectionPoolView::waited`).
    pub fn wait_finished(&mut self, timed_out: bool) -> (step: GetStep<C>)
        ensures
            final(self)@.wf(),
            (final(self)@, step@) == old(self)@.waited(timed_out),
    {
        let mut state = self.take_state();
        let step = state.wait_finished(timed_out);
        self.state = state;
        step
    }

    /// The count of connections that the pool holds itself to.
    pub fn current_connections_num(&self) -> (n: u16)
        ensures
            n == self@.current_connections_num,
    {
        self.state.current_connections_num
    }

    /// How many connections were opened (wrapping).
    pub fn connections_opened(&self) -> (n: u16)
        ensures
            n == self@.available_entries,
    {
        self.state.available_entries
    }

    /// How many connections are out of the bag: being validated or lent.
    pub fn lent_connections(&self) -> (n: u16)
        ensures
            n == self@.lent_connections,
    {
        self.state.lent_connections
    }

    /// The settings.
    pub fn config(&self) -> (config: ConnectionPoolConfig)
        ensures
            config == self@.config,
    {
        self.state.config
    }

    /// The number of idle connections.
    pub fn idle_connections(&self) -> (n: usize)
        ensures
            n == self@.bag.len(),
    {
        proof {
            use_type_invariant(self);
        }
        self.state.idle_connections()
    }
}

} // verus!
