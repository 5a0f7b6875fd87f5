//! Connection pooling, and the answer to a query that was prepared.

use crate::error::AppError;
use crate::handlers::OutputFormat;
use std::sync::atomic::{AtomicUsize, Ordering};
use std::sync::Arc;
use vstd::prelude::*;

verus! {

/// A pool of read-only SQLite database connections for concurrent query execution.
pub struct ConnectionPool<C> {
    connections: Arc<Vec<C>>,
    next_index: Arc<AtomicUsize>,
}

impl<C> View for ConnectionPool<C> {
    type V = Seq<C>;

    /// The connections.
    closed spec fn view(&self) -> Seq<C> {
        self.connections@
    }
}

impl<C> Clone for ConnectionPool<C> {
    /// Another handle to the same pool.
    fn clone(&self) -> (r: ConnectionPool<C>)
        ensures
            r@ == self@,
    {
        ConnectionPool {
            connections: self.connections.clone(),
            next_index: self.next_index.clone(),
        }
    }
}

/// Whose turn it is among so many connections.
pub open spec fn turn(ticket: nat, size: nat) -> nat {
    ticket % size
}

impl<C> ConnectionPool<C> {
    /// Creates a new connection pool with the specified database connections.
    pub fn new(connections: Vec<C>) -> (r: ConnectionPool<C>)
        ensures
            r@ == connections@,
    {
        ConnectionPool {
            connections: Arc::new(connections),
            next_index: Arc::new(AtomicUsize::new(0)),
        }
    }

    /// The connection whose turn it is. Turns go round by the tickets that are drawn
    /// one after the other.
    pub fn connection_at(&self, ticket: usize) -> (r: &C)
        requires
            self@.len() > 0,
        ensures
            *r == self@[turn(ticket as nat, self@.len()) as int],
    {
        &self.connections[ticket % self.connections.len()]
    }

    /// Draws the next ticket. It is left open which that is, as others may be
    /// drawing at the same time.
    pub fn draw_ticket(&self) -> usize {
        self.next_index.fetch_add(1, Ordering::Relaxed)
    }

    /// Returns the total number of connections in the pool.
    pub fn size(&self) -> (r: usize)
        ensures
            r == self@.len(),
    {
        self.connections.len()
    }

    /// Returns `true` if the connection pool contains no connections.
    pub fn is_empty(&self) -> (r: bool)
        ensures
            r == (self@.len() == 0),
    {
        self.connections.len() == 0
    }
}

impl<C: Clone> ConnectionPool<C> {
    /// Returns the next database connection from the pool in round-robin order: the one
    /// whose turn it is by the ticket that is drawn for it.
    pub fn get_connection(&self) -> (r: C)
        requires
            self@.len() > 0,
        ensures
            exists|ticket: usize|
                call_ensures(ConnectionPool::<C>::draw_ticket, (self,), ticket) && cloned(
                    self@[#[trigger] turn(ticket as nat, self@.len()) as int],
                    r,
                ),
    {
        let ticket: usize = self.draw_ticket();
        let connection: C = self.connection_at(ticket).clone();
        assert(cloned(self@[turn(ticket as nat, self@.len()) as int], connection));
        connection
    }
}

/// How many connections a pool is opened with: as many as asked for, or as many as
/// the machine runs threads at once, or one.
pub fn connection_count(pool_size: usize, parallelism: Option<usize>) -> (r: usize)
    ensures
        r == (if pool_size != 0 {
            pool_size
        } else {
            match parallelism {
                Some(threads) => threads,
                None => 1,
            }
        }),
{
    if pool_size == 0 {
        match parallelism {
            Some(threads) => threads,
            None => 1,
        }
    } else {
        pool_size
    }
}

/// What became of the preparation of a query.
pub enum Preparation {
    /// The query is being executed.
    Prepared,
    /// The query was refused, with this text.
    Refused(String),
    /// The connection went away.
    Lost,
}

/// What a query that the database refuses is told.
pub open spec fn refused_message(error: Seq<char>) -> Seq<char> {
    "SQL query error: "@ + error + "\r\n"@
}

/// What a query is told when its connection went away.
pub open spec fn lost_message(format: OutputFormat) -> Seq<char> {
    match format {
        OutputFormat::Csv => "Failed to initialize query stream\r\n"@,
        OutputFormat::Parquet => "Failed to initialize Parquet query stream\r\n"@,
    }
}

/// Decides whether a query is answered with a stream, or else with which error.
pub fn stream_reply(format: OutputFormat, preparation: Preparation) -> (r: Result<(), AppError>)
    ensures
        match preparation {
            Preparation::Prepared => r is Ok,
            Preparation::Refused(error) => r matches Err(reply)
                && reply matches AppError::BadRequest(message) && message@ == refused_message(
                error@,
            ),
            Preparation::Lost => r matches Err(reply)
                && reply matches AppError::BadRequest(message) && message@ == lost_message(format),
        },
{
    match preparation {
        Preparation::Prepared => Ok(()),
        Preparation::Refused(error) => {
            let mut message: String = String::new();
            message.push_str("SQL query error: ");
            message.push_str(error.as_str());
            message.push_str("\r\n");
            assert(message@ =~= refused_message(error@));
            Err(AppError::BadRequest(message))
        },
        Preparation::Lost => Err(
            AppError::BadRequest(
                match format {
                    OutputFormat::Csv => "Failed to initialize query stream\r\n".to_owned(),
                    OutputFormat::Parquet => "Failed to initialize Parquet query stream\r\n".to_owned(),
                },
            ),
        ),
    }
}

/// Turns go round: of as many tickets in a row as there are connections, each
/// connection gets exactly one.
pub proof fn law_round_robin(ticket: nat, size: nat, connection: nat) -> (offset: nat)
    requires
        connection < size,
    ensures
        offset < size,
        turn(ticket + offset, size) == connection,
        forall|other: nat|
            other < size && #[trigger] turn(ticket + other, size) == connection ==> other == offset,
{
    let at = ticket % size;
    let offset = if connection >= at {
        (connection - at) as nat
    } else {
        (connection + size - at) as nat
    };
    let round = ticket / size;
    assert(ticket == round * size + at) by {
        vstd::arithmetic::div_mod::lemma_fundamental_div_mod(ticket as int, size as int);
        assert(size * round == round * size) by (nonlinear_arith);
    }
    assert forall|other: nat| other < size implies #[trigger] turn(ticket + other, size) == (if at
        + other < size {
        at + other
    } else {
        (at + other - size) as nat
    }) by {
        if at + other < size {
            vstd::arithmetic::div_mod::lemma_fundamental_div_mod_converse(
                (ticket + other) as int,
                size as int,
                round as int,
                (at + other) as int,
            );
        } else {
            assert((round + 1) * size == round * size + size) by (nonlinear_arith);
            vstd::arithmetic::div_mod::lemma_fundamental_div_mod_converse(
                (ticket + other) as int,
                size as int,
                (round + 1) as int,
                at + other - size,
            );
        }
    }
    offset
}

} // verus!
