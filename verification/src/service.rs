//! The decisions of the service's connection loops.
//!
//! The service listens on the first port from 9000 to 9009 that it can
//! bind, and gives up when none is free. Its engine link connects to the
//! first engine port from 10000 to 10099 that answers; when none does, it
//! drops the requests that wait, sleeps a second and starts over from
//! 10000. Once linked, it forwards each request and its reply, and links
//! again when a request gets no reply. The gateway answers a liveness query
//! itself and hands HTTP requests to the router on port 443. These
//! functions decide each step; the caller performs it and reports back.

use vstd::prelude::*;

verus! {

/// The first port the service tries to listen on.
pub const LISTEN_PORT_START: u16 = 9000;

/// The last port the service tries to listen on.
pub const LISTEN_PORT_FIN: u16 = 9009;

/// The first port the engine link tries.
pub const ENGINE_PORT_START: u16 = 10000;

/// The last port the engine link tries.
pub const ENGINE_PORT_FIN: u16 = 10099;

/// The port the router matches HTTP requests for.
pub const ROUTER_PORT: u16 = 443;

/// How long the engine link sleeps before it starts over, in seconds.
pub const ENGINE_RETRY_SECS: u64 = 1;

/// The next step of a search for a port.
#[derive(Clone, Copy, Debug, PartialEq, Eq, Structural)]
pub enum PortStep {
    /// The last port tried worked: use it.
    Use(u16),
    /// Try this port next.
    Try(u16),
    /// Every port of the range failed.
    Exhausted,
}

/// The step after trying `port` of the range `start..=fin`.
pub open spec fn port_step(fin: u16, port: u16, worked: bool) -> PortStep {
    if worked {
        PortStep::Use(port)
    } else if port >= fin {
        PortStep::Exhausted
    } else {
        PortStep::Try((port + 1) as u16)
    }
}

/// The step after trying to listen on `port`.
pub fn listen_step(port: u16, bound: bool) -> (r: PortStep)
    ensures
        r == port_step(LISTEN_PORT_FIN, port, bound),
{
    if bound {
        PortStep::Use(port)
    } else if port >= LISTEN_PORT_FIN {
        PortStep::Exhausted
    } else {
        PortStep::Try(port + 1)
    }
}

/// The next step of the engine link's search for the engine.
#[derive(Clone, Copy, Debug, PartialEq, Eq, Structural)]
pub enum EngineLinkStep {
    /// The engine answers on this port: use it.
    Linked(u16),
    /// Try this port next.
    Try(u16),
    /// Drop the requests that wait, sleep this many seconds and start a new
    /// round at this port.
    Restart { sleep_secs: u64, next_port: u16 },
}

/// The step after trying to connect to the engine on `port`: the port where
/// it worked, the next port, or, after the last port, a new round from
/// `ENGINE_PORT_START` after `ENGINE_RETRY_SECS` seconds.
pub fn engine_connect_step(port: u16, connected: bool) -> (r: EngineLinkStep)
    ensures
        r == (match port_step(ENGINE_PORT_FIN, port, connected) {
            PortStep::Use(p) => EngineLinkStep::Linked(p),
            PortStep::Try(p) => EngineLinkStep::Try(p),
            PortStep::Exhausted => EngineLinkStep::Restart {
                sleep_secs: ENGINE_RETRY_SECS,
                next_port: ENGINE_PORT_START,
            },
        }),
{
    if connected {
        EngineLinkStep::Linked(port)
    } else if port >= ENGINE_PORT_FIN {
        EngineLinkStep::Restart { sleep_secs: ENGINE_RETRY_SECS, next_port: ENGINE_PORT_START }
    } else {
        EngineLinkStep::Try(port + 1)
    }
}

/// What the linked engine link does after it handed a request to the
/// engine.
#[derive(Clone, Copy, Debug, PartialEq, Eq, Structural)]
pub enum EngineExchangeStep {
    /// Pass the engine's reply back to the request's sender.
    Forward,
    /// Drop the link and search for the engine again.
    Relink,
}

/// The step after the engine was asked: forward its reply where it gave
/// one, and link again where the exchange failed or brought another kind of
/// message.
pub fn engine_exchange_step(replied: bool) -> (r: EngineExchangeStep)
    ensures
        replied ==> r == EngineExchangeStep::Forward,
        !replied ==> r == EngineExchangeStep::Relink,
{
    if replied {
        EngineExchangeStep::Forward
    } else {
        EngineExchangeStep::Relink
    }
}

/// The step after `k` failed tries, starting from `start`.
pub open spec fn after_failures(start: u16, fin: u16, k: nat) -> PortStep
    decreases k,
{
    if k == 0 {
        PortStep::Try(start)
    } else {
        match after_failures(start, fin, (k - 1) as nat) {
            PortStep::Try(p) => port_step(fin, p, false),
            other => other,
        }
    }
}

/// A search that fails every time tries each port from `start` to `fin`
/// once, in order, and is exhausted after the last.
pub proof fn lemma_search_covers_range(start: u16, fin: u16, k: nat)
    requires
        start <= fin,
        k <= fin - start + 1,
    ensures
        k <= fin - start ==> after_failures(start, fin, k) == PortStep::Try((start + k) as u16),
        k == fin - start + 1 ==> after_failures(start, fin, k) == PortStep::Exhausted,
    decreases k,
{
    if k > 0 {
        lemma_search_covers_range(start, fin, (k - 1) as nat);
    }
}

/// The search stops on the first port that works.
pub proof fn lemma_search_uses_working_port(fin: u16, port: u16)
    ensures
        port_step(fin, port, true) == PortStep::Use(port),
{
}

/// A query that reaches the gateway.
#[derive(Clone, Copy, Debug, PartialEq, Eq, Structural)]
pub enum GatewayQuery {
    /// Asks whether the service is alive.
    Alive,
    /// Carries an HTTP request.
    Http,
    /// Any other message.
    Other,
}

/// What the gateway does with a query.
#[derive(Clone, Copy, Debug, PartialEq, Eq, Structural)]
pub enum GatewayAction {
    /// Answer that the service is alive.
    AnswerAlive,
    /// Hand the request to the router, for this port.
    Route(u16),
}

/// What the gateway does with a query; it serves only liveness queries and
/// HTTP requests.
pub fn gateway_action(query: GatewayQuery) -> (r: GatewayAction)
    requires
        query != GatewayQuery::Other,
    ensures
        query == GatewayQuery::Alive ==> r == GatewayAction::AnswerAlive,
        query == GatewayQuery::Http ==> r == GatewayAction::Route(ROUTER_PORT),
{
    match query {
        GatewayQuery::Alive => GatewayAction::AnswerAlive,
        _ => GatewayAction::Route(ROUTER_PORT),
    }
}

} // verus!
