//! The session layer: per-node connection managers, the session that routes
//! queries across them under load-balancing, retry and reconnection
//! policies, the builders that assemble a session, and the request flow for
//! prepared statements with transparent UNPREPARED recovery.
//!
//! The session decides; whoever owns the sockets performs each decision and
//! feeds the response back.

use vstd::prelude::*;
use crate::compression::Compression;
use crate::error::{Error, UNPREPARED_CODE};
use crate::frame::{Frame, Flags};
use crate::load_balancing::LoadBalancingStrategy;
use crate::policies::{RetryPolicy, ReconnectionPolicy, DefaultRetryPolicy,
    ExponentialReconnectionPolicy};
use crate::query::{Query, QueryBatch, QueryParams, QueryValues, prepare_flags, wf_long_string,
    spec_long_string};
use crate::wire::spec_short_bytes;

verus! {

/// Default bounded writer-queue depth per connection.
pub const DEFAULT_TRANSPORT_BUFFER_SIZE: usize = 1024;

/// A node endpoint: 4 or 16 address bytes and a port.
#[derive(Debug)]
pub struct NodeAddress {
    pub ip: Vec<u8>,
    pub port: u16,
}

impl NodeAddress {
    /// Whether two endpoints are the same address and port.
    pub fn same_as(&self, other: &NodeAddress) -> (r: bool)
        ensures
            r == (self.ip@ == other.ip@ && self.port == other.port),
    {
        if self.port != other.port {
            return false;
        }
        if self.ip.len() != other.ip.len() {
            proof {
                assert(self.ip@.len() != other.ip@.len());
            }
            return false;
        }
        let mut i: usize = 0;
        while i < self.ip.len()
            invariant
                i <= self.ip.len(),
                self.ip@.len() == other.ip@.len(),
                forall|j: int| 0 <= j < i ==> self.ip@[j] == other.ip@[j],
            decreases self.ip.len() - i,
        {
            if self.ip[i] != other.ip[i] {
                return false;
            }
            i = i + 1;
        }
        proof {
            assert(self.ip@ =~= other.ip@);
        }
        true
    }
}

/// Configuration for one plain-TCP node.
#[derive(Debug)]
pub struct NodeTcpConfig {
    pub addr: NodeAddress,
}

/// Configuration for one TLS node: its endpoint and the DNS name the
/// certificate must match. The TLS client configuration itself lives with
/// whoever opens the sockets.
#[derive(Debug)]
pub struct NodeRustlsConfig {
    pub addr: NodeAddress,
    pub dns_name: String,
}

/// The plain-TCP cluster: one config per node.
#[derive(Debug)]
pub struct ClusterTcpConfig(pub Vec<NodeTcpConfig>);

/// The TLS cluster: one config per node.
#[derive(Debug)]
pub struct ClusterRustlsConfig(pub Vec<NodeRustlsConfig>);

/// Holds one node's connection settings and reconnection progress. The
/// lifecycle is lazy then persistent: the first request opens a transport,
/// which is reused until it breaks.
#[derive(Debug)]
pub struct ConnectionManager {
    pub addr: NodeAddress,
    pub dns_name: Option<String>,
    pub compression: Compression,
    pub transport_buffer_size: usize,
    pub tcp_nodelay: bool,
    pub reconnect_attempt: usize,
}

impl ConnectionManager {
    /// A manager for one node; `dns_name` is present exactly for TLS nodes.
    pub fn new(
        addr: NodeAddress,
        dns_name: Option<String>,
        compression: Compression,
        transport_buffer_size: usize,
        tcp_nodelay: bool,
    ) -> (r: ConnectionManager)
        ensures
            r.addr == addr,
            r.dns_name == dns_name,
            r.compression == compression,
            r.transport_buffer_size == transport_buffer_size,
            r.tcp_nodelay == tcp_nodelay,
            r.reconnect_attempt == 0,
    {
        ConnectionManager {
            addr,
            dns_name,
            compression,
            transport_buffer_size,
            tcp_nodelay,
            reconnect_attempt: 0,
        }
    }

    /// After a failed open: the delay before the next attempt under the
    /// policy, or `None` to surface the error. Counts the attempt either way.
    pub fn on_connect_failed<P: ReconnectionPolicy>(&mut self, policy: &P) -> (r: Option<u64>)
        ensures
            r == policy.spec_delay(old(self).reconnect_attempt as nat),
            final(self).reconnect_attempt == (if old(self).reconnect_attempt < usize::MAX {
                old(self).reconnect_attempt + 1
            } else {
                old(self).reconnect_attempt as int
            }),
            final(self).addr == old(self).addr,
            final(self).dns_name == old(self).dns_name,
            final(self).compression == old(self).compression,
            final(self).transport_buffer_size == old(self).transport_buffer_size,
            final(self).tcp_nodelay == old(self).tcp_nodelay,
    {
        let attempt = self.reconnect_attempt;
        if self.reconnect_attempt < usize::MAX {
            self.reconnect_attempt = self.reconnect_attempt + 1;
        }
        policy.next_delay(attempt)
    }

    /// After a successful open and handshake: the attempt counter restarts.
    pub fn on_connected(&mut self)
        ensures
            final(self).reconnect_attempt == 0,
            final(self).addr == old(self).addr,
            final(self).dns_name == old(self).dns_name,
            final(self).compression == old(self).compression,
            final(self).transport_buffer_size == old(self).transport_buffer_size,
            final(self).tcp_nodelay == old(self).tcp_nodelay,
    {
        self.reconnect_attempt = 0;
    }
}

/// A server-side prepared statement: the opaque id the current coordinator
/// assigned, and the immutable query text.
#[derive(Debug)]
pub struct PreparedQuery {
    pub id: Vec<u8>,
    pub query: String,
}

impl PreparedQuery {
    /// A handle for a freshly prepared statement: the id the coordinator
    /// returned, and the text it was prepared from.
    pub fn new(id: Vec<u8>, query: String) -> (r: PreparedQuery)
        ensures
            r.id == id,
            r.query == query,
    {
        PreparedQuery { id, query }
    }

    /// Installs the id a new coordinator returned. The text never changes.
    pub fn update_id(&mut self, new_id: Vec<u8>)
        ensures
            final(self).id == new_id,
            final(self).query == old(self).query,
    {
        self.id = new_id;
    }
}

/// Workaround wrapper so a retry policy can travel through builder APIs as
/// one argument.
pub struct RetryPolicyWrapper<RP: RetryPolicy>(pub RP);

/// Workaround wrapper so a reconnection policy can travel through builder
/// APIs as one argument.
pub struct ReconnectionPolicyWrapper<RCP: ReconnectionPolicy>(pub RCP);

/// The session: the public entry point that builds request frames, picks a
/// node per query, and drives retry and UNPREPARED recovery.
pub struct Session<
    LB: LoadBalancingStrategy<ConnectionManager>,
    RP: RetryPolicy,
    RCP: ReconnectionPolicy,
> {
    load_balancing: LB,
    compression: Compression,
    transport_buffer_size: usize,
    tcp_nodelay: bool,
    retry_policy: RP,
    reconnection_policy: RCP,
}

/// Which node to try next, and under which reconnection regime.
#[derive(Clone, Copy, Debug, PartialEq, Eq, Structural)]
pub enum ConnectionChoice {
    /// A single-node cluster: honour the session's reconnection policy.
    WithSessionPolicy(usize),
    /// Several nodes: fail fast on this one and rotate on failure.
    FastFail(usize),
}

/// A pager over a session, for paged queries.
pub struct SessionPager<
    'a,
    LB: LoadBalancingStrategy<ConnectionManager>,
    RP: RetryPolicy,
    RCP: ReconnectionPolicy,
> {
    pub session: &'a Session<LB, RP, RCP>,
    pub page_size: i32,
}

impl<
    LB: LoadBalancingStrategy<ConnectionManager>,
    RP: RetryPolicy,
    RCP: ReconnectionPolicy,
> Session<LB, RP, RCP> {
    /// The session's compression choice.
    pub closed spec fn spec_compression(&self) -> Compression {
        self.compression
    }

    /// The session's writer-queue depth.
    pub closed spec fn spec_transport_buffer_size(&self) -> usize {
        self.transport_buffer_size
    }

    /// Whether sockets disable Nagle.
    pub closed spec fn spec_tcp_nodelay(&self) -> bool {
        self.tcp_nodelay
    }

    /// The installed nodes.
    pub closed spec fn spec_nodes(&self) -> Seq<ConnectionManager> {
        self.load_balancing.nodes_view()
    }

    /// The session's load-balancing strategy.
    pub closed spec fn spec_load_balancing(&self) -> LB {
        self.load_balancing
    }

    /// The session's retry policy.
    pub closed spec fn spec_retry_policy(&self) -> RP {
        self.retry_policy
    }

    /// The session's reconnection policy.
    pub closed spec fn spec_reconnection_policy(&self) -> RCP {
        self.reconnection_policy
    }

    /// Assembles a session from its parts.
    pub fn new(
        load_balancing: LB,
        compression: Compression,
        transport_buffer_size: usize,
        tcp_nodelay: bool,
        retry_policy: RP,
        reconnection_policy: RCP,
    ) -> (r: Session<LB, RP, RCP>)
        ensures
            r.spec_compression() == compression,
            r.spec_transport_buffer_size() == transport_buffer_size,
            r.spec_tcp_nodelay() == tcp_nodelay,
            r.spec_nodes() == load_balancing.nodes_view(),
            r.spec_load_balancing() == load_balancing,
            r.spec_retry_policy() == retry_policy,
            r.spec_reconnection_policy() == reconnection_policy,
    {
        Session {
            load_balancing,
            compression,
            transport_buffer_size,
            tcp_nodelay,
            retry_policy,
            reconnection_policy,
        }
    }

    /// A pager that runs queries through this session at `page_size` rows a
    /// page.
    pub fn paged<'a>(&'a self, page_size: i32) -> (r: SessionPager<'a, LB, RP, RCP>)
        ensures
            r.page_size == page_size,
    {
        SessionPager { session: self, page_size }
    }

    /// The session's retry policy.
    pub fn retry_policy(&self) -> (r: &RP)
        ensures
            *r == self.spec_retry_policy(),
    {
        &self.retry_policy
    }

    /// The session's reconnection policy.
    pub fn reconnection_policy(&self) -> (r: &RCP)
        ensures
            *r == self.spec_reconnection_policy(),
    {
        &self.reconnection_policy
    }

    /// Builds the QUERY frame for a query with parameters, with tracing and
    /// warnings as asked; also reports whether the request is idempotent,
    /// which the retry policy needs.
    pub fn query_with_params_frame(
        &self,
        query: String,
        query_params: QueryParams,
        with_tracing: bool,
        with_warnings: bool,
    ) -> (r: (Frame, bool))
        requires
            wf_long_string(query@),
            query_params.wf(),
        ensures
            r.0.opcode == crate::frame::Opcode::Query,
            r.0.flags == (Flags { compression: false, tracing: with_tracing, custom_payload: false,
                warning: with_warnings }),
            r.0.body@ == spec_long_string(query@) + query_params.spec_bytes(),
            r.1 == query_params.is_idempotent,
    {
        let is_idempotent = query_params.is_idempotent;
        let flags = prepare_flags(with_tracing, with_warnings);
        let query = Query { query, params: query_params };
        let frame = Frame::new_query(query, flags);
        (frame, is_idempotent)
    }

    /// Builds the BATCH frame for a batch of statements; also reports
    /// whether the batch is idempotent, which the retry policy needs.
    pub fn batch_with_params_frame(
        &self,
        batch: QueryBatch,
        with_tracing: bool,
        with_warnings: bool,
    ) -> (r: (Frame, bool))
        requires
            batch.wf(),
        ensures
            r.0.opcode == crate::frame::Opcode::Batch,
            r.0.flags == (Flags { compression: false, tracing: with_tracing, custom_payload: false,
                warning: with_warnings }),
            r.0.body@ == batch.spec_bytes(),
            r.1 == batch.is_idempotent,
    {
        let flags = prepare_flags(with_tracing, with_warnings);
        let is_idempotent = batch.is_idempotent;
        let frame = Frame::new_req_batch(batch, flags);
        (frame, is_idempotent)
    }

    /// Builds the QUERY frame for a plain query at consistency ONE, with
    /// nothing else set.
    pub fn query_frame(&self, query: String) -> (r: (Frame, bool))
        requires
            wf_long_string(query@),
        ensures
            r.0.opcode == crate::frame::Opcode::Query,
            r.0.flags == (Flags { compression: false, tracing: false, custom_payload: false,
                warning: false }),
            r.0.body@ == spec_long_string(query@) + (QueryParams {
                consistency: crate::query::Consistency::One,
                values: Option::None,
                page_size: Option::None,
                paging_state: Option::None,
                serial_consistency: Option::None,
                timestamp: Option::None,
                is_idempotent: false,
            }).spec_bytes(),
            !r.1,
    {
        self.query_with_params_frame(
            query,
            QueryParams::new(crate::query::Consistency::One),
            false,
            false,
        )
    }

    /// Builds the QUERY frame for a query with bound values, at consistency
    /// ONE.
    pub fn query_with_values_frame(&self, query: String, values: QueryValues) -> (r: (Frame, bool))
        requires
            wf_long_string(query@),
            values.wf(),
        ensures
            r.0.opcode == crate::frame::Opcode::Query,
            r.0.body@ == spec_long_string(query@) + (QueryParams {
                consistency: crate::query::Consistency::One,
                values: Some(values),
                page_size: Option::None,
                paging_state: Option::None,
                serial_consistency: Option::None,
                timestamp: Option::None,
                is_idempotent: false,
            }).spec_bytes(),
            !r.1,
    {
        let mut params = QueryParams::new(crate::query::Consistency::One);
        params.values = Some(values);
        self.query_with_params_frame(query, params, false, false)
    }

    /// Builds the PREPARE frame for a query text.
    pub fn prepare_frame(&self, query: String, with_tracing: bool, with_warnings: bool) -> (r:
        Frame)
        requires
            wf_long_string(query@),
        ensures
            r.opcode == crate::frame::Opcode::Prepare,
            r.flags == (Flags { compression: false, tracing: with_tracing, custom_payload: false,
                warning: with_warnings }),
            r.body@ == spec_long_string(query@),
    {
        let flags = prepare_flags(with_tracing, with_warnings);
        Frame::new_req_prepare(query, flags)
    }

    /// The manager a dedicated event-listener connection to `node` uses:
    /// a fresh plain-TCP manager under the session's settings. The listener
    /// sends a REGISTER frame and receives pushes on stream id −1.
    pub fn listener_manager(&self, node: NodeAddress) -> (r: ConnectionManager)
        ensures
            r.addr == node,
            r.dns_name is None,
            r.compression == self.spec_compression(),
            r.transport_buffer_size == self.spec_transport_buffer_size(),
            r.tcp_nodelay == self.spec_tcp_nodelay(),
            r.reconnect_attempt == 0,
    {
        ConnectionManager::new(
            node,
            Option::None,
            self.compression,
            self.transport_buffer_size,
            self.tcp_nodelay,
        )
    }

    /// The manager a dedicated TLS event-listener connection uses: as
    /// `listener_manager`, with the DNS name the certificate must match.
    pub fn listener_manager_tls(&self, node: NodeAddress, dns_name: String) -> (r:
        ConnectionManager)
        ensures
            r.addr == node,
            r.dns_name == Some(dns_name),
            r.compression == self.spec_compression(),
            r.transport_buffer_size == self.spec_transport_buffer_size(),
            r.tcp_nodelay == self.spec_tcp_nodelay(),
            r.reconnect_attempt == 0,
    {
        ConnectionManager::new(
            node,
            Some(dns_name),
            self.compression,
            self.transport_buffer_size,
            self.tcp_nodelay,
        )
    }

    /// Picks the connection for the next query.
    ///
    /// With fewer than two nodes, the one node is tried under the session's
    /// reconnection policy. With two or more, the next node in rotation is
    /// tried with no reconnection — fail fast — and on failure the caller
    /// asks again, rotating until a node answers; `None` only with no nodes.
    pub fn load_balanced_connection(&mut self) -> (r: Option<ConnectionChoice>)
        ensures
            final(self).spec_nodes() == old(self).spec_nodes(),
            final(self).spec_compression() == old(self).spec_compression(),
            final(self).spec_transport_buffer_size() == old(self).spec_transport_buffer_size(),
            final(self).spec_tcp_nodelay() == old(self).spec_tcp_nodelay(),
            final(self).spec_retry_policy() == old(self).spec_retry_policy(),
            final(self).spec_reconnection_policy() == old(self).spec_reconnection_policy(),
            r is None <==> old(self).spec_nodes().len() == 0,
            match r {
                Some(ConnectionChoice::WithSessionPolicy(i)) => old(self).spec_nodes().len() == 1
                    && i < old(self).spec_nodes().len() && i as nat == old(
                    self,
                ).spec_load_balancing().spec_next_index() && final(self).spec_load_balancing()
                    == old(self).spec_load_balancing().spec_after_pick(),
                Some(ConnectionChoice::FastFail(i)) => old(self).spec_nodes().len() >= 2 && i < old(
                    self,
                ).spec_nodes().len() && i as nat == old(
                    self,
                ).spec_load_balancing().spec_next_index() && final(self).spec_load_balancing()
                    == old(self).spec_load_balancing().spec_after_pick(),
                Option::None => true,
            },
    {
        let few = self.load_balancing.size() < 2;
        match self.load_balancing.next_index() {
            Some(i) => {
                if few {
                    Some(ConnectionChoice::WithSessionPolicy(i))
                } else {
                    Some(ConnectionChoice::FastFail(i))
                }
            },
            Option::None => Option::None,
        }
    }

    /// The node at a choice's index.
    pub fn node(&self, i: usize) -> (r: &ConnectionManager)
        requires
            i < self.spec_nodes().len(),
        ensures
            *r == self.spec_nodes()[i as int],
    {
        self.load_balancing.node(i)
    }

    /// Finds the manager for a node address: a linear scan, first match.
    pub fn node_connection(&self, node: &NodeAddress) -> (r: Option<usize>)
        ensures
            match r {
                Some(i) => i < self.spec_nodes().len() && self.spec_nodes()[i as int].addr.ip@
                    == node.ip@ && self.spec_nodes()[i as int].addr.port == node.port,
                Option::None => forall|i: int|
                    0 <= i < self.spec_nodes().len() ==> !((#[trigger] self.spec_nodes()[i]).addr.ip@
                        == node.ip@ && self.spec_nodes()[i].addr.port == node.port),
            },
    {
        let n = self.load_balancing.size();
        let mut i: usize = 0;
        while i < n
            invariant
                i <= n,
                n == self.spec_nodes().len(),
                forall|j: int|
                    0 <= j < i ==> !((#[trigger] self.spec_nodes()[j]).addr.ip@ == node.ip@
                        && self.spec_nodes()[j].addr.port == node.port),
            decreases n - i,
        {
            let cm = self.load_balancing.node(i);
            if cm.addr.same_as(node) {
                return Some(i);
            }
            i = i + 1;
        }
        Option::None
    }
}

/// The per-call state of an EXECUTE with UNPREPARED recovery: whether this
/// call already re-prepared once, and the caller's tracing and warning asks.
#[derive(Clone, Copy, Debug, PartialEq, Eq, Structural)]
pub struct ExecFlow {
    pub reprepared: bool,
    pub with_tracing: bool,
    pub with_warnings: bool,
}

/// What an EXECUTE response leads to.
#[derive(Debug)]
pub enum ExecStep {
    /// The call is over: this is its result.
    Done(Result<Frame, Error>),
    /// The coordinator did not know the id: send this PREPARE frame, then
    /// continue with `on_reprepare_response`. The carried error is the
    /// original UNPREPARED: if the re-prepare itself fails, it is the call's
    /// result, the handle's id untouched and no second EXECUTE sent.
    Reprepare(Frame, Error),
}

/// Starts one `execute` call: the EXECUTE frame under the statement's
/// current id, and the flow state that follows the response.
pub fn start_execute(
    prepared: &PreparedQuery,
    query_parameters: &QueryParams,
    with_tracing: bool,
    with_warnings: bool,
) -> (r: (Frame, ExecFlow))
    requires
        prepared.id@.len() <= 0xFFFF,
        query_parameters.wf(),
    ensures
        r.0.opcode == crate::frame::Opcode::Execute,
        r.0.flags == (Flags { compression: false, tracing: with_tracing, custom_payload: false,
                warning: with_warnings }),
        r.0.body@ == spec_short_bytes(prepared.id@) + query_parameters.spec_bytes(),
        r.1 == (ExecFlow { reprepared: false, with_tracing, with_warnings }),
{
    let flags = prepare_flags(with_tracing, with_warnings);
    let frame = Frame::new_req_execute(&prepared.id, query_parameters, flags);
    (frame, ExecFlow { reprepared: false, with_tracing, with_warnings })
}

/// Whether a result is the UNPREPARED server error.
pub open spec fn spec_is_unprepared(r: Result<Frame, Error>) -> bool {
    r matches Err(Error::Server(e)) && e.code == UNPREPARED_CODE
}

/// Decides what an EXECUTE response means for the call.
///
/// An UNPREPARED error on a call that has not yet re-prepared yields the
/// PREPARE frame for the statement's text, carrying the original error so a
/// failed re-prepare surfaces it; every other outcome — success, any other
/// error, or a second UNPREPARED — is the call's result.
pub fn on_execute_response(
    flow: &ExecFlow,
    response: Result<Frame, Error>,
    prepared: &PreparedQuery,
) -> (r: ExecStep)
    requires
        wf_long_string(prepared.query@),
    ensures
        spec_is_unprepared(response) && !flow.reprepared ==> (r matches ExecStep::Reprepare(
            f,
            orig,
        ) && {
            &&& f.opcode == crate::frame::Opcode::Prepare
            &&& f.flags == (Flags { compression: false, tracing: flow.with_tracing, custom_payload: false,
                warning: flow.with_warnings })
            &&& f.body@ == spec_long_string(prepared.query@)
            &&& orig == response->Err_0
        }),
        !(spec_is_unprepared(response) && !flow.reprepared) ==> r == ExecStep::Done(response),
{
    match response {
        Err(e) => {
            let unprepared = match &e {
                Error::Server(se) => se.code == UNPREPARED_CODE,
                _ => false,
            };
            if unprepared && !flow.reprepared {
                let flags = prepare_flags(flow.with_tracing, flow.with_warnings);
                let frame = Frame::new_req_prepare(prepared.query.clone(), flags);
                ExecStep::Reprepare(frame, e)
            } else {
                ExecStep::Done(Err(e))
            }
        },
        Ok(f) => ExecStep::Done(Ok(f)),
    }
}

/// Installs the id the new coordinator returned and re-executes once.
///
/// The statement's id becomes exactly the returned id, its text is
/// untouched, the new EXECUTE frame carries the new id, and the flow
/// records the re-prepare so a second UNPREPARED is surfaced.
pub fn on_reprepare_response(
    flow: &ExecFlow,
    new_id: Vec<u8>,
    prepared: &mut PreparedQuery,
    query_parameters: &QueryParams,
) -> (r: (Frame, ExecFlow))
    requires
        new_id@.len() <= 0xFFFF,
        query_parameters.wf(),
    ensures
        final(prepared).id@ == new_id@,
        final(prepared).query == old(prepared).query,
        r.0.opcode == crate::frame::Opcode::Execute,
        r.0.flags == (Flags { compression: false, tracing: flow.with_tracing, custom_payload: false,
            warning: flow.with_warnings }),
        r.0.body@ == spec_short_bytes(new_id@) + query_parameters.spec_bytes(),
        r.1 == (ExecFlow { reprepared: true, with_tracing: flow.with_tracing,
            with_warnings: flow.with_warnings }),
{
    prepared.update_id(new_id);
    let flags = prepare_flags(flow.with_tracing, flow.with_warnings);
    let frame = Frame::new_req_execute(&prepared.id, query_parameters, flags);
    (
        frame,
        ExecFlow { reprepared: true, with_tracing: flow.with_tracing,
            with_warnings: flow.with_warnings },
    )
}

/// The configuration a builder accumulates before `build`.
struct SessionConfig<
    LB: LoadBalancingStrategy<ConnectionManager>,
    RP: RetryPolicy,
    RCP: ReconnectionPolicy,
> {
    compression: Compression,
    transport_buffer_size: usize,
    tcp_nodelay: bool,
    load_balancing: LB,
    retry_policy: RP,
    reconnection_policy: RCP,
}

impl<
    LB: LoadBalancingStrategy<ConnectionManager>,
    RP: RetryPolicy,
    RCP: ReconnectionPolicy,
> SessionConfig<LB, RP, RCP> {
    fn new(
        compression: Compression,
        transport_buffer_size: usize,
        tcp_nodelay: bool,
        load_balancing: LB,
        retry_policy: RP,
        reconnection_policy: RCP,
    ) -> (r: SessionConfig<LB, RP, RCP>)
        ensures
            r.compression == compression,
            r.transport_buffer_size == transport_buffer_size,
            r.tcp_nodelay == tcp_nodelay,
            r.load_balancing == load_balancing,
            r.retry_policy == retry_policy,
            r.reconnection_policy == reconnection_policy,
    {
        SessionConfig {
            compression,
            transport_buffer_size,
            tcp_nodelay,
            load_balancing,
            retry_policy,
            reconnection_policy,
        }
    }
}

/// The manager a TCP builder installs for one node config: the node's
/// address under the builder's connection settings, no TLS.
pub open spec fn spec_tcp_manager(
    c: NodeTcpConfig,
    compression: Compression,
    transport_buffer_size: usize,
    tcp_nodelay: bool,
) -> ConnectionManager {
    ConnectionManager {
        addr: c.addr,
        dns_name: Option::None,
        compression,
        transport_buffer_size,
        tcp_nodelay,
        reconnect_attempt: 0,
    }
}

/// The manager a TLS builder installs for one node config: as the TCP one,
/// carrying the node's DNS name.
pub open spec fn spec_rustls_manager(
    c: NodeRustlsConfig,
    compression: Compression,
    transport_buffer_size: usize,
    tcp_nodelay: bool,
) -> ConnectionManager {
    ConnectionManager {
        addr: c.addr,
        dns_name: Some(c.dns_name),
        compression,
        transport_buffer_size,
        tcp_nodelay,
        reconnect_attempt: 0,
    }
}

/// Builder for a session: other configuration can be set before `build`,
/// which installs one connection manager per configured node. Each setter
/// replaces exactly its own setting; `build` hands every setting on to the
/// session.
pub trait SessionBuilder<
    LB: LoadBalancingStrategy<ConnectionManager>,
    RP: RetryPolicy,
    RCP: ReconnectionPolicy,
>: Sized {
    /// The compression the built session will carry.
    spec fn spec_compression(&self) -> Compression;

    /// The writer-queue depth the built session will carry.
    spec fn spec_transport_buffer_size(&self) -> usize;

    /// The NODELAY setting the built session will carry.
    spec fn spec_tcp_nodelay(&self) -> bool;

    /// The load-balancing strategy, before `build` installs the nodes.
    spec fn spec_load_balancing(&self) -> LB;

    /// The retry policy the built session will carry.
    spec fn spec_retry_policy(&self) -> RP;

    /// The reconnection policy the built session will carry.
    spec fn spec_reconnection_policy(&self) -> RCP;

    /// Sets the compression scheme.
    fn with_compression(self, compression: Compression) -> (r: Self)
        ensures
            r.spec_compression() == compression,
            r.spec_transport_buffer_size() == self.spec_transport_buffer_size(),
            r.spec_tcp_nodelay() == self.spec_tcp_nodelay(),
            r.spec_load_balancing() == self.spec_load_balancing(),
            r.spec_retry_policy() == self.spec_retry_policy(),
            r.spec_reconnection_policy() == self.spec_reconnection_policy(),
    ;

    /// Sets the retry policy.
    fn with_retry_policy(self, retry_policy: RP) -> (r: Self)
        ensures
            r.spec_retry_policy() == retry_policy,
            r.spec_compression() == self.spec_compression(),
            r.spec_transport_buffer_size() == self.spec_transport_buffer_size(),
            r.spec_tcp_nodelay() == self.spec_tcp_nodelay(),
            r.spec_load_balancing() == self.spec_load_balancing(),
            r.spec_reconnection_policy() == self.spec_reconnection_policy(),
    ;

    /// Sets the reconnection policy.
    fn with_reconnection_policy(self, reconnection_policy: RCP) -> (r: Self)
        ensures
            r.spec_reconnection_policy() == reconnection_policy,
            r.spec_compression() == self.spec_compression(),
            r.spec_transport_buffer_size() == self.spec_transport_buffer_size(),
            r.spec_tcp_nodelay() == self.spec_tcp_nodelay(),
            r.spec_load_balancing() == self.spec_load_balancing(),
            r.spec_retry_policy() == self.spec_retry_policy(),
    ;

    /// Sets the writer-queue depth; high values suit many in-flight queries.
    fn with_transport_buffer_size(self, transport_buffer_size: usize) -> (r: Self)
        ensures
            r.spec_transport_buffer_size() == transport_buffer_size,
            r.spec_compression() == self.spec_compression(),
            r.spec_tcp_nodelay() == self.spec_tcp_nodelay(),
            r.spec_load_balancing() == self.spec_load_balancing(),
            r.spec_retry_policy() == self.spec_retry_policy(),
            r.spec_reconnection_policy() == self.spec_reconnection_policy(),
    ;

    /// Sets NODELAY on the session's sockets.
    fn with_tcp_nodelay(self, tcp_nodelay: bool) -> (r: Self)
        ensures
            r.spec_tcp_nodelay() == tcp_nodelay,
            r.spec_compression() == self.spec_compression(),
            r.spec_transport_buffer_size() == self.spec_transport_buffer_size(),
            r.spec_load_balancing() == self.spec_load_balancing(),
            r.spec_retry_policy() == self.spec_retry_policy(),
            r.spec_reconnection_policy() == self.spec_reconnection_policy(),
    ;

    /// Builds the session: it carries every builder setting. Which managers
    /// the load balancer was initialised with is stated by each builder, as
    /// it depends on its node-config type. No socket is opened: connection
    /// is lazy.
    fn build(self) -> (r: Session<LB, RP, RCP>)
        ensures
            r.spec_compression() == self.spec_compression(),
            r.spec_transport_buffer_size() == self.spec_transport_buffer_size(),
            r.spec_tcp_nodelay() == self.spec_tcp_nodelay(),
            r.spec_retry_policy() == self.spec_retry_policy(),
            r.spec_reconnection_policy() == self.spec_reconnection_policy(),
    ;
}

/// Builder for non-TLS sessions.
pub struct TcpSessionBuilder<
    LB: LoadBalancingStrategy<ConnectionManager>,
    RP: RetryPolicy,
    RCP: ReconnectionPolicy,
> {
    config: SessionConfig<LB, RP, RCP>,
    node_configs: ClusterTcpConfig,
}

impl<
    LB: LoadBalancingStrategy<ConnectionManager>,
    RP: RetryPolicy,
    RCP: ReconnectionPolicy,
> TcpSessionBuilder<LB, RP, RCP> {
    /// The configured nodes.
    pub closed spec fn spec_node_configs(&self) -> Seq<NodeTcpConfig> {
        self.node_configs.0@
    }
}

impl<LB: LoadBalancingStrategy<ConnectionManager>> TcpSessionBuilder<
    LB,
    DefaultRetryPolicy,
    ExponentialReconnectionPolicy,
> {
    /// A builder with the default configuration: no compression, the
    /// default buffer size, NODELAY on, the default retry policy, and
    /// exponential reconnection from two seconds up to one minute.
    pub fn new(load_balancing: LB, node_configs: ClusterTcpConfig) -> (r: TcpSessionBuilder<
        LB,
        DefaultRetryPolicy,
        ExponentialReconnectionPolicy,
    >)
        ensures
            r.spec_compression() == Compression::Uncompressed,
            r.spec_transport_buffer_size() == DEFAULT_TRANSPORT_BUFFER_SIZE,
            r.spec_tcp_nodelay() == true,
            r.spec_load_balancing() == load_balancing,
            r.spec_retry_policy() == DefaultRetryPolicy,
            r.spec_reconnection_policy() == (ExponentialReconnectionPolicy {
                base_delay_ms: 2000,
                max_delay_ms: 60000,
            }),
            r.spec_node_configs() == node_configs.0@,
    {
        TcpSessionBuilder {
            config: SessionConfig::new(
                Compression::Uncompressed,
                DEFAULT_TRANSPORT_BUFFER_SIZE,
                true,
                load_balancing,
                DefaultRetryPolicy,
                ExponentialReconnectionPolicy::default(),
            ),
            node_configs,
        }
    }
}

impl<
    LB: LoadBalancingStrategy<ConnectionManager>,
    RP: RetryPolicy,
    RCP: ReconnectionPolicy,
> SessionBuilder<LB, RP, RCP> for TcpSessionBuilder<LB, RP, RCP> {
    closed spec fn spec_compression(&self) -> Compression {
        self.config.compression
    }

    closed spec fn spec_transport_buffer_size(&self) -> usize {
        self.config.transport_buffer_size
    }

    closed spec fn spec_tcp_nodelay(&self) -> bool {
        self.config.tcp_nodelay
    }

    closed spec fn spec_load_balancing(&self) -> LB {
        self.config.load_balancing
    }

    closed spec fn spec_retry_policy(&self) -> RP {
        self.config.retry_policy
    }

    closed spec fn spec_reconnection_policy(&self) -> RCP {
        self.config.reconnection_policy
    }

    fn with_compression(self, compression: Compression) -> (r: Self)
        ensures
            r.spec_node_configs() == self.spec_node_configs(),
    {
        TcpSessionBuilder {
            config: SessionConfig { compression, ..self.config },
            node_configs: self.node_configs,
        }
    }

    fn with_retry_policy(self, retry_policy: RP) -> (r: Self)
        ensures
            r.spec_node_configs() == self.spec_node_configs(),
    {
        TcpSessionBuilder {
            config: SessionConfig { retry_policy, ..self.config },
            node_configs: self.node_configs,
        }
    }

    fn with_reconnection_policy(self, reconnection_policy: RCP) -> (r: Self)
        ensures
            r.spec_node_configs() == self.spec_node_configs(),
    {
        TcpSessionBuilder {
            config: SessionConfig { reconnection_policy, ..self.config },
            node_configs: self.node_configs,
        }
    }

    fn with_transport_buffer_size(self, transport_buffer_size: usize) -> (r: Self)
        ensures
            r.spec_node_configs() == self.spec_node_configs(),
    {
        TcpSessionBuilder {
            config: SessionConfig { transport_buffer_size, ..self.config },
            node_configs: self.node_configs,
        }
    }

    fn with_tcp_nodelay(self, tcp_nodelay: bool) -> (r: Self)
        ensures
            r.spec_node_configs() == self.spec_node_configs(),
    {
        TcpSessionBuilder {
            config: SessionConfig { tcp_nodelay, ..self.config },
            node_configs: self.node_configs,
        }
    }

    /// Installs one connection manager per configured node, in order, each
    /// carrying the builder's compression, buffer size and NODELAY; hands
    /// the list to the load balancer; and assembles the session.
    fn build(self) -> (r: Session<LB, RP, RCP>)
        ensures
            r.spec_nodes() == self.spec_node_configs().map_values(
                |c: NodeTcpConfig|
                    spec_tcp_manager(
                        c,
                        self.spec_compression(),
                        self.spec_transport_buffer_size(),
                        self.spec_tcp_nodelay(),
                    ),
            ),
    {
        let TcpSessionBuilder { mut config, node_configs } = self;
        let ClusterTcpConfig(mut cfgs) = node_configs;
        let ghost all = cfgs@;
        let ghost comp = config.compression;
        let ghost buf = config.transport_buffer_size;
        let ghost nodelay = config.tcp_nodelay;
        let mut nodes: Vec<ConnectionManager> = Vec::new();
        while cfgs.len() > 0
            invariant
                nodes@.len() + cfgs@.len() == all.len(),
                cfgs@ == all.skip(nodes@.len() as int),
                all == self.spec_node_configs(),
                comp == self.spec_compression(),
                buf == self.spec_transport_buffer_size(),
                nodelay == self.spec_tcp_nodelay(),
                forall|j: int|
                    0 <= j < nodes@.len() ==> nodes@[j] == spec_tcp_manager(
                        all[j],
                        comp,
                        buf,
                        nodelay,
                    ),
                config.compression == comp,
                config.transport_buffer_size == buf,
                config.tcp_nodelay == nodelay,
                config.load_balancing == self.spec_load_balancing(),
                config.retry_policy == self.spec_retry_policy(),
                config.reconnection_policy == self.spec_reconnection_policy(),
            decreases cfgs.len(),
        {
            let ghost k = nodes@.len() as int;
            let cfg = cfgs.remove(0);
            proof {
                assert(cfg == all[k]);
                assert(cfgs@ =~= all.skip(k + 1));
            }
            nodes.push(
                ConnectionManager::new(
                    cfg.addr,
                    Option::None,
                    config.compression,
                    config.transport_buffer_size,
                    config.tcp_nodelay,
                ),
            );
        }
        proof {
            let m = self.spec_node_configs().map_values(
                |c: NodeTcpConfig|
                    spec_tcp_manager(
                        c,
                        self.spec_compression(),
                        self.spec_transport_buffer_size(),
                        self.spec_tcp_nodelay(),
                    ),
            );
            assert(all == self.spec_node_configs());
            assert forall|j: int| 0 <= j < nodes@.len() implies nodes@[j] == m[j] by {
                assert(m[j] == spec_tcp_manager(all[j], comp, buf, nodelay));
            }
            assert(nodes@ =~= m);
        }
        config.load_balancing.init(nodes);
        Session::new(
            config.load_balancing,
            config.compression,
            config.transport_buffer_size,
            config.tcp_nodelay,
            config.retry_policy,
            config.reconnection_policy,
        )
    }
}

/// Builder for TLS sessions.
pub struct RustlsSessionBuilder<
    LB: LoadBalancingStrategy<ConnectionManager>,
    RP: RetryPolicy,
    RCP: ReconnectionPolicy,
> {
    config: SessionConfig<LB, RP, RCP>,
    node_configs: ClusterRustlsConfig,
}

impl<
    LB: LoadBalancingStrategy<ConnectionManager>,
    RP: RetryPolicy,
    RCP: ReconnectionPolicy,
> RustlsSessionBuilder<LB, RP, RCP> {
    /// The configured nodes.
    pub closed spec fn spec_node_configs(&self) -> Seq<NodeRustlsConfig> {
        self.node_configs.0@
    }
}

impl<LB: LoadBalancingStrategy<ConnectionManager>> RustlsSessionBuilder<
    LB,
    DefaultRetryPolicy,
    ExponentialReconnectionPolicy,
> {
    /// A builder with the default configuration, over TLS node configs.
    pub fn new(load_balancing: LB, node_configs: ClusterRustlsConfig) -> (r: RustlsSessionBuilder<
        LB,
        DefaultRetryPolicy,
        ExponentialReconnectionPolicy,
    >)
        ensures
            r.spec_compression() == Compression::Uncompressed,
            r.spec_transport_buffer_size() == DEFAULT_TRANSPORT_BUFFER_SIZE,
            r.spec_tcp_nodelay() == true,
            r.spec_load_balancing() == load_balancing,
            r.spec_retry_policy() == DefaultRetryPolicy,
            r.spec_reconnection_policy() == (ExponentialReconnectionPolicy {
                base_delay_ms: 2000,
                max_delay_ms: 60000,
            }),
            r.spec_node_configs() == node_configs.0@,
    {
        RustlsSessionBuilder {
            config: SessionConfig::new(
                Compression::Uncompressed,
                DEFAULT_TRANSPORT_BUFFER_SIZE,
                true,
                load_balancing,
                DefaultRetryPolicy,
                ExponentialReconnectionPolicy::default(),
            ),
            node_configs,
        }
    }
}

impl<
    LB: LoadBalancingStrategy<ConnectionManager>,
    RP: RetryPolicy,
    RCP: ReconnectionPolicy,
> SessionBuilder<LB, RP, RCP> for RustlsSessionBuilder<LB, RP, RCP> {
    closed spec fn spec_compression(&self) -> Compression {
        self.config.compression
    }

    closed spec fn spec_transport_buffer_size(&self) -> usize {
        self.config.transport_buffer_size
    }

    closed spec fn spec_tcp_nodelay(&self) -> bool {
        self.config.tcp_nodelay
    }

    closed spec fn spec_load_balancing(&self) -> LB {
        self.config.load_balancing
    }

    closed spec fn spec_retry_policy(&self) -> RP {
        self.config.retry_policy
    }

    closed spec fn spec_reconnection_policy(&self) -> RCP {
        self.config.reconnection_policy
    }

    fn with_compression(self, compression: Compression) -> (r: Self)
        ensures
            r.spec_node_configs() == self.spec_node_configs(),
    {
        RustlsSessionBuilder {
            config: SessionConfig { compression, ..self.config },
            node_configs: self.node_configs,
        }
    }

    fn with_retry_policy(self, retry_policy: RP) -> (r: Self)
        ensures
            r.spec_node_configs() == self.spec_node_configs(),
    {
        RustlsSessionBuilder {
            config: SessionConfig { retry_policy, ..self.config },
            node_configs: self.node_configs,
        }
    }

    fn with_reconnection_policy(self, reconnection_policy: RCP) -> (r: Self)
        ensures
            r.spec_node_configs() == self.spec_node_configs(),
    {
        RustlsSessionBuilder {
            config: SessionConfig { reconnection_policy, ..self.config },
            node_configs: self.node_configs,
        }
    }

    fn with_transport_buffer_size(self, transport_buffer_size: usize) -> (r: Self)
        ensures
            r.spec_node_configs() == self.spec_node_configs(),
    {
        RustlsSessionBuilder {
            config: SessionConfig { transport_buffer_size, ..self.config },
            node_configs: self.node_configs,
        }
    }

    fn with_tcp_nodelay(self, tcp_nodelay: bool) -> (r: Self)
        ensures
            r.spec_node_configs() == self.spec_node_configs(),
    {
        RustlsSessionBuilder {
            config: SessionConfig { tcp_nodelay, ..self.config },
            node_configs: self.node_configs,
        }
    }

    /// Installs one connection manager per configured TLS node, in order,
    /// each carrying its DNS name and the builder's settings; hands the
    /// list to the load balancer; and assembles the session.
    fn build(self) -> (r: Session<LB, RP, RCP>)
        ensures
            r.spec_nodes() == self.spec_node_configs().map_values(
                |c: NodeRustlsConfig|
                    spec_rustls_manager(
                        c,
                        self.spec_compression(),
                        self.spec_transport_buffer_size(),
                        self.spec_tcp_nodelay(),
                    ),
            ),
    {
        let RustlsSessionBuilder { mut config, node_configs } = self;
        let ClusterRustlsConfig(mut cfgs) = node_configs;
        let ghost all = cfgs@;
        let ghost comp = config.compression;
        let ghost buf = config.transport_buffer_size;
        let ghost nodelay = config.tcp_nodelay;
        let mut nodes: Vec<ConnectionManager> = Vec::new();
        while cfgs.len() > 0
            invariant
                nodes@.len() + cfgs@.len() == all.len(),
                cfgs@ == all.skip(nodes@.len() as int),
                all == self.spec_node_configs(),
                comp == self.spec_compression(),
                buf == self.spec_transport_buffer_size(),
                nodelay == self.spec_tcp_nodelay(),
                forall|j: int|
                    0 <= j < nodes@.len() ==> nodes@[j] == spec_rustls_manager(
                        all[j],
                        comp,
                        buf,
                        nodelay,
                    ),
                config.compression == comp,
                config.transport_buffer_size == buf,
                config.tcp_nodelay == nodelay,
                config.load_balancing == self.spec_load_balancing(),
                config.retry_policy == self.spec_retry_policy(),
                config.reconnection_policy == self.spec_reconnection_policy(),
            decreases cfgs.len(),
        {
            let ghost k = nodes@.len() as int;
            let cfg = cfgs.remove(0);
            proof {
                assert(cfg == all[k]);
                assert(cfgs@ =~= all.skip(k + 1));
            }
            nodes.push(
                ConnectionManager::new(
                    cfg.addr,
                    Some(cfg.dns_name),
                    config.compression,
                    config.transport_buffer_size,
                    config.tcp_nodelay,
                ),
            );
        }
        proof {
            let m = self.spec_node_configs().map_values(
                |c: NodeRustlsConfig|
                    spec_rustls_manager(
                        c,
                        self.spec_compression(),
                        self.spec_transport_buffer_size(),
                        self.spec_tcp_nodelay(),
                    ),
            );
            assert(all == self.spec_node_configs());
            assert forall|j: int| 0 <= j < nodes@.len() implies nodes@[j] == m[j] by {
                assert(m[j] == spec_rustls_manager(all[j], comp, buf, nodelay));
            }
            assert(nodes@ =~= m);
        }
        config.load_balancing.init(nodes);
        Session::new(
            config.load_balancing,
            config.compression,
            config.transport_buffer_size,
            config.tcp_nodelay,
            config.retry_policy,
            config.reconnection_policy,
        )
    }
}

} // verus!
