//! Discovery, the frozen snapshot of a connection, and calls that it admits.

use vstd::prelude::*;
use vstd::string::*;

use crate::client;
use crate::client::{map_service_error, Cause, FailureClass};
use crate::error;
use crate::error::{joined, transport, ClientError, ErrorView};
use crate::identity::ConnectionId;
use crate::json::{Json, JsonTree};
use crate::limits;
use crate::limits::{ensure_bound, Limits, TimeSpan, LEGACY_PROTOCOL_VERSION};
use crate::outside;
use crate::tools;
use crate::tools::{
    DescriptorView, ResultView, SnapshotView, ToolCall, ToolDescriptor, ToolResult, ToolSnapshot,
};

verus! {

/// What a value is converted to outside, or why it is not.
pub open spec fn converted(value: Result<Json, String>) -> Result<JsonTree, Seq<char>> {
    match value {
        Ok(raw) => Ok(raw@),
        Err(reason) => Err(reason@),
    }
}

/// What values are converted to outside, each on its own.
pub open spec fn all_converted(values: Seq<Result<Json, String>>) -> Seq<
    Result<JsonTree, Seq<char>>,
> {
    Seq::new(values.len(), |i: int| converted(values[i]))
}

/// One reply while tools are listed.
#[derive(Debug, PartialEq)]
pub enum ListReply {
    /// The request timeout passed.
    TimedOut,
    /// The request failed.
    Failed {
        /// Chain of causes, the outermost first.
        causes: Vec<Cause>,
        /// Class of the failure.
        class: FailureClass,
    },
    /// One page.
    Page {
        /// Listed descriptors, in the order of the server.
        tools: Vec<Result<Json, String>>,
        /// Where the next page starts, if there is one.
        next_cursor: Option<String>,
    },
}

/// A listing in progress.
#[derive(Debug, PartialEq)]
pub struct Discovery {
    limits: Limits,
    pages: usize,
    listed: Vec<Result<Json, String>>,
}

/// The contents of a listing in progress.
#[verifier::ext_equal]
pub struct DiscoveryView {
    pub limits: Limits,
    pub pages: nat,
    pub listed: Seq<Result<JsonTree, Seq<char>>>,
}

impl View for Discovery {
    type V = DiscoveryView;

    closed spec fn view(&self) -> DiscoveryView {
        DiscoveryView {
            limits: self.limits,
            pages: self.pages as nat,
            listed: all_converted(self.listed@),
        }
    }
}

/// One more page; the count stays at the largest number that the machine holds.
pub open spec fn one_more(pages: nat) -> nat {
    if pages < usize::MAX {
        pages + 1
    } else {
        pages
    }
}

impl DiscoveryView {
    /// A listing that no reply has reached yet.
    pub open spec fn started(limits: Limits) -> DiscoveryView {
        DiscoveryView { limits, pages: 0, listed: Seq::empty() }
    }

    /// What a reply leads to: a failure, a further page under a cursor, or the end.
    pub open spec fn reply_outcome(self, id: Seq<char>, reply: ListReply) -> Result<
        Option<Seq<char>>,
        ErrorView,
    > {
        match reply {
            ListReply::TimedOut => Err(ErrorView::Transport("tools/list timed out"@)),
            ListReply::Failed { causes, class } => Err(
                client::service_report(causes@, class, id),
            ),
            ListReply::Page { next_cursor, .. } => match limits::bound_refusal(
                "max_pages"@,
                one_more(self.pages),
                self.limits.max_pages as nat,
            ) {
                Some(error) => Err(error),
                None => Ok(error::optional_text(next_cursor)),
            },
        }
    }

    /// The listing once a reply has reached it.
    pub open spec fn after(self, id: Seq<char>, reply: ListReply) -> DiscoveryView {
        match (self.reply_outcome(id, reply), reply) {
            (Ok(_), ListReply::Page { tools, .. }) => DiscoveryView {
                limits: self.limits,
                pages: one_more(self.pages),
                listed: self.listed + all_converted(tools@),
            },
            _ => self,
        }
    }
}

/// What one listed descriptor is read as.
pub open spec fn read_listed(item: Result<JsonTree, Seq<char>>, limits: Limits) -> Result<
    DescriptorView,
    ErrorView,
> {
    match item {
        Err(reason) => Err(ErrorView::Protocol(reason)),
        Ok(raw) => tools::read_descriptor(raw, outside::json_bytes(raw).len(), limits),
    }
}

/// What listed descriptors are read as: all of them, or the first failure.
pub open spec fn read_all(listed: Seq<Result<JsonTree, Seq<char>>>, limits: Limits) -> Result<
    Seq<DescriptorView>,
    ErrorView,
>
    decreases listed.len(),
{
    if listed.len() == 0 {
        Ok(Seq::empty())
    } else {
        match read_all(listed.drop_last(), limits) {
            Err(error) => Err(error),
            Ok(front) => match read_listed(listed.last(), limits) {
                Err(error) => Err(error),
                Ok(tool) => Ok(front.push(tool)),
            },
        }
    }
}

/// A descriptor refused among the first `n` is what the whole list is refused for.
pub proof fn lemma_read_prefix(
    listed: Seq<Result<JsonTree, Seq<char>>>,
    limits: Limits,
    n: int,
)
    requires
        0 <= n <= listed.len(),
        read_all(listed.take(n), limits) is Err,
    ensures
        read_all(listed, limits) == read_all(listed.take(n), limits),
    decreases listed.len() - n,
{
    if n < listed.len() {
        assert(listed.take(n + 1).drop_last() =~= listed.take(n));
        lemma_read_prefix(listed, limits, n + 1);
    } else {
        assert(listed.take(n) =~= listed);
    }
}

/// The protocol revision of a connection: the one that the server named, or the legacy one.
pub open spec fn negotiated(version: Option<Seq<char>>) -> Seq<char> {
    match version {
        Some(version) => version,
        None => LEGACY_PROTOCOL_VERSION@,
    }
}

/// The characters of an optional borrowed text.
pub open spec fn borrowed_text(text: Option<&str>) -> Option<Seq<char>> {
    match text {
        Some(text) => Some(text@),
        None => None,
    }
}

/// What a finished listing is frozen into.
pub open spec fn prepared(
    id: Seq<char>,
    version: Option<Seq<char>>,
    discovery: DiscoveryView,
) -> Result<ConnectionView, ErrorView> {
    let limits = discovery.limits;
    match limits::bound_refusal(
        "max_tools"@,
        discovery.listed.len(),
        limits.max_tools as nat,
    ) {
        Some(error) => Err(error),
        None => match read_all(discovery.listed, limits) {
            Err(error) => Err(error),
            Ok(tools) => match tools::freeze_tools(id, negotiated(version), tools, limits) {
                Err(error) => Err(error),
                Ok(snapshot) => Ok(ConnectionView { id, limits, snapshot }),
            },
        },
    }
}

impl Discovery {
    /// Starts a listing.
    pub fn start(limits: Limits) -> (r: Self)
        ensures
            r@ == DiscoveryView::started(limits),
    {
        Discovery { limits, pages: 0, listed: Vec::new() }
    }

    /// Takes a reply in and gives the cursor of the page to ask for next, if one is left.
    pub fn receive(&mut self, id: &ConnectionId, reply: ListReply) -> (r: Result<
        Option<String>,
        ClientError,
    >)
        ensures
            r is Ok <==> old(self)@.reply_outcome(id@, reply) is Ok,
            r is Ok ==> Ok::<_, ErrorView>(error::optional_text(r->Ok_0)) == old(
                self,
            )@.reply_outcome(id@, reply),
            r is Err ==> Err::<Option<Seq<char>>, _>(r->Err_0@) == old(self)@.reply_outcome(
                id@,
                reply,
            ),
            final(self)@ == old(self)@.after(id@, reply),
    {
        match reply {
            ListReply::TimedOut => Err(transport("tools/list timed out")),
            ListReply::Failed { causes, class } => Err(map_service_error(&causes, class, id)),
            ListReply::Page { tools, next_cursor } => {
                let pages: usize = if self.pages < usize::MAX {
                    self.pages + 1
                } else {
                    self.pages
                };
                ensure_bound("max_pages", pages, self.limits.max_pages)?;
                self.pages = pages;
                let mut tools = tools;
                let ghost before = self.listed@;
                let ghost page = tools@;
                self.listed.append(&mut tools);
                assert(all_converted(self.listed@) =~= all_converted(before) + all_converted(page));
                Ok(next_cursor)
            },
        }
    }

    /// Freezes a finished listing: bounds, descriptors and names are checked in this order.
    pub fn prepare(self, id: ConnectionId, version: Option<&str>) -> (r: Result<
        Connection,
        ClientError,
    >)
        ensures
            error::outcome(r) == prepared(id@, borrowed_text(version), self@),
    {
        let limits = self.limits;
        ensure_bound("max_tools", self.listed.len(), limits.max_tools)?;
        let tools = read_descriptors(self.listed, limits)?;
        let version = match version {
            Some(version) => version,
            None => LEGACY_PROTOCOL_VERSION,
        };
        let snapshot = ToolSnapshot::new(id.clone(), version, tools, limits)?;
        Ok(Connection { id, limits, snapshot })
    }
}

/// Reads listed descriptors, up to the first that is refused.
fn read_descriptors(listed: Vec<Result<Json, String>>, limits: Limits) -> (r: Result<
    Vec<ToolDescriptor>,
    ClientError,
>)
    ensures
        match r {
            Ok(tools) => read_all(all_converted(listed@), limits) == Ok::<_, ErrorView>(
                tools::descriptors(tools@),
            ),
            Err(error) => read_all(all_converted(listed@), limits) == Err::<
                Seq<DescriptorView>,
                _,
            >(error@),
        },
{
    let ghost items = all_converted(listed@);
    let mut tools: Vec<ToolDescriptor> = Vec::new();
    let mut i: usize = 0;
    assert(items.take(0) =~= Seq::<Result<JsonTree, Seq<char>>>::empty());
    assert(tools::descriptors(tools@) =~= Seq::<DescriptorView>::empty());
    while i < listed.len()
        invariant
            i <= listed@.len(),
            items == all_converted(listed@),
            read_all(items.take(i as int), limits) == Ok::<_, ErrorView>(
                tools::descriptors(tools@),
            ),
        decreases listed@.len() - i,
    {
        proof {
            assert(items.take(i + 1).drop_last() =~= items.take(i as int));
            assert(items.take(i + 1).last() == converted(listed@[i as int]));
        }
        let read = match &listed[i] {
            Ok(raw) => ToolDescriptor::from_raw(raw.copy(), limits),
            Err(reason) => Err(ClientError::Protocol(reason.clone())),
        };
        match read {
            Ok(tool) => {
                let ghost front = tools@;
                tools.push(tool);
                assert(tools::descriptors(tools@) =~= tools::descriptors(front).push(tool@));
            },
            Err(error) => {
                proof {
                    lemma_read_prefix(items, limits, i + 1);
                }
                return Err(error);
            },
        }
        i = i + 1;
    }
    assert(items.take(i as int) =~= items);
    Ok(tools)
}

/// A connected MCP client with one frozen tool snapshot.
#[derive(Debug, PartialEq)]
pub struct Connection {
    id: ConnectionId,
    limits: Limits,
    snapshot: ToolSnapshot,
}

/// The contents of a connection.
#[verifier::ext_equal]
pub struct ConnectionView {
    pub id: Seq<char>,
    pub limits: Limits,
    pub snapshot: SnapshotView,
}

impl View for Connection {
    type V = ConnectionView;

    closed spec fn view(&self) -> ConnectionView {
        ConnectionView { id: self.id@, limits: self.limits, snapshot: self.snapshot@ }
    }
}

/// How one admitted call is sent.
#[derive(Debug, PartialEq)]
pub struct CallPlan {
    /// MCP tool name, as the server gave it.
    pub name: String,
    /// Arguments, an object.
    pub arguments: Json,
    /// How long to wait for the response.
    pub timeout: TimeSpan,
}

/// The contents of a call plan.
#[verifier::ext_equal]
pub struct CallPlanView {
    pub name: Seq<char>,
    pub arguments: JsonTree,
    pub timeout: TimeSpan,
}

impl View for CallPlan {
    type V = CallPlanView;

    open spec fn view(&self) -> CallPlanView {
        CallPlanView { name: self.name@, arguments: self.arguments@, timeout: self.timeout }
    }
}

/// One response to a call.
#[derive(Debug, PartialEq)]
pub enum CallResponse {
    /// The wait ended first.
    TimedOut,
    /// The request failed.
    Failed {
        /// Chain of causes, the outermost first.
        causes: Vec<Cause>,
        /// Class of the failure.
        class: FailureClass,
    },
    /// A complete result.
    Complete(Result<Json, String>),
    /// The server wants input before it goes on.
    InputRequired(Result<Json, String>),
    /// The server started a task.
    Task(Result<Json, String>),
    /// Anything else.
    Unknown,
}

/// How long a call waits: as long as the deadline leaves, and never longer than the limit.
pub open spec fn call_timeout(deadline: Option<TimeSpan>, limit: TimeSpan) -> TimeSpan {
    match deadline {
        Some(remaining) => if limit.shorter(remaining) {
            limit
        } else {
            remaining
        },
        None => limit,
    }
}

impl ConnectionView {
    /// What a call of a tool with arguments of `size` encoded bytes is planned as.
    pub open spec fn planned(
        self,
        name: Seq<char>,
        arguments: JsonTree,
        size: nat,
        deadline: Option<TimeSpan>,
    ) -> Result<CallPlanView, ErrorView> {
        match tools::arguments_refusal(name, arguments, size, self.limits) {
            Some(error) => Err(error),
            None => if tools::names(self.snapshot.tools).contains(name) {
                Ok(
                    CallPlanView {
                        name,
                        arguments,
                        timeout: call_timeout(deadline, self.limits.request_timeout),
                    },
                )
            } else {
                Err(
                    ErrorView::Protocol(
                        "tool `"@ + name + "` is absent from connection `"@ + self.id
                            + "`'s frozen snapshot"@,
                    ),
                )
            },
        }
    }

    /// What a response to a call of the tool `name` gives back.
    pub open spec fn settled(self, name: Seq<char>, response: CallResponse) -> Result<
        ResultView,
        ErrorView,
    > {
        match response {
            CallResponse::TimedOut => Err(
                ErrorView::Transport("tool `"@ + name + "` timed out"@),
            ),
            CallResponse::Failed { causes, class } => Err(
                client::service_report(causes@, class, self.id),
            ),
            CallResponse::Complete(result) => match converted(result) {
                Ok(raw) => tools::read_result(raw, outside::json_bytes(raw).len(), self.limits),
                Err(reason) => Err(ErrorView::Protocol(reason)),
            },
            CallResponse::InputRequired(result) => unsupported(result, "input-required"@),
            CallResponse::Task(result) => unsupported(result, "tasks"@),
            CallResponse::Unknown => Err(
                ErrorView::UnsupportedFeature { feature: "unknown-tools-call-response"@ },
            ),
        }
    }
}

/// The refusal of a result that is no complete one.
pub open spec fn unsupported(result: Result<Json, String>, feature: Seq<char>) -> Result<
    ResultView,
    ErrorView,
> {
    match converted(result) {
        Ok(_) => Err(ErrorView::UnsupportedFeature { feature }),
        Err(reason) => Err(ErrorView::Protocol(reason)),
    }
}

impl Connection {
    #[verifier::type_invariant]
    spec fn coherent(self) -> bool {
        self.snapshot.well_formed() && self.snapshot@.connection == self.id@
    }

    /// Client-owned identity for this connection.
    pub fn id(&self) -> (r: &ConnectionId)
        ensures
            r@ == self@.id,
    {
        &self.id
    }

    /// Immutable tool list discovered during connection preparation.
    pub fn snapshot(&self) -> (r: &ToolSnapshot)
        ensures
            r@ == self@.snapshot,
            r@.connection == self@.id,
            r.well_formed(),
    {
        proof {
            use_type_invariant(self);
        }
        &self.snapshot
    }

    /// Plans a call of one tool admitted by the frozen snapshot.
    pub fn call(&self, call: &ToolCall, deadline: Option<TimeSpan>) -> (r: Result<
        CallPlan,
        ClientError,
    >)
        ensures
            error::outcome(r) == self@.planned(
                call.name@,
                call.arguments@,
                outside::json_bytes(call.arguments@).len(),
                deadline,
            ),
    {
        let size: usize = tools::serialized_len(&call.arguments);
        self.call_sized(call, size, deadline)
    }

    /// Plans a call whose arguments take `size` encoded bytes.
    pub fn call_sized(&self, call: &ToolCall, size: usize, deadline: Option<TimeSpan>) -> (r:
        Result<CallPlan, ClientError>)
        ensures
            error::outcome(r) == self@.planned(call.name@, call.arguments@, size as nat, deadline),
    {
        call.validate_sized(size, self.limits)?;
        if self.snapshot.tool(call.name.as_str()).is_none() {
            let mut message = joined("tool `", call.name.as_str(), "` is absent from connection `");
            message.append(self.id.as_str());
            message.append("`'s frozen snapshot");
            return Err(ClientError::Protocol(message));
        }
        let limit = self.limits.request_timeout;
        let timeout = match deadline {
            Some(remaining) => remaining.min(limit),
            None => limit,
        };
        Ok(CallPlan { name: call.name.clone(), arguments: call.arguments.copy(), timeout })
    }

    /// Settles a call of the tool `name` by its response.
    pub fn settle(&self, name: &str, response: CallResponse) -> (r: Result<ToolResult, ClientError>)
        ensures
            error::outcome(r) == self@.settled(name@, response),
    {
        match response {
            CallResponse::TimedOut => Err(
                ClientError::Transport(joined("tool `", name, "` timed out")),
            ),
            CallResponse::Failed { causes, class } => Err(
                map_service_error(&causes, class, &self.id),
            ),
            CallResponse::Complete(Ok(raw)) => ToolResult::from_raw(raw, self.limits),
            CallResponse::InputRequired(Ok(_)) => Err(
                ClientError::UnsupportedFeature { feature: "input-required" },
            ),
            CallResponse::Task(Ok(_)) => Err(
                ClientError::UnsupportedFeature { feature: "tasks" },
            ),
            CallResponse::Complete(Err(reason)) => Err(ClientError::Protocol(reason)),
            CallResponse::InputRequired(Err(reason)) => Err(ClientError::Protocol(reason)),
            CallResponse::Task(Err(reason)) => Err(ClientError::Protocol(reason)),
            CallResponse::Unknown => Err(
                ClientError::UnsupportedFeature { feature: "unknown-tools-call-response" },
            ),
        }
    }
}

/// How the cleanup of a transport ended.
#[derive(Debug, Clone, Copy, PartialEq, Eq, Structural)]
pub enum Cleanup {
    /// In time.
    Done,
    /// Not in time.
    TimedOut,
    /// With a failed task.
    Failed,
}

/// How long the cleanup of a transport may take.
pub fn cleanup_timeout() -> (r: TimeSpan)
    ensures
        r == (TimeSpan { secs: 3, nanos: 0 }),
{
    TimeSpan::from_secs(3)
}

/// What the end of a cleanup is reported as.
pub open spec fn cleanup_report(cleanup: Cleanup) -> Option<ErrorView> {
    match cleanup {
        Cleanup::Done => None,
        Cleanup::TimedOut => Some(ErrorView::Transport("client cleanup timed out"@)),
        Cleanup::Failed => Some(ErrorView::Transport("client cleanup task failed"@)),
    }
}

/// Reports the end of a cleanup.
pub fn close(cleanup: Cleanup) -> (r: Result<(), ClientError>)
    ensures
        crate::refusal::checked(r, cleanup_report(cleanup)),
{
    match cleanup {
        Cleanup::Done => Ok(()),
        Cleanup::TimedOut => Err(transport("client cleanup timed out")),
        Cleanup::Failed => Err(transport("client cleanup task failed")),
    }
}

} // verus!
