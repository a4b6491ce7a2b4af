//! The trace signal: spans grouped by resource and scope, with events, links and a status.

use vstd::prelude::*;
use crate::common::{InstrumentationScope, KeyValue, check_scope, scope_refusal, scope_ok, lemma_scope_refusal_iff};
use crate::error::{Invalid, Refusal, refusal};
use crate::ids::{SpanId, TraceId, all_zero};
use crate::resource::{Resource, resource_refusal, resource_ok};
use crate::text::{decimal, push_str, write_decimal};
use crate::validate::{
    Path, field_path, item_path, first_refusal, or_else, matches_refusal, keys_refusal, unique_keys,
    lemma_first_refusal_step, lemma_first_refusal_extends, lemma_take_all,
    law_first_refusal_none_iff_all, first_duplicate_key, distinct_keys, lemma_keys_refusal_iff,
    lemma_first_refusal_iff,
};

verus! {

/// A traces payload: the body of an `ExportTraceServiceRequest`, what `/v1/traces` receives.
#[derive(Clone, Debug, Default, PartialEq)]
pub struct TracesData {
    /// The spans, grouped by the resource that produced them.
    pub resource_spans: Vec<ResourceSpans>,
}

/// The spans of one resource, grouped by instrumentation scope.
#[derive(Clone, Debug, Default, PartialEq)]
pub struct ResourceSpans {
    /// The resource; absent when no resource information is available.
    pub resource: Option<Resource>,
    /// The spans, grouped by scope.
    pub scope_spans: Vec<ScopeSpans>,
    /// The schema URL of the resource's attributes.
    pub schema_url: String,
}

/// The spans of one instrumentation scope.
#[derive(Clone, Debug, Default, PartialEq)]
pub struct ScopeSpans {
    /// The scope; absent is an empty scope.
    pub scope: Option<InstrumentationScope>,
    /// The spans.
    pub spans: Vec<Span>,
    /// The schema URL of the scope's and the spans' attributes.
    pub schema_url: String,
}

/// One operation within a trace.
#[derive(Clone, Debug, Default, PartialEq)]
pub struct Span {
    /// The trace this span belongs to; all zeros is invalid.
    pub trace_id: TraceId,
    /// The span's own identifier, unique within the trace; all zeros is invalid.
    pub span_id: SpanId,
    /// The W3C `tracestate` header value.
    pub trace_state: String,
    /// The parent span; absent for a root span.
    pub parent_span_id: Option<SpanId>,
    /// Bits 0–7 the W3C trace flags, bit 8 whether the remote state is known, bit 9 whether the
    /// parent is remote; see [`flags`](crate::flags).
    pub flags: u32,
    /// The operation's name; empty means unknown.
    pub name: String,
    /// What kind of operation the span records.
    pub kind: SpanKind,
    /// When the operation started, in nanoseconds since the Unix epoch.
    pub start_time_unix_nano: u64,
    /// When the operation ended, in nanoseconds since the Unix epoch; never before the start.
    pub end_time_unix_nano: u64,
    /// The span's attributes; keys unique.
    pub attributes: Vec<KeyValue>,
    /// How many attributes the producer dropped.
    pub dropped_attributes_count: u32,
    /// Time-stamped annotations.
    pub events: Vec<Event>,
    /// How many events the producer dropped.
    pub dropped_events_count: u32,
    /// References to spans in this or another trace.
    pub links: Vec<Link>,
    /// How many links the producer dropped.
    pub dropped_links_count: u32,
    /// The final status; absent means unset.
    pub status: Option<Status>,
}

/// What kind of operation a span records; an integer on the wire.
#[derive(Clone, Copy, Debug, Eq, Hash)]
pub enum SpanKind {
    /// Unspecified; a consumer may treat it as [`Internal`](Self::Internal).
    Unspecified,
    /// An operation within the application.
    Internal,
    /// The handling of a remote request.
    Server,
    /// A request to a remote service.
    Client,
    /// A message sent to a broker.
    Producer,
    /// A message received from a broker.
    Consumer,
}

/// The protocol number of a span kind.
pub open spec fn span_kind_number(kind: SpanKind) -> u32 {
    match kind {
        SpanKind::Unspecified => 0,
        SpanKind::Internal => 1,
        SpanKind::Server => 2,
        SpanKind::Client => 3,
        SpanKind::Producer => 4,
        SpanKind::Consumer => 5,
    }
}

impl PartialEq for SpanKind {
    fn eq(&self, other: &Self) -> (r: bool) {
        self.as_u32() == other.as_u32()
    }
}

impl vstd::std_specs::cmp::PartialEqSpecImpl for SpanKind {
    open spec fn obeys_eq_spec() -> bool {
        true
    }

    open spec fn eq_spec(&self, other: &Self) -> bool {
        *self == *other
    }
}

impl Default for SpanKind {
    /// The protocol's default: unspecified.
    fn default() -> (k: Self)
        ensures
            k == SpanKind::Unspecified,
    {
        SpanKind::Unspecified
    }
}

impl SpanKind {
    /// The kind for its protocol number, if there is one.
    pub fn from_u32(value: u32) -> (r: Option<Self>)
        ensures
            r is Some <==> value <= 5,
            r matches Some(kind) ==> span_kind_number(kind) == value,
    {
        match value {
            0 => Some(SpanKind::Unspecified),
            1 => Some(SpanKind::Internal),
            2 => Some(SpanKind::Server),
            3 => Some(SpanKind::Client),
            4 => Some(SpanKind::Producer),
            5 => Some(SpanKind::Consumer),
            _ => None,
        }
    }

    /// The protocol number of the kind.
    pub fn as_u32(self) -> (n: u32)
        ensures
            n == span_kind_number(self),
    {
        match self {
            SpanKind::Unspecified => 0,
            SpanKind::Internal => 1,
            SpanKind::Server => 2,
            SpanKind::Client => 3,
            SpanKind::Producer => 4,
            SpanKind::Consumer => 5,
        }
    }
}

/// A time-stamped annotation on a span.
#[derive(Clone, Debug, Default, PartialEq)]
pub struct Event {
    /// When the event happened, in nanoseconds since the Unix epoch.
    pub time_unix_nano: u64,
    /// The event's name; required and non-empty.
    pub name: String,
    /// The event's attributes; keys unique.
    pub attributes: Vec<KeyValue>,
    /// How many attributes the producer dropped.
    pub dropped_attributes_count: u32,
}

/// A reference from a span to another span, in the same trace or another.
#[derive(Clone, Debug, Default, PartialEq)]
pub struct Link {
    /// The trace of the linked span; all zeros is invalid.
    pub trace_id: TraceId,
    /// The linked span; all zeros is invalid.
    pub span_id: SpanId,
    /// The W3C `tracestate` of the linked span.
    pub trace_state: String,
    /// The link's attributes; keys unique.
    pub attributes: Vec<KeyValue>,
    /// How many attributes the producer dropped.
    pub dropped_attributes_count: u32,
    /// The same bit field as [`Span::flags`], for the linked span.
    pub flags: u32,
}

/// The final status of a span.
#[derive(Clone, Debug, Default, PartialEq)]
pub struct Status {
    /// A developer-facing description, usually of an error.
    pub message: String,
    /// The status code.
    pub code: StatusCode,
}

/// The status code of a span; an integer on the wire.
#[derive(Clone, Copy, Debug, Eq, Hash)]
pub enum StatusCode {
    /// No status was set.
    Unset,
    /// The operation completed successfully, as judged by the developer or operator.
    OK,
    /// The operation failed.
    Error,
}

impl PartialEq for StatusCode {
    fn eq(&self, other: &Self) -> (r: bool) {
        self.as_u32() == other.as_u32()
    }
}

impl vstd::std_specs::cmp::PartialEqSpecImpl for StatusCode {
    open spec fn obeys_eq_spec() -> bool {
        true
    }

    open spec fn eq_spec(&self, other: &Self) -> bool {
        *self == *other
    }
}

impl Default for StatusCode {
    /// The protocol's default: unset.
    fn default() -> (d: Self)
        ensures
            d == StatusCode::Unset,
    {
        StatusCode::Unset
    }
}

/// The protocol number of a status code.
pub open spec fn status_code_number(code: StatusCode) -> u32 {
    match code {
        StatusCode::Unset => 0,
        StatusCode::OK => 1,
        StatusCode::Error => 2,
    }
}

impl StatusCode {
    /// The code for its protocol number, if there is one.
    pub fn from_u32(value: u32) -> (r: Option<Self>)
        ensures
            r is Some <==> value <= 2,
            r matches Some(code) ==> status_code_number(code) == value,
    {
        match value {
            0 => Some(StatusCode::Unset),
            1 => Some(StatusCode::OK),
            2 => Some(StatusCode::Error),
            _ => None,
        }
    }

    /// The protocol number of the code.
    pub fn as_u32(self) -> (n: u32)
        ensures
            n == status_code_number(self),
    {
        match self {
            StatusCode::Unset => 0,
            StatusCode::OK => 1,
            StatusCode::Error => 2,
        }
    }
}

/// What the rules refuse of an event at `at`: an empty name, then a repeated attribute key.
pub open spec fn event_refusal(e: Event, at: Seq<char>) -> Option<Refusal> {
    if e.name@.len() == 0 {
        Some(refusal(at, "an event needs a name"@))
    } else {
        keys_refusal(e.attributes@, at)
    }
}

/// What the rules refuse of a link at `at`: an all-zero trace or span id, then a repeated
/// attribute key.
pub open spec fn link_refusal(l: Link, at: Seq<char>) -> Option<Refusal> {
    if all_zero(l.trace_id@) {
        Some(refusal(at, "traceId is all zeros"@))
    } else if all_zero(l.span_id@) {
        Some(refusal(at, "spanId is all zeros"@))
    } else {
        keys_refusal(l.attributes@, at)
    }
}

/// The rule for the events of a span at `at`: event `i` is checked at `at.events[i]`.
pub open spec fn events_at(at: Seq<char>) -> spec_fn(int, Event) -> Option<Refusal> {
    |i: int, e: Event| event_refusal(e, item_path(at, "events"@, i))
}

/// The rule for the links of a span at `at`: link `i` is checked at `at.links[i]`.
pub open spec fn links_at(at: Seq<char>) -> spec_fn(int, Link) -> Option<Refusal> {
    |i: int, l: Link| link_refusal(l, item_path(at, "links"@, i))
}

/// The message of a span that ends before it starts.
pub open spec fn end_before_start(end: u64, start: u64) -> Seq<char> {
    "endTimeUnixNano "@ + decimal(end as nat) + " precedes startTimeUnixNano "@ + decimal(start as nat)
}

/// What the rules refuse of a span at `at`, in the order they are checked: an all-zero trace,
/// span or parent id, an end before the start, a repeated attribute key, then its events and its
/// links.
pub open spec fn span_refusal(s: Span, at: Seq<char>) -> Option<Refusal> {
    if all_zero(s.trace_id@) {
        Some(refusal(at, "traceId is all zeros"@))
    } else if all_zero(s.span_id@) {
        Some(refusal(at, "spanId is all zeros"@))
    } else if s.parent_span_id matches Some(p) && all_zero(p@) {
        Some(refusal(at, "parentSpanId is all zeros"@))
    } else if s.end_time_unix_nano < s.start_time_unix_nano {
        Some(refusal(at, end_before_start(s.end_time_unix_nano, s.start_time_unix_nano)))
    } else {
        or_else(
            keys_refusal(s.attributes@, at),
            or_else(first_refusal(s.events@, events_at(at)), first_refusal(s.links@, links_at(at))),
        )
    }
}

/// The rule for the spans of a scope group at `at`.
pub open spec fn spans_at(at: Seq<char>) -> spec_fn(int, Span) -> Option<Refusal> {
    |i: int, s: Span| span_refusal(s, item_path(at, "spans"@, i))
}

/// What the rules refuse of a scope group of spans at `at`: its scope, then its spans.
pub open spec fn scope_spans_refusal(g: ScopeSpans, at: Seq<char>) -> Option<Refusal> {
    or_else(scope_refusal(g.scope, at), first_refusal(g.spans@, spans_at(at)))
}

/// The rule for the scope groups of a resource group at `at`.
pub open spec fn scope_spans_at(at: Seq<char>) -> spec_fn(int, ScopeSpans) -> Option<Refusal> {
    |i: int, g: ScopeSpans| scope_spans_refusal(g, item_path(at, "scopeSpans"@, i))
}

/// What the rules refuse of the resource of a group at `at`, named at `at.resource`.
pub open spec fn group_resource_refusal(resource: Option<Resource>, at: Seq<char>) -> Option<Refusal> {
    match resource {
        Some(r) => resource_refusal(r, field_path(at, "resource"@)),
        None => None,
    }
}

/// What the rules refuse of a resource group of spans at `at`: its resource, then its scope
/// groups.
pub open spec fn resource_spans_refusal(g: ResourceSpans, at: Seq<char>) -> Option<Refusal> {
    or_else(group_resource_refusal(g.resource, at), first_refusal(g.scope_spans@, scope_spans_at(at)))
}

/// The rule for the resource groups of a traces payload.
pub open spec fn resource_spans_at() -> spec_fn(int, ResourceSpans) -> Option<Refusal> {
    |i: int, g: ResourceSpans| resource_spans_refusal(g, item_path(Seq::empty(), "resourceSpans"@, i))
}

/// What the rules refuse of a traces payload: the first refusal of its resource groups, in order.
pub open spec fn traces_refusal(t: TracesData) -> Option<Refusal> {
    first_refusal(t.resource_spans@, resource_spans_at())
}

/// The span kinds carry the protocol numbers OTLP assigns them: unspecified 0, internal 1,
/// server 2, client 3, producer 4, consumer 5.
pub proof fn law_span_kind_protocol_numbers()
    ensures
        span_kind_number(SpanKind::Unspecified) == 0,
        span_kind_number(SpanKind::Internal) == 1,
        span_kind_number(SpanKind::Server) == 2,
        span_kind_number(SpanKind::Client) == 3,
        span_kind_number(SpanKind::Producer) == 4,
        span_kind_number(SpanKind::Consumer) == 5,
{
}

/// The status codes carry the protocol numbers OTLP assigns them: unset 0, ok 1, error 2.
pub proof fn law_status_code_protocol_numbers()
    ensures
        status_code_number(StatusCode::Unset) == 0,
        status_code_number(StatusCode::OK) == 1,
        status_code_number(StatusCode::Error) == 2,
{
}

/// The protocol numbers name the kinds one for one: `from_u32(k.as_u32())` is `Some(k)`.
pub proof fn law_span_kind_numbers(kind: SpanKind, other: SpanKind)
    ensures
        span_kind_number(kind) <= 5,
        span_kind_number(kind) == span_kind_number(other) ==> kind == other,
{
}

/// The protocol numbers name the codes one for one: `from_u32(c.as_u32())` is `Some(c)`.
pub proof fn law_status_code_numbers(code: StatusCode, other: StatusCode)
    ensures
        status_code_number(code) <= 2,
        status_code_number(code) == status_code_number(other) ==> code == other,
{
}

/// Every span of a payload that validates keeps the span rules: non-zero trace, span and parent
/// ids, an end not before the start, and unique attribute keys.
pub proof fn law_valid_traces_have_valid_spans(t: TracesData, r: int, g: int, k: int)
    requires
        traces_refusal(t) is None,
        0 <= r < t.resource_spans@.len(),
        0 <= g < t.resource_spans@[r].scope_spans@.len(),
        0 <= k < t.resource_spans@[r].scope_spans@[g].spans@.len(),
    ensures
        ({
            let s = t.resource_spans@[r].scope_spans@[g].spans@[k];
            &&& !all_zero(s.trace_id@)
            &&& !all_zero(s.span_id@)
            &&& (s.parent_span_id matches Some(p) ==> !all_zero(p@))
            &&& s.start_time_unix_nano <= s.end_time_unix_nano
            &&& first_duplicate_key(s.attributes@) is None
        }),
{
    let groups = t.resource_spans@;
    law_first_refusal_none_iff_all(groups, resource_spans_at());
    assert(resource_spans_at()(r, groups[r]) is None);
    let rg = groups[r];
    let at_r = item_path(Seq::empty(), "resourceSpans"@, r);
    law_first_refusal_none_iff_all(rg.scope_spans@, scope_spans_at(at_r));
    assert(scope_spans_at(at_r)(g, rg.scope_spans@[g]) is None);
    let sg = rg.scope_spans@[g];
    let at_g = item_path(at_r, "scopeSpans"@, g);
    law_first_refusal_none_iff_all(sg.spans@, spans_at(at_g));
    assert(spans_at(at_g)(k, sg.spans@[k]) is None);
}

/// Whether the resource of a group, if it has one, keeps its rule.
pub open spec fn group_resource_ok(resource: Option<Resource>) -> bool {
    resource matches Some(r) ==> resource_ok(r)
}

/// The rule of a group's resource refuses nothing exactly when the resource keeps it.
pub proof fn lemma_group_resource_iff(resource: Option<Resource>, at: Seq<char>)
    ensures
        group_resource_refusal(resource, at) is None <==> group_resource_ok(resource),
{
    if let Some(r) = resource {
        lemma_keys_refusal_iff(r.attributes@, field_path(at, "resource"@));
    }
}

/// Whether an event keeps the rules: it has a name and distinct attribute keys.
pub open spec fn event_ok(e: Event) -> bool {
    e.name@.len() > 0 && distinct_keys(e.attributes@)
}

/// Whether a link keeps the rules: a trace id and a span id that are not all zeros, and
/// distinct attribute keys.
pub open spec fn link_ok(l: Link) -> bool {
    &&& !all_zero(l.trace_id@)
    &&& !all_zero(l.span_id@)
    &&& distinct_keys(l.attributes@)
}

/// Whether a span keeps the rules: trace, span and parent ids that are not all zeros, an end
/// not before its start, distinct attribute keys, and events and links that keep theirs.
pub open spec fn span_ok(s: Span) -> bool {
    &&& !all_zero(s.trace_id@)
    &&& !all_zero(s.span_id@)
    &&& (s.parent_span_id matches Some(p) ==> !all_zero(p@))
    &&& s.start_time_unix_nano <= s.end_time_unix_nano
    &&& distinct_keys(s.attributes@)
    &&& forall|i: int| 0 <= i < s.events@.len() ==> event_ok(#[trigger] s.events@[i])
    &&& forall|i: int| 0 <= i < s.links@.len() ==> link_ok(#[trigger] s.links@[i])
}

/// Whether a scope group keeps the rules: its scope and every span.
pub open spec fn scope_spans_ok(g: ScopeSpans) -> bool {
    scope_ok(g.scope) && forall|i: int| 0 <= i < g.spans@.len() ==> span_ok(#[trigger] g.spans@[i])
}

/// Whether a resource group keeps the rules: its resource and every scope group.
pub open spec fn resource_spans_ok(g: ResourceSpans) -> bool {
    &&& group_resource_ok(g.resource)
    &&& forall|i: int| 0 <= i < g.scope_spans@.len() ==> scope_spans_ok(#[trigger] g.scope_spans@[i])
}

/// Whether a traces payload keeps every rule of the protocol, in every part.
pub open spec fn traces_ok(t: TracesData) -> bool {
    forall|i: int| 0 <= i < t.resource_spans@.len() ==> resource_spans_ok(#[trigger] t.resource_spans@[i])
}

proof fn lemma_span_iff(s: Span, at: Seq<char>)
    ensures
        span_refusal(s, at) is None <==> span_ok(s),
{
    lemma_keys_refusal_iff(s.attributes@, at);
    assert forall|i: int| 0 <= i < s.events@.len() implies
        (#[trigger] events_at(at)(i, s.events@[i]) is None <==> event_ok(s.events@[i])) by {
        lemma_keys_refusal_iff(s.events@[i].attributes@, item_path(at, "events"@, i));
    }
    lemma_first_refusal_iff(s.events@, events_at(at), |e: Event| event_ok(e));
    assert forall|i: int| 0 <= i < s.links@.len() implies
        (#[trigger] links_at(at)(i, s.links@[i]) is None <==> link_ok(s.links@[i])) by {
        lemma_keys_refusal_iff(s.links@[i].attributes@, item_path(at, "links"@, i));
    }
    lemma_first_refusal_iff(s.links@, links_at(at), |l: Link| link_ok(l));
}

proof fn lemma_scope_spans_iff(g: ScopeSpans, at: Seq<char>)
    ensures
        scope_spans_refusal(g, at) is None <==> scope_spans_ok(g),
{
    lemma_scope_refusal_iff(g.scope, at);
    assert forall|i: int| 0 <= i < g.spans@.len() implies
        (#[trigger] spans_at(at)(i, g.spans@[i]) is None <==> span_ok(g.spans@[i])) by {
        lemma_span_iff(g.spans@[i], item_path(at, "spans"@, i));
    }
    lemma_first_refusal_iff(g.spans@, spans_at(at), |x: Span| span_ok(x));
}

proof fn lemma_resource_spans_iff(g: ResourceSpans, at: Seq<char>)
    ensures
        resource_spans_refusal(g, at) is None <==> resource_spans_ok(g),
{
    lemma_group_resource_iff(g.resource, at);
    assert forall|i: int| 0 <= i < g.scope_spans@.len() implies
        (#[trigger] scope_spans_at(at)(i, g.scope_spans@[i]) is None <==> scope_spans_ok(g.scope_spans@[i])) by {
        lemma_scope_spans_iff(g.scope_spans@[i], item_path(at, "scopeSpans"@, i));
    }
    lemma_first_refusal_iff(g.scope_spans@, scope_spans_at(at), |x: ScopeSpans| scope_spans_ok(x));
}

/// A traces payload validates exactly when it keeps every rule: distinct attribute keys on
/// every resource, scope, span, event and link; span trace, span and parent ids that are not
/// all zeros; no span ending before it starts; every event named; and every link with a trace
/// id and a span id that are not all zeros.
pub proof fn law_traces_validate_iff_rules_hold(t: TracesData)
    ensures
        traces_refusal(t) is None <==> traces_ok(t),
{
    assert forall|i: int| 0 <= i < t.resource_spans@.len() implies
        (#[trigger] resource_spans_at()(i, t.resource_spans@[i]) is None <==> resource_spans_ok(t.resource_spans@[i])) by {
        lemma_resource_spans_iff(t.resource_spans@[i], item_path(Seq::empty(), "resourceSpans"@, i));
    }
    lemma_first_refusal_iff(t.resource_spans@, resource_spans_at(), |x: ResourceSpans| resource_spans_ok(x));
}

/// The rules of the resource of a group at `at`.
pub fn check_group_resource(resource: &Option<Resource>, at: &Path) -> (r: Result<(), Invalid>)
    ensures
        matches_refusal(r, group_resource_refusal(*resource, at@)),
{
    match resource {
        Some(res) => res.check(&at.field("resource")),
        None => Ok(()),
    }
}

impl Event {
    /// The rules of an event: a name, then unique attribute keys.
    pub fn check(&self, at: &Path) -> (r: Result<(), Invalid>)
        ensures
            matches_refusal(r, event_refusal(*self, at@)),
    {
        if self.name.as_str().is_empty() {
            return Err(at.refuse("an event needs a name"));
        }
        unique_keys(self.attributes.as_slice(), at)
    }
}

impl Link {
    /// The rules of a link: non-zero ids, then unique attribute keys.
    pub fn check(&self, at: &Path) -> (r: Result<(), Invalid>)
        ensures
            matches_refusal(r, link_refusal(*self, at@)),
    {
        if self.trace_id.is_zero() {
            return Err(at.refuse("traceId is all zeros"));
        }
        if self.span_id.is_zero() {
            return Err(at.refuse("spanId is all zeros"));
        }
        unique_keys(self.attributes.as_slice(), at)
    }
}

/// The rules of the events of a span at `at`.
fn check_events(events: &Vec<Event>, at: &Path) -> (r: Result<(), Invalid>)
    ensures
        matches_refusal(r, first_refusal(events@, events_at(at@))),
{
    let ghost f = events_at(at@);
    let n = events.len();
    for i in 0..n
        invariant
            n == events@.len(),
            f == events_at(at@),
            first_refusal(events@.take(i as int), f) is None,
    {
        proof {
            lemma_first_refusal_step(events@, f, i as int);
        }
        let r = events[i].check(&at.item("events", i));
        if r.is_err() {
            proof {
                lemma_first_refusal_extends(events@, f, i + 1);
            }
            return r;
        }
    }
    proof {
        lemma_take_all(events@);
    }
    Ok(())
}

/// The rules of the links of a span at `at`.
fn check_links(links: &Vec<Link>, at: &Path) -> (r: Result<(), Invalid>)
    ensures
        matches_refusal(r, first_refusal(links@, links_at(at@))),
{
    let ghost f = links_at(at@);
    let n = links.len();
    for i in 0..n
        invariant
            n == links@.len(),
            f == links_at(at@),
            first_refusal(links@.take(i as int), f) is None,
    {
        proof {
            lemma_first_refusal_step(links@, f, i as int);
        }
        let r = links[i].check(&at.item("links", i));
        if r.is_err() {
            proof {
                lemma_first_refusal_extends(links@, f, i + 1);
            }
            return r;
        }
    }
    proof {
        lemma_take_all(links@);
    }
    Ok(())
}

impl Span {
    /// The rules of a span, in order: non-zero trace, span and parent ids, an end not before
    /// the start, unique attribute keys, then its events and its links.
    pub fn check(&self, at: &Path) -> (r: Result<(), Invalid>)
        ensures
            matches_refusal(r, span_refusal(*self, at@)),
    {
        if self.trace_id.is_zero() {
            return Err(at.refuse("traceId is all zeros"));
        }
        if self.span_id.is_zero() {
            return Err(at.refuse("spanId is all zeros"));
        }
        match &self.parent_span_id {
            Some(p) => {
                if p.is_zero() {
                    return Err(at.refuse("parentSpanId is all zeros"));
                }
            },
            None => {},
        }
        if self.end_time_unix_nano < self.start_time_unix_nano {
            let mut reason = String::new();
            push_str(&mut reason, "endTimeUnixNano ");
            write_decimal(&mut reason, self.end_time_unix_nano);
            push_str(&mut reason, " precedes startTimeUnixNano ");
            write_decimal(&mut reason, self.start_time_unix_nano);
            assert(reason@ =~= end_before_start(self.end_time_unix_nano, self.start_time_unix_nano));
            return Err(at.refuse(reason.as_str()));
        }
        let r = unique_keys(self.attributes.as_slice(), at);
        if r.is_err() {
            return r;
        }
        let r = check_events(&self.events, at);
        if r.is_err() {
            return r;
        }
        check_links(&self.links, at)
    }
}

impl ScopeSpans {
    /// The rules of a scope group: its scope's attribute keys, then each span at
    /// `at.spans[i]`.
    pub fn check(&self, at: &Path) -> (r: Result<(), Invalid>)
        ensures
            matches_refusal(r, scope_spans_refusal(*self, at@)),
    {
        let r = check_scope(&self.scope, at);
        if r.is_err() {
            return r;
        }
        let ghost f = spans_at(at@);
        let n = self.spans.len();
        for i in 0..n
            invariant
                n == self.spans@.len(),
                f == spans_at(at@),
                scope_refusal(self.scope, at@) is None,
                first_refusal(self.spans@.take(i as int), f) is None,
        {
            proof {
                lemma_first_refusal_step(self.spans@, f, i as int);
            }
            let r = self.spans[i].check(&at.item("spans", i));
            if r.is_err() {
                proof {
                    lemma_first_refusal_extends(self.spans@, f, i + 1);
                }
                return r;
            }
        }
        proof {
            lemma_take_all(self.spans@);
        }
        Ok(())
    }
}

impl ResourceSpans {
    /// The rules of a resource group: its resource at `at.resource`, then each scope group at
    /// `at.scopeSpans[i]`.
    pub fn check(&self, at: &Path) -> (r: Result<(), Invalid>)
        ensures
            matches_refusal(r, resource_spans_refusal(*self, at@)),
    {
        let r = check_group_resource(&self.resource, at);
        if r.is_err() {
            return r;
        }
        let ghost f = scope_spans_at(at@);
        let n = self.scope_spans.len();
        for i in 0..n
            invariant
                n == self.scope_spans@.len(),
                f == scope_spans_at(at@),
                group_resource_refusal(self.resource, at@) is None,
                first_refusal(self.scope_spans@.take(i as int), f) is None,
        {
            proof {
                lemma_first_refusal_step(self.scope_spans@, f, i as int);
            }
            let r = self.scope_spans[i].check(&at.item("scopeSpans", i));
            if r.is_err() {
                proof {
                    lemma_first_refusal_extends(self.scope_spans@, f, i + 1);
                }
                return r;
            }
        }
        proof {
            lemma_take_all(self.scope_spans@);
        }
        Ok(())
    }
}

impl TracesData {
    /// The rules of a traces payload: each resource group at `resourceSpans[i]`; the first rule
    /// broken is returned with its path.
    pub fn check(&self) -> (r: Result<(), Invalid>)
        ensures
            matches_refusal(r, traces_refusal(*self)),
    {
        let root = Path::root();
        let ghost f = resource_spans_at();
        let n = self.resource_spans.len();
        for i in 0..n
            invariant
                n == self.resource_spans@.len(),
                f == resource_spans_at(),
                root@ == Seq::<char>::empty(),
                first_refusal(self.resource_spans@.take(i as int), f) is None,
        {
            proof {
                lemma_first_refusal_step(self.resource_spans@, f, i as int);
            }
            let r = self.resource_spans[i].check(&root.item("resourceSpans", i));
            if r.is_err() {
                proof {
                    lemma_first_refusal_extends(self.resource_spans@, f, i + 1);
                }
                return r;
            }
        }
        proof {
            lemma_take_all(self.resource_spans@);
        }
        Ok(())
    }
}

} // verus!
