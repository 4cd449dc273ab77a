//! Instrumentation events, the spans they become, and the decisions of the
//! pipeline that carries the one to the other.

use vstd::prelude::*;
use crate::errors::{Error, ErrorModel};

verus! {

/// How many events may wait between the instrumentors and the conversion
/// before a sender has to wait.
pub const EVENT_CHANNEL_CAPACITY: usize = 1024;

/// One recorded occurrence of an instrumented operation.
#[derive(Debug, Clone)]
pub struct Event {
    pub library: String,
    pub name: String,
    pub start_time: u64,
    pub end_time: u64,
    pub trace_id: [u8; 16],
    pub span_id: [u8; 8],
    pub attributes: Vec<(String, String)>,
}

/// The characters of each pair of a list of attributes.
pub open spec fn attribute_texts(attributes: Seq<(String, String)>) -> Seq<(Seq<char>, Seq<char>)> {
    attributes.map_values(|pair: (String, String)| (pair.0@, pair.1@))
}

/// The mathematical value of an [`Event`].
pub struct EventModel {
    pub library: Seq<char>,
    pub name: Seq<char>,
    pub start_time: u64,
    pub end_time: u64,
    pub trace_id: Seq<u8>,
    pub span_id: Seq<u8>,
    pub attributes: Seq<(Seq<char>, Seq<char>)>,
}

impl View for Event {
    type V = EventModel;

    open spec fn view(&self) -> EventModel {
        EventModel {
            library: self.library@,
            name: self.name@,
            start_time: self.start_time,
            end_time: self.end_time,
            trace_id: self.trace_id@,
            span_id: self.span_id@,
            attributes: attribute_texts(self.attributes@),
        }
    }
}

/// The values of a list of events.
pub open spec fn event_models(events: Seq<Event>) -> Seq<EventModel> {
    events.map_values(|e: Event| e@)
}

/// The role of a span in a trace.
#[derive(Debug, Clone, Copy, PartialEq, Eq, Structural)]
pub enum SpanKind {
    Client,
    Server,
    Producer,
    Consumer,
    Internal,
}

/// A finished span, as the telemetry sink takes it.
#[derive(Debug, Clone)]
pub struct SpanRecord {
    pub name: String,
    pub kind: SpanKind,
    pub start_time: u64,
    pub end_time: u64,
    pub attributes: Vec<(String, String)>,
}

/// The mathematical value of a [`SpanRecord`].
pub struct SpanModel {
    pub name: Seq<char>,
    pub kind: SpanKind,
    pub start_time: u64,
    pub end_time: u64,
    pub attributes: Seq<(Seq<char>, Seq<char>)>,
}

impl View for SpanRecord {
    type V = SpanModel;

    open spec fn view(&self) -> SpanModel {
        SpanModel {
            name: self.name@,
            kind: self.kind,
            start_time: self.start_time,
            end_time: self.end_time,
            attributes: attribute_texts(self.attributes@),
        }
    }
}

/// The span of an event: named after the operation, of server kind, with
/// the event's own boundaries and every one of its attributes, in order.
pub open spec fn span_of(event: EventModel) -> SpanModel {
    SpanModel {
        name: event.name,
        kind: SpanKind::Server,
        start_time: event.start_time,
        end_time: event.end_time,
        attributes: event.attributes,
    }
}

/// What the driver does with a round of events that the instrumentors
/// handed out.
#[derive(Debug)]
pub enum Production {
    /// Send these events into the channel, in this order, and ask for the
    /// next round.
    Send(Vec<Event>),
    /// Nothing is left to observe: production is over.
    Stop,
}

/// The mathematical value of a [`Production`].
pub enum ProductionModel {
    Send(Seq<EventModel>),
    Stop,
}

impl View for Production {
    type V = ProductionModel;

    open spec fn view(&self) -> ProductionModel {
        match self {
            Production::Send(events) => ProductionModel::Send(event_models(events@)),
            Production::Stop => ProductionModel::Stop,
        }
    }
}

/// Production goes on as long as a round brings events, and ends with the
/// first round that brings none.
pub open spec fn production_after(round: Seq<EventModel>) -> ProductionModel {
    if round.len() == 0 {
        ProductionModel::Stop
    } else {
        ProductionModel::Send(round)
    }
}

/// What the pipeline's driver observed.
#[derive(Debug)]
pub enum PipelineEvent {
    /// An instrumentor's event arrived.
    Received(Event),
    /// Every sender is gone and nothing waits any more.
    Closed,
    /// The shutdown signal was observed.
    Shutdown,
}

/// The mathematical value of a [`PipelineEvent`].
pub enum PipelineEventModel {
    Received(EventModel),
    Closed,
    Shutdown,
}

impl View for PipelineEvent {
    type V = PipelineEventModel;

    open spec fn view(&self) -> PipelineEventModel {
        match self {
            PipelineEvent::Received(event) => PipelineEventModel::Received(event@),
            PipelineEvent::Closed => PipelineEventModel::Closed,
            PipelineEvent::Shutdown => PipelineEventModel::Shutdown,
        }
    }
}

/// What the pipeline's driver has to do.
#[derive(Debug)]
pub enum PipelineAction {
    /// Hand this span to the sink and go on.
    Export(SpanRecord),
    /// Stop; this is how the run ended.
    Finish(Result<(), Error>),
}

/// The mathematical value of a [`PipelineAction`].
pub enum PipelineActionModel {
    Export(SpanModel),
    Finish(Result<(), ErrorModel>),
}

impl View for PipelineAction {
    type V = PipelineActionModel;

    open spec fn view(&self) -> PipelineActionModel {
        match self {
            PipelineAction::Export(span) => PipelineActionModel::Export(span@),
            PipelineAction::Finish(Ok(())) => PipelineActionModel::Finish(Ok(())),
            PipelineAction::Finish(Err(error)) => PipelineActionModel::Finish(Err(error@)),
        }
    }
}

/// What follows each observation: an event is exported as its span; the
/// end of the events ends the run well; shutdown ends it as `Interrupted`.
pub open spec fn pipeline_action(event: PipelineEventModel) -> PipelineActionModel {
    match event {
        PipelineEventModel::Received(event) => PipelineActionModel::Export(span_of(event)),
        PipelineEventModel::Closed => PipelineActionModel::Finish(Ok(())),
        PipelineEventModel::Shutdown => PipelineActionModel::Finish(Err(ErrorModel::Interrupted)),
    }
}

/// What the driver observes while the events `events` arrive one after
/// another.
pub open spec fn received(events: Seq<EventModel>) -> Seq<PipelineEventModel> {
    events.map_values(|event: EventModel| PipelineEventModel::Received(event))
}

/// The span of each event of a list, in the order of the list.
pub open spec fn spans_of(events: Seq<EventModel>) -> Seq<SpanModel> {
    events.map_values(|event: EventModel| span_of(event))
}

/// The spans that are exported while the driver observes `observed` one
/// after another, up to the observation that ends the run.
pub open spec fn spans_exported(observed: Seq<PipelineEventModel>) -> Seq<SpanModel>
    decreases observed.len(),
{
    if observed.len() == 0 {
        Seq::empty()
    } else {
        match pipeline_action(observed[0]) {
            PipelineActionModel::Export(span) => seq![span] + spans_exported(observed.drop_first()),
            PipelineActionModel::Finish(_) => Seq::empty(),
        }
    }
}

/// How the run ends while the driver observes `observed` one after
/// another: with what the first observation that ends it gives, or not
/// yet.
pub open spec fn run_outcome(observed: Seq<PipelineEventModel>) -> Option<Result<(), ErrorModel>>
    decreases observed.len(),
{
    if observed.len() == 0 {
        None
    } else {
        match pipeline_action(observed[0]) {
            PipelineActionModel::Export(_) => run_outcome(observed.drop_first()),
            PipelineActionModel::Finish(outcome) => Some(outcome),
        }
    }
}

/// If the events arrive in some order and then the run is ended, by the
/// end of the events or by shutdown, exactly the spans of these events
/// are exported, one for each and in the order of arrival: none is left
/// out, none comes twice, and nothing observed later adds one. The end of
/// the events ends the run well; shutdown ends it as `Interrupted`.
pub proof fn lemma_events_become_spans_in_order(
    events: Seq<EventModel>,
    ending: PipelineEventModel,
    later: Seq<PipelineEventModel>,
)
    requires
        !(ending is Received),
    ensures
        spans_exported(received(events).push(ending) + later) == spans_of(events),
        spans_exported(received(events).push(ending) + later).len() == events.len(),
        ending is Closed ==> run_outcome(received(events).push(ending) + later) == Some(
            Ok::<(), ErrorModel>(()),
        ),
        ending is Shutdown ==> run_outcome(received(events).push(ending) + later) == Some(
            Err::<(), ErrorModel>(ErrorModel::Interrupted),
        ),
    decreases events.len(),
{
    let observed = received(events).push(ending) + later;
    if events.len() == 0 {
        assert(observed[0] == ending);
        assert(spans_of(events) =~= Seq::<SpanModel>::empty());
    } else {
        let rest = events.drop_first();
        lemma_events_become_spans_in_order(rest, ending, later);
        assert(observed[0] == PipelineEventModel::Received(events[0]));
        assert(observed.drop_first() =~= received(rest).push(ending) + later);
        assert(spans_of(events) =~= seq![span_of(events[0])] + spans_of(rest));
    }
}

impl Event {
    /// Turns the event into the span that reports it.
    pub fn into_span(self) -> (span: SpanRecord)
        ensures
            span@ == span_of(self@),
    {
        SpanRecord {
            name: self.name,
            kind: SpanKind::Server,
            start_time: self.start_time,
            end_time: self.end_time,
            attributes: self.attributes,
        }
    }
}

} // verus!
