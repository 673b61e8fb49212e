use vstd::prelude::*;
use crate::filter::{all_accept, Filter, FilterChain, MessageFilter};
use crate::messages::{
    ControllerMessage, CriticalDataPayload, Message, PluginPayload, PluginType,
    PrioritizedMessage, PLUGIN_TYPES, WindowControllerMessage, WindowPluginMessage,
};
use crate::priority::Priority;
use crate::queue::{at_rank, by_priority, lemma_at_rank_concat, lemma_lanes_are_ranks, PriorityQueue, MAX_QUEUE_CAPACITY};
use crate::registry::{first_server, handled, Plugin, PluginInfo, PluginRegistry, serves};
use crate::bus::{poll, try_deliver, Poll};
use crossbeam_channel::{Receiver, Sender};

verus! {

/// The plugin types a controller currently dispatches to.
#[derive(Debug)]
pub struct ControllerSettings {
    active_handlers: Vec<bool>,
}

impl ControllerSettings {
    pub closed spec fn view(&self) -> Set<PluginType> {
        Set::new(|t: PluginType| self.active_handlers@[t.spec_index() as int])
    }

    pub closed spec fn wf(&self) -> bool {
        self.active_handlers@.len() == PLUGIN_TYPES
    }

    /// Settings with no active plugin type.
    pub fn new() -> (r: Self)
        ensures
            r.wf(),
            r@ == Set::<PluginType>::empty(),
    {
        let mut active_handlers: Vec<bool> = Vec::new();
        let mut i: usize = 0;
        while i < PLUGIN_TYPES
            invariant
                i <= PLUGIN_TYPES,
                active_handlers@.len() == i,
                forall|k: int| 0 <= k < i ==> !active_handlers@[k],
            decreases PLUGIN_TYPES - i,
        {
            active_handlers.push(false);
            i = i + 1;
        }
        let r = ControllerSettings { active_handlers };
        proof {
            assert(r@ =~= Set::<PluginType>::empty());
        }
        r
    }

    pub fn is_active(&self, t: PluginType) -> (r: bool)
        requires
            self.wf(),
        ensures
            r == self@.contains(t),
    {
        self.active_handlers[t.index()]
    }

    pub fn activate(&mut self, t: PluginType)
        requires
            old(self).wf(),
        ensures
            final(self).wf(),
            final(self)@ == old(self)@.insert(t),
    {
        let ghost before = self@;
        self.active_handlers.set(t.index(), true);
        proof {
            assert forall|u: PluginType| self@.contains(u) == before.insert(t).contains(u) by {
                if u != t {
                    assert(u.spec_index() != t.spec_index());
                }
            }
            assert(self@ =~= before.insert(t));
        }
    }

    pub fn deactivate(&mut self, t: PluginType)
        requires
            old(self).wf(),
        ensures
            final(self).wf(),
            final(self)@ == old(self)@.remove(t),
    {
        let ghost before = self@;
        self.active_handlers.set(t.index(), false);
        proof {
            assert forall|u: PluginType| self@.contains(u) == before.remove(t).contains(u) by {
                if u != t {
                    assert(u.spec_index() != t.spec_index());
                }
            }
            assert(self@ =~= before.remove(t));
        }
    }
}

/// Where an inbound message goes, as decided from the message, the
/// controller's own id and its filter chain alone.
pub enum Route {
    /// The payload is queued for dispatch at this priority.
    Enqueue(PrioritizedMessage),
    /// A payload of a kind the host cannot recover; dropped.
    Unrecognized(Seq<char>),
    /// Rejected by the filter chain; this wrapper goes to the filtered-out sink.
    Reject(Message),
    /// Addressed to another controller; passed on unchanged.
    Forward(Message),
    /// Addressed to this controller; handled here, with this reply.
    Reply(Message),
    /// Accepted and handled here with nothing to send.
    Consume,
}

/// The reply a window controller sends for a request addressed to it: the
/// window plugin is told to close or to add a window.
pub open spec fn controller_reply(content: ControllerMessage) -> Message {
    match content {
        ControllerMessage::WindowController(WindowControllerMessage::RequestCloseWindow { window_index, priority }) => {
            Message::PluginSpecific {
                content: PluginPayload::Window(WindowPluginMessage::ConfirmedCloseWindow(window_index)),
                priority,
            }
        },
        ControllerMessage::WindowController(WindowControllerMessage::RequestAddWindow { priority }) => {
            Message::PluginSpecific { content: PluginPayload::Window(WindowPluginMessage::AddWindow), priority }
        },
    }
}

/// How a controller with id `id` and filters `filters` routes `m`. Critical
/// data bypasses the filters; every other message must pass all of them.
pub open spec fn classify(m: Message, id: Seq<char>, filters: Seq<Filter>) -> Route {
    match m {
        Message::CriticalData { payload, priority } => match payload {
            CriticalDataPayload::Plugin(p) => Route::Enqueue(PrioritizedMessage { content: p, priority }),
            CriticalDataPayload::Unrecognized { type_tag } => Route::Unrecognized(type_tag@),
        },
        _ => if !all_accept(filters, m) {
            Route::Reject(Message::FilteredOut { original_message: Box::new(m), priority: m.spec_priority() })
        } else {
            match m {
                Message::PluginSpecific { content, priority } => Route::Enqueue(
                    PrioritizedMessage { content, priority },
                ),
                Message::ControllerMessage { target_controller_id, content, .. } => if target_controller_id@
                    == id {
                    Route::Reply(controller_reply(content))
                } else {
                    Route::Forward(m)
                },
                _ => Route::Consume,
            }
        },
    }
}

/// What became of one inbound message.
#[derive(Debug)]
pub enum Intake {
    Queued,
    /// The queue was full; the payload was dropped.
    QueueFull(PrioritizedMessage),
    /// The payload's kind is unknown to the host; it was dropped.
    Unrecognized(String),
    /// Rejected by the filters; to be sent to the filtered-out sink.
    FilteredOut(Message),
    /// To be passed on to the controller it is addressed to.
    Forward(Message),
    /// The reply produced by handling a request addressed here.
    Reply(Message),
    /// Handled here, nothing to send.
    Consumed,
}

/// Whether `r` is what routing `route` gives, for routes that do not queue.
pub open spec fn intake_matches(r: Intake, route: Route) -> bool {
    match route {
        Route::Enqueue(pm) => r is Queued || r == Intake::QueueFull(pm),
        Route::Unrecognized(tag) => r matches Intake::Unrecognized(t) && t@ == tag,
        Route::Reject(w) => r == Intake::FilteredOut(w),
        Route::Forward(f) => r == Intake::Forward(f),
        Route::Reply(y) => r == Intake::Reply(y),
        Route::Consume => r is Consumed,
    }
}

/// How many of `intakes` queued their payload.
pub open spec fn queued_count(intakes: Seq<Intake>) -> nat
    decreases intakes.len(),
{
    if intakes.len() == 0 {
        0
    } else {
        queued_count(intakes.drop_last()) + if intakes.last() is Queued {
            1nat
        } else {
            0nat
        }
    }
}

/// The payloads that `intakes` queued, in order: those of the messages of
/// `msgs` routed to the queue whose intake is `Queued`.
pub open spec fn newly_queued(msgs: Seq<Message>, intakes: Seq<Intake>, id: Seq<char>, filters: Seq<Filter>) -> Seq<
    PrioritizedMessage,
>
    decreases intakes.len(),
{
    if intakes.len() == 0 || msgs.len() < intakes.len() {
        Seq::empty()
    } else {
        let rest = newly_queued(msgs, intakes.drop_last(), id, filters);
        match classify(msgs[intakes.len() - 1], id, filters) {
            Route::Enqueue(pm) => if intakes.last() is Queued {
                rest.push(pm)
            } else {
                rest
            },
            _ => rest,
        }
    }
}

/// What happened to one queued payload at dispatch time.
#[derive(Debug)]
pub enum Dispatch {
    /// Handed to the plugin at this registry position, which replied with `replies`.
    Delivered { plugin_type: PluginType, priority: Priority, index: usize, replies: Vec<Message> },
    /// No enabled plugin serves the payload's type; the payload was dropped.
    NoHandler(PrioritizedMessage),
    /// A plugin serves the type but the type is not active; the payload was dropped.
    Inactive(PrioritizedMessage),
}

impl Dispatch {
    pub open spec fn spec_priority(&self) -> Priority {
        match self {
            Dispatch::Delivered { priority, .. } => *priority,
            Dispatch::NoHandler(m) => m.priority,
            Dispatch::Inactive(m) => m.priority,
        }
    }
}

/// Whether `d` is the right outcome of dispatching `m` with plugins `infos`
/// and active types `active`.
pub open spec fn dispatch_matches(d: Dispatch, m: PrioritizedMessage, infos: Seq<PluginInfo>, active: Set<PluginType>) -> bool {
    let t = m.content.spec_plugin_type();
    if !serves(infos, t) {
        d == Dispatch::NoHandler(m)
    } else if !active.contains(t) {
        d == Dispatch::Inactive(m)
    } else {
        d matches Dispatch::Delivered { plugin_type, priority, index, .. } && plugin_type == t && priority
            == m.priority && first_server(infos, t, index as int)
    }
}

/// How dispatching `m` with outcome `d` changed the plugin instances: the
/// plugin it was delivered to handled exactly `m` and answered with the
/// replies `d` carries; no other plugin changed.
pub open spec fn dispatch_effect<P: Plugin>(before: Seq<P>, after: Seq<P>, d: Dispatch, m: PrioritizedMessage) -> bool {
    &&& after.len() == before.len()
    &&& match d {
        Dispatch::Delivered { index, replies, .. } => {
            &&& index < before.len()
            &&& handled(before[index as int], after[index as int], m, replies@)
            &&& forall|k: int| 0 <= k < before.len() && k != index ==> #[trigger] after[k] == before[k]
        },
        _ => after == before,
    }
}

/// The payloads of `ms` whose outcome in `ds` was a delivery to plugin `j`,
/// in dispatch order.
pub open spec fn delivered_to(ds: Seq<Dispatch>, ms: Seq<PrioritizedMessage>, j: int) -> Seq<PrioritizedMessage>
    decreases ds.len(),
{
    if ds.len() == 0 {
        Seq::empty()
    } else {
        let rest = delivered_to(ds.drop_last(), ms, j);
        if ds.last() matches Dispatch::Delivered { index, .. } && index == j {
            rest.push(ms[ds.len() - 1])
        } else {
            rest
        }
    }
}

/// Each plugin of `after` has handled, beyond what it had in `before`,
/// exactly the payloads of `ms` delivered to it in `ds`, and was neither
/// loaded nor unloaded meanwhile.
pub open spec fn deliveries<P: Plugin>(before: Seq<P>, after: Seq<P>, ds: Seq<Dispatch>, ms: Seq<PrioritizedMessage>) -> bool {
    &&& after.len() == before.len()
    &&& forall|j: int|
        0 <= j < before.len() ==> {
            &&& (#[trigger] after[j]).received() == before[j].received() + delivered_to(ds, ms, j)
            &&& after[j].load_count() == before[j].load_count()
            &&& after[j].unload_count() == before[j].unload_count()
        }
}

/// Whether `d` is an outcome that dispatching some payload could have had
/// with plugins `infos` and active types `active`.
pub open spec fn dispatch_sound(d: Dispatch, infos: Seq<PluginInfo>, active: Set<PluginType>) -> bool {
    match d {
        Dispatch::NoHandler(m) => !serves(infos, m.content.spec_plugin_type()),
        Dispatch::Inactive(m) => serves(infos, m.content.spec_plugin_type()) && !active.contains(
            m.content.spec_plugin_type(),
        ),
        Dispatch::Delivered { plugin_type, index, .. } => active.contains(plugin_type) && index
            < infos.len() && infos[index as int].plugin_type == plugin_type && infos[index as int].enabled,
    }
}

/// Whether the outcomes in `ds` never rise in priority.
pub open spec fn dispatch_order(ds: Seq<Dispatch>) -> bool {
    forall|i: int, j: int|
        0 <= i < j < ds.len() ==> (#[trigger] ds[i]).spec_priority().spec_rank() >= (
        #[trigger] ds[j]).spec_priority().spec_rank()
}

/// What one cycle did with each inbound message, and the dispatch outcomes.
#[derive(Debug)]
pub struct Cycle {
    pub intakes: Vec<Intake>,
    pub dispatches: Vec<Dispatch>,
}

/// A chain holding a filter that rejects everything lets no message other
/// than critical data through: each is routed, wrapped as filtered out, to
/// the filtered-out sink, and none is queued.
pub proof fn lemma_reject_all_filters_out(m: Message, id: Seq<char>, filters: Seq<Filter>, i: int)
    requires
        0 <= i < filters.len(),
        filters[i] is RejectAll,
        !(m is CriticalData),
    ensures
        classify(m, id, filters) == Route::Reject(
            Message::FilteredOut { original_message: Box::new(m), priority: m.spec_priority() },
        ),
        !(classify(m, id, filters) is Enqueue),
{
    assert(!filters[i].accepts(m));
}

/// The rejected messages among `intakes`, wrapped, in order.
pub open spec fn sink_part(intakes: Seq<Intake>) -> Seq<Message>
    decreases intakes.len(),
{
    if intakes.len() == 0 {
        Seq::empty()
    } else {
        let rest = sink_part(intakes.drop_last());
        match intakes.last() {
            Intake::FilteredOut(w) => rest.push(w),
            _ => rest,
        }
    }
}

/// The forwards and replies among `intakes`, in order.
pub open spec fn outbox_part(intakes: Seq<Intake>) -> Seq<Message>
    decreases intakes.len(),
{
    if intakes.len() == 0 {
        Seq::empty()
    } else {
        let rest = outbox_part(intakes.drop_last());
        match intakes.last() {
            Intake::Forward(m) => rest.push(m),
            Intake::Reply(m) => rest.push(m),
            _ => rest,
        }
    }
}

/// How many of `intakes` dropped their payload.
pub open spec fn dropped_count(intakes: Seq<Intake>) -> nat
    decreases intakes.len(),
{
    if intakes.len() == 0 {
        0
    } else {
        dropped_count(intakes.drop_last()) + match intakes.last() {
            Intake::QueueFull(_) => 1nat,
            Intake::Unrecognized(_) => 1nat,
            _ => 0nat,
        }
    }
}

/// What a cycle's intakes leave to send: wrapped rejections for the
/// filtered-out sink, forwards and replies for the outbox, and how many
/// payloads were dropped.
pub struct Outputs {
    pub to_sink: Vec<Message>,
    pub to_outbox: Vec<Message>,
    pub dropped: usize,
}

/// Sorts what `intakes` leave to send by where it goes.
pub fn sort_outputs(intakes: Vec<Intake>) -> (r: Outputs)
    ensures
        r.to_sink@ == sink_part(intakes@),
        r.to_outbox@ == outbox_part(intakes@),
        r.dropped == dropped_count(intakes@),
{
    let ghost all = intakes@;
    let n = intakes.len();
    let mut intakes = intakes;
    let mut to_sink: Vec<Message> = Vec::new();
    let mut to_outbox: Vec<Message> = Vec::new();
    let mut dropped: usize = 0;
    let mut i: usize = 0;
    while i < n
        invariant
            n == all.len(),
            i <= n,
            intakes@ == all.subrange(i as int, n as int),
            to_sink@ == sink_part(all.take(i as int)),
            to_outbox@ == outbox_part(all.take(i as int)),
            dropped == dropped_count(all.take(i as int)),
            dropped <= i,
        decreases n - i,
    {
        let intake = intakes.remove(0);
        proof {
            assert(intake == all[i as int]);
            assert(intakes@ =~= all.subrange(i as int + 1, n as int));
            assert(all.take(i as int + 1).drop_last() =~= all.take(i as int));
            assert(all.take(i as int + 1).last() == all[i as int]);
        }
        match intake {
            Intake::FilteredOut(w) => to_sink.push(w),
            Intake::Forward(m) => to_outbox.push(m),
            Intake::Reply(m) => to_outbox.push(m),
            Intake::QueueFull(_) => dropped = dropped + 1,
            Intake::Unrecognized(_) => dropped = dropped + 1,
            Intake::Queued => {},
            Intake::Consumed => {},
        }
        i = i + 1;
    }
    proof {
        assert(all.take(n as int) =~= all);
    }
    Outputs { to_sink, to_outbox, dropped }
}

/// Hands each of `ms` to `target` in order; returns those it refused.
fn send_all(target: &Sender<Message>, ms: Vec<Message>) -> (r: Vec<Message>)
    ensures
        r@.len() <= ms@.len(),
        forall|k: int| 0 <= k < r@.len() ==> ms@.contains(#[trigger] r@[k]),
{
    let ghost all = ms@;
    let n = ms.len();
    let mut ms = ms;
    let mut refused: Vec<Message> = Vec::new();
    let mut i: usize = 0;
    while i < n
        invariant
            n == all.len(),
            i <= n,
            ms@ == all.subrange(i as int, n as int),
            refused@.len() <= i,
            forall|k: int| 0 <= k < refused@.len() ==> all.contains(#[trigger] refused@[k]),
        decreases n - i,
    {
        let m = ms.remove(0);
        proof {
            assert(m == all[i as int]);
            assert(ms@ =~= all.subrange(i as int + 1, n as int));
        }
        match try_deliver(target, m) {
            Ok(()) => {},
            Err(back) => refused.push(back),
        }
        i = i + 1;
    }
    refused
}

/// What one cycle against live channels did.
pub struct CycleReport {
    /// Messages taken from the inbox.
    pub received: usize,
    /// Whether the inbox turned out closed for good.
    pub inbox_closed: bool,
    /// Rejected messages sent to the filtered-out sink.
    pub filtered_out: usize,
    /// Forwards and replies sent to the outbox.
    pub sent_on: usize,
    /// Payloads dropped: queue full or of an unknown kind.
    pub dropped: usize,
    /// Messages that could not be sent, with the channel closed or full.
    pub undelivered: Vec<Message>,
    /// Dispatch outcomes, highest priority first.
    pub dispatches: Vec<Dispatch>,
    /// The messages taken from the inbox, in order.
    pub inbound: Ghost<Seq<Message>>,
    /// What became of each of them.
    pub intakes: Ghost<Seq<Intake>>,
}

/// A controller: filters what it receives, queues payloads by priority and
/// dispatches them to the plugins that serve their types.
pub struct WindowControllerPlugin {
    controller_id: String,
    filters: FilterChain,
    settings: ControllerSettings,
    queue: PriorityQueue,
}

impl WindowControllerPlugin {
    pub closed spec fn spec_id(&self) -> Seq<char> {
        self.controller_id@
    }

    pub closed spec fn spec_filters(&self) -> Seq<Filter> {
        self.filters@
    }

    pub closed spec fn spec_active(&self) -> Set<PluginType> {
        self.settings@
    }

    pub closed spec fn spec_queue(&self) -> PriorityQueue {
        self.queue
    }

    pub closed spec fn wf(&self) -> bool {
        self.queue.wf() && self.settings.wf()
    }

    /// A controller with id `controller_id`, no filters, no active plugin
    /// type and an empty queue of the given capacity.
    pub fn new(controller_id: String, capacity: usize) -> (r: Self)
        requires
            0 < capacity <= MAX_QUEUE_CAPACITY,
        ensures
            r.wf(),
            r.spec_id() == controller_id@,
            r.spec_filters() == Seq::<Filter>::empty(),
            r.spec_active() == Set::<PluginType>::empty(),
            r.spec_queue().items() == Seq::<PrioritizedMessage>::empty(),
            r.spec_queue().spec_capacity() == capacity,
    {
        WindowControllerPlugin {
            controller_id,
            filters: FilterChain::new(),
            settings: ControllerSettings::new(),
            queue: PriorityQueue::new(capacity),
        }
    }

    pub fn controller_id(&self) -> (r: &str)
        ensures
            r@ == self.spec_id(),
    {
        self.controller_id.as_str()
    }

    /// Installs `f` at the end of the filter chain.
    pub fn add_filter(&mut self, f: Filter)
        requires
            old(self).wf(),
        ensures
            final(self).wf(),
            final(self).spec_filters() == old(self).spec_filters().push(f),
            final(self).spec_id() == old(self).spec_id(),
            final(self).spec_active() == old(self).spec_active(),
            final(self).spec_queue() == old(self).spec_queue(),
    {
        self.filters.add(f);
    }

    pub fn activate_handler(&mut self, t: PluginType)
        requires
            old(self).wf(),
        ensures
            final(self).wf(),
            final(self).spec_active() == old(self).spec_active().insert(t),
            final(self).spec_filters() == old(self).spec_filters(),
            final(self).spec_id() == old(self).spec_id(),
            final(self).spec_queue() == old(self).spec_queue(),
    {
        self.settings.activate(t);
    }

    pub fn deactivate_handler(&mut self, t: PluginType)
        requires
            old(self).wf(),
        ensures
            final(self).wf(),
            final(self).spec_active() == old(self).spec_active().remove(t),
            final(self).spec_filters() == old(self).spec_filters(),
            final(self).spec_id() == old(self).spec_id(),
            final(self).spec_queue() == old(self).spec_queue(),
    {
        self.settings.deactivate(t);
    }

    pub fn queued(&self) -> (r: usize)
        requires
            self.wf(),
        ensures
            r == self.spec_queue().spec_len(),
    {
        self.queue.len()
    }

    /// Handles a request addressed to this controller and returns the reply.
    pub fn process_controller_message(&self, content: &ControllerMessage) -> (r: Message)
        ensures
            r == controller_reply(*content),
    {
        match content {
            ControllerMessage::WindowController(w) => match w {
                WindowControllerMessage::RequestCloseWindow { window_index, priority } => {
                    Message::PluginSpecific {
                        content: PluginPayload::Window(WindowPluginMessage::ConfirmedCloseWindow(*window_index)),
                        priority: *priority,
                    }
                },
                WindowControllerMessage::RequestAddWindow { priority } => {
                    Message::PluginSpecific {
                        content: PluginPayload::Window(WindowPluginMessage::AddWindow),
                        priority: *priority,
                    }
                },
            },
        }
    }

    /// Takes one inbound message: critical data goes straight to the queue;
    /// any other message is run through the filter chain, and if accepted is
    /// queued, answered, passed on or consumed according to its kind.
    pub fn handle_message(&mut self, m: Message) -> (r: Intake)
        requires
            old(self).wf(),
        ensures
            final(self).wf(),
            final(self).spec_id() == old(self).spec_id(),
            final(self).spec_filters() == old(self).spec_filters(),
            final(self).spec_active() == old(self).spec_active(),
            final(self).spec_queue().spec_capacity() == old(self).spec_queue().spec_capacity(),
            intake_matches(r, classify(m, old(self).spec_id(), old(self).spec_filters())),
            match classify(m, old(self).spec_id(), old(self).spec_filters()) {
                Route::Enqueue(pm) => {
                    let q0 = old(self).spec_queue();
                    let q1 = final(self).spec_queue();
                    let k = pm.priority.spec_rank() as int;
                    &&& q0.spec_len() < q0.spec_capacity() ==> {
                        &&& r is Queued
                        &&& q1.lane(k) == q0.lane(k).push(pm)
                        &&& forall|j: int| 0 <= j < 5 && j != k ==> #[trigger] q1.lane(j) == q0.lane(j)
                        &&& q1.spec_len() == q0.spec_len() + 1
                    }
                    &&& q0.spec_len() >= q0.spec_capacity() ==> r == Intake::QueueFull(pm) && q1 == q0
                },
                _ => final(self).spec_queue() == old(self).spec_queue(),
            },
    {
        match m {
            Message::CriticalData { payload, priority } => {
                return match payload {
                    CriticalDataPayload::Plugin(p) => {
                        let pm = PrioritizedMessage { content: p, priority };
                        match self.queue.push(pm) {
                            Ok(()) => Intake::Queued,
                            Err(back) => Intake::QueueFull(back),
                        }
                    },
                    CriticalDataPayload::Unrecognized { type_tag } => Intake::Unrecognized(type_tag),
                };
            },
            _ => {},
        }
        if !self.filters.accepts(&m) {
            return Intake::FilteredOut(m.into_filtered_out());
        }
        match m {
            Message::PluginSpecific { content, priority } => {
                let pm = PrioritizedMessage { content, priority };
                match self.queue.push(pm) {
                    Ok(()) => Intake::Queued,
                    Err(back) => Intake::QueueFull(back),
                }
            },
            Message::ControllerMessage { target_controller_id, content, priority } => {
                if target_controller_id == self.controller_id {
                    Intake::Reply(self.process_controller_message(&content))
                } else {
                    Intake::Forward(Message::ControllerMessage { target_controller_id, content, priority })
                }
            },
            _ => Intake::Consumed,
        }
    }

    /// Takes the next payload off the queue and dispatches it: to the first
    /// enabled plugin of its type when that type is active; otherwise it is
    /// dropped, with the reason. `None` when the queue is empty.
    pub fn dispatch_next<P: Plugin, L>(&mut self, registry: &mut PluginRegistry<P, L>) -> (r: Option<Dispatch>)
        requires
            old(self).wf(),
            old(registry).wf(),
        ensures
            final(self).wf(),
            final(registry).wf(),
            old(self).spec_queue().spec_len() == 0 ==> final(registry).instances() == old(registry).instances(),
            old(self).spec_queue().spec_len() > 0 ==> (r matches Some(d) && dispatch_effect(
                old(registry).instances(),
                final(registry).instances(),
                d,
                old(self).spec_queue().items()[0],
            )),
            final(self).spec_id() == old(self).spec_id(),
            final(self).spec_filters() == old(self).spec_filters(),
            final(self).spec_active() == old(self).spec_active(),
            final(self).spec_queue().spec_capacity() == old(self).spec_queue().spec_capacity(),
            final(registry)@ == old(registry)@,
            final(registry).history() == old(registry).history(),
            old(self).spec_queue().spec_len() == 0 ==> r is None && final(self).spec_queue().items()
                == old(self).spec_queue().items(),
            old(self).spec_queue().spec_len() > 0 ==> {
                &&& final(self).spec_queue().items() == old(self).spec_queue().items().drop_first()
                &&& r matches Some(d) && dispatch_matches(
                    d,
                    old(self).spec_queue().items()[0],
                    old(registry)@,
                    old(self).spec_active(),
                )
            },
    {
        let popped = self.queue.pop();
        match popped {
            None => None,
            Some(pm) => {
                let t = pm.content.plugin_type();
                match registry.handler_for(t) {
                    None => Some(Dispatch::NoHandler(pm)),
                    Some(index) => {
                        if self.settings.is_active(t) {
                            let priority = pm.priority;
                            let ghost before = registry.instances();
                            let replies = registry.deliver(index, pm);
                            proof {
                                assert(registry.instances().len() == before.len());
                            }
                            Some(Dispatch::Delivered { plugin_type: t, priority, index, replies })
                        } else {
                            Some(Dispatch::Inactive(pm))
                        }
                    },
                }
            },
        }
    }

    /// Dispatches every queued payload, highest priority first, and returns
    /// the outcomes in dispatch order. The queue is empty afterwards.
    pub fn process_messages<P: Plugin, L>(&mut self, registry: &mut PluginRegistry<P, L>) -> (r: Vec<Dispatch>)
        requires
            old(self).wf(),
            old(registry).wf(),
        ensures
            final(self).wf(),
            final(registry).wf(),
            deliveries(old(registry).instances(), final(registry).instances(), r@, old(self).spec_queue().items()),
            final(self).spec_id() == old(self).spec_id(),
            final(self).spec_filters() == old(self).spec_filters(),
            final(self).spec_active() == old(self).spec_active(),
            final(self).spec_queue().spec_capacity() == old(self).spec_queue().spec_capacity(),
            final(self).spec_queue().spec_len() == 0,
            final(registry)@ == old(registry)@,
            final(registry).history() == old(registry).history(),
            r@.len() == old(self).spec_queue().spec_len(),
            dispatch_order(r@),
            forall|i: int|
                0 <= i < r@.len() ==> dispatch_sound(#[trigger] r@[i], old(registry)@, old(self).spec_active()),
            forall|i: int|
                0 <= i < r@.len() ==> dispatch_matches(
                    #[trigger] r@[i],
                    old(self).spec_queue().items()[i],
                    old(registry)@,
                    old(self).spec_active(),
                ),
    {
        let ghost start = self.queue.items();
        let mut out: Vec<Dispatch> = Vec::new();
        while self.queue.len() > 0
            invariant
                self.wf(),
                self.spec_id() == old(self).spec_id(),
                self.spec_filters() == old(self).spec_filters(),
                self.spec_active() == old(self).spec_active(),
                self.spec_queue().spec_capacity() == old(self).spec_queue().spec_capacity(),
                registry.wf(),
                registry@ == old(registry)@,
                registry.history() == old(registry).history(),
                start == old(self).spec_queue().items(),
                deliveries(old(registry).instances(), registry.instances(), out@, start),
                out@.len() + self.queue.items().len() == start.len(),
                self.queue.items() == start.subrange(out@.len() as int, start.len() as int),
                forall|i: int|
                    0 <= i < out@.len() ==> dispatch_matches(
                        #[trigger] out@[i],
                        start[i],
                        old(registry)@,
                        old(self).spec_active(),
                    ),
            decreases self.queue.items().len(),
        {
            let ghost before = self.queue.items();
            let ghost insts = registry.instances();
            let ghost prev = out@;
            match self.dispatch_next(registry) {
                Some(d) => {
                    out.push(d);
                    proof {
                        assert(before[0] == start[out@.len() - 1]);
                        assert(out@.drop_last() =~= prev);
                        let base = old(registry).instances();
                        let now = registry.instances();
                        assert forall|j: int| 0 <= j < base.len() implies {
                            &&& (#[trigger] now[j]).received() == base[j].received() + delivered_to(out@, start, j)
                            &&& now[j].load_count() == base[j].load_count()
                            &&& now[j].unload_count() == base[j].unload_count()
                        } by {
                            assert(insts[j].received() == base[j].received() + delivered_to(prev, start, j));
                            match d {
                                Dispatch::Delivered { index, .. } => {
                                    if j == index {
                                        assert(now[j].received() == insts[j].received().push(start[prev.len() as int]));
                                        assert(delivered_to(out@, start, j) == delivered_to(prev, start, j).push(start[prev.len() as int]));
                                        assert(now[j].received() =~= base[j].received() + delivered_to(out@, start, j));
                                    } else {
                                        assert(now[j] == insts[j]);
                                        assert(delivered_to(out@, start, j) == delivered_to(prev, start, j));
                                    }
                                },
                                _ => {
                                    assert(delivered_to(out@, start, j) == delivered_to(prev, start, j));
                                },
                            }
                        }
                        assert(self.queue.items() =~= start.subrange(out@.len() as int, start.len() as int));
                    }
                },
                None => {},
            }
        }
        proof {
            assert(start.subrange(out@.len() as int, start.len() as int).len() == 0);
            crate::queue::lemma_dispatch_order(&old(self).queue);
            assert forall|i: int| 0 <= i < out@.len() implies dispatch_sound(#[trigger] out@[i], old(registry)@, old(self).spec_active()) by {
                assert(dispatch_matches(out@[i], start[i], old(registry)@, old(self).spec_active()));
            }
            assert forall|i: int, j: int| 0 <= i < j < out@.len() implies (#[trigger] out@[i]).spec_priority().spec_rank()
                >= (#[trigger] out@[j]).spec_priority().spec_rank() by {
                assert(dispatch_matches(out@[i], start[i], old(registry)@, old(self).spec_active()));
                assert(dispatch_matches(out@[j], start[j], old(registry)@, old(self).spec_active()));
            }
        }
        out
    }

    /// One cycle over messages already taken from the inbox: each is handled
    /// in turn as `handle_message` does, then every queued payload is
    /// dispatched, highest priority first.
    pub fn run_cycle<P: Plugin, L>(&mut self, registry: &mut PluginRegistry<P, L>, inbound: Vec<Message>) -> (r: Cycle)
        requires
            old(self).wf(),
            old(registry).wf(),
        ensures
            final(self).wf(),
            final(registry).wf(),
            ({
                let order = by_priority(
                    old(self).spec_queue().items() + newly_queued(
                        inbound@,
                        r.intakes@,
                        old(self).spec_id(),
                        old(self).spec_filters(),
                    ),
                );
                &&& r.dispatches@.len() == order.len()
                &&& forall|i: int|
                    0 <= i < order.len() ==> dispatch_matches(
                        #[trigger] r.dispatches@[i],
                        order[i],
                        old(registry)@,
                        old(self).spec_active(),
                    )
                &&& deliveries(old(registry).instances(), final(registry).instances(), r.dispatches@, order)
            }),
            final(self).spec_id() == old(self).spec_id(),
            final(self).spec_filters() == old(self).spec_filters(),
            final(self).spec_active() == old(self).spec_active(),
            final(self).spec_queue().spec_capacity() == old(self).spec_queue().spec_capacity(),
            final(self).spec_queue().spec_len() == 0,
            final(registry)@ == old(registry)@,
            final(registry).history() == old(registry).history(),
            r.intakes@.len() == inbound@.len(),
            forall|i: int|
                0 <= i < inbound@.len() ==> intake_matches(
                    #[trigger] r.intakes@[i],
                    classify(inbound@[i], old(self).spec_id(), old(self).spec_filters()),
                ),
            forall|i: int|
                0 <= i < inbound@.len() && (classify(
                    inbound@[i],
                    old(self).spec_id(),
                    old(self).spec_filters(),
                ) is Enqueue) ==> ((#[trigger] r.intakes@[i] is Queued) <==> old(self).spec_queue().spec_len()
                    + queued_count(r.intakes@.take(i)) < old(self).spec_queue().spec_capacity()),
            r.dispatches@.len() == old(self).spec_queue().spec_len() + queued_count(r.intakes@),
            dispatch_order(r.dispatches@),
            forall|i: int|
                0 <= i < r.dispatches@.len() ==> dispatch_sound(
                    #[trigger] r.dispatches@[i],
                    old(registry)@,
                    old(self).spec_active(),
                ),
    {
        let mut intakes: Vec<Intake> = Vec::new();
        let mut inbound = inbound;
        let ghost all = inbound@;
        let n = inbound.len();
        let mut i: usize = 0;
        proof {
            lemma_lanes_are_ranks(&self.queue);
            assert forall|k: int| 0 <= k < 5 implies #[trigger] self.queue.lane(k) == at_rank(old(self).queue.items(), k as nat)
                + at_rank(newly_queued(all, intakes@, old(self).spec_id(), old(self).spec_filters()), k as nat) by {
                assert(newly_queued(all, intakes@, old(self).spec_id(), old(self).spec_filters()) == Seq::<PrioritizedMessage>::empty());
                assert(at_rank(Seq::<PrioritizedMessage>::empty(), k as nat) == Seq::<PrioritizedMessage>::empty());
                assert(self.queue.lane(k) + Seq::<PrioritizedMessage>::empty() =~= self.queue.lane(k));
            }
        }
        while i < n
            invariant
                self.wf(),
                self.spec_id() == old(self).spec_id(),
                self.spec_filters() == old(self).spec_filters(),
                self.spec_active() == old(self).spec_active(),
                self.spec_queue().spec_capacity() == old(self).spec_queue().spec_capacity(),
                n == all.len(),
                i <= n,
                intakes@.len() == i,
                inbound@.len() == n - i,
                inbound@ == all.subrange(i as int, n as int),
                self.spec_queue().spec_len() == old(self).spec_queue().spec_len() + queued_count(intakes@),
                forall|k: int|
                    0 <= k < i && (classify(all[k], old(self).spec_id(), old(self).spec_filters()) is Enqueue)
                        ==> ((#[trigger] intakes@[k] is Queued) <==> old(self).spec_queue().spec_len()
                        + queued_count(intakes@.take(k)) < old(self).spec_queue().spec_capacity()),
                forall|k: int|
                    0 <= k < i ==> intake_matches(
                        #[trigger] intakes@[k],
                        classify(all[k], old(self).spec_id(), old(self).spec_filters()),
                    ),
                forall|k: int|
                    0 <= k < 5 ==> #[trigger] self.queue.lane(k) == at_rank(old(self).queue.items(), k as nat)
                        + at_rank(newly_queued(all, intakes@, old(self).spec_id(), old(self).spec_filters()), k as nat),
            decreases n - i,
        {
            let m = inbound.remove(0);
            proof {
                assert(m == all[i as int]);
                assert(inbound@ =~= all.subrange(i as int + 1, n as int));
            }
            let ghost prev = intakes@;
            let ghost q0 = self.queue;
            let intake = self.handle_message(m);
            intakes.push(intake);
            proof {
                assert(intakes@.drop_last() =~= prev);
                let id = old(self).spec_id();
                let fs = old(self).spec_filters();
                let nq0 = newly_queued(all, prev, id, fs);
                let nq1 = newly_queued(all, intakes@, id, fs);
                let oi = old(self).queue.items();
                assert(all[intakes@.len() - 1] == m);
                match classify(m, id, fs) {
                    Route::Enqueue(pm) => {
                        if intakes@.last() is Queued {
                            assert(nq1 == nq0.push(pm));
                            let rk = pm.priority.spec_rank();
                            assert forall|k: int| 0 <= k < 5 implies #[trigger] self.queue.lane(k) == at_rank(oi, k as nat) + at_rank(nq1, k as nat) by {
                                assert(nq1.drop_last() =~= nq0);
                                assert(nq1.last() == pm);
                                if k == rk {
                                    assert(at_rank(nq1, k as nat) == at_rank(nq0, k as nat).push(pm));
                                    assert(self.queue.lane(k) == q0.lane(k).push(pm));
                                    assert(self.queue.lane(k) =~= at_rank(oi, k as nat) + at_rank(nq1, k as nat));
                                } else {
                                    assert(at_rank(nq1, k as nat) == at_rank(nq0, k as nat));
                                    assert(self.queue.lane(k) == q0.lane(k));
                                }
                            }
                        } else {
                            assert(nq1 == nq0);
                            assert(self.queue == q0);
                        }
                    },
                    _ => {
                        assert(nq1 == nq0);
                        assert(self.queue == q0);
                    },
                }
                assert(intakes@.take(i as int) =~= prev);
                assert forall|k: int| 0 <= k < i implies #[trigger] intakes@.take(k) == prev.take(k) by {
                    assert(intakes@.take(k) =~= prev.take(k));
                }
                assert forall|k: int| 0 <= k < i implies #[trigger] intakes@[k] == prev[k] by {}
            }
            i = i + 1;
        }
        proof {
            let nq = newly_queued(all, intakes@, old(self).spec_id(), old(self).spec_filters());
            let oi = old(self).queue.items();
            lemma_at_rank_concat(oi, nq, 0);
            lemma_at_rank_concat(oi, nq, 1);
            lemma_at_rank_concat(oi, nq, 2);
            lemma_at_rank_concat(oi, nq, 3);
            lemma_at_rank_concat(oi, nq, 4);
            assert(self.queue.lane(0) == at_rank(oi, 0) + at_rank(nq, 0));
            assert(self.queue.lane(1) == at_rank(oi, 1) + at_rank(nq, 1));
            assert(self.queue.lane(2) == at_rank(oi, 2) + at_rank(nq, 2));
            assert(self.queue.lane(3) == at_rank(oi, 3) + at_rank(nq, 3));
            assert(self.queue.lane(4) == at_rank(oi, 4) + at_rank(nq, 4));
            assert(self.queue.items() == by_priority(oi + nq));
        }
        let dispatches = self.process_messages(registry);
        Cycle { intakes, dispatches }
    }

    /// One cycle against live channels: takes what is waiting in `inbox`
    /// without blocking, at most as many messages as the queue holds; runs
    /// them through `run_cycle`; sends rejected messages, wrapped, to `sink`
    /// and forwards and replies to `outbox`. A closed channel is reported,
    /// never fatal.
    pub fn update<P: Plugin, L>(
        &mut self,
        registry: &mut PluginRegistry<P, L>,
        inbox: &Receiver<Message>,
        sink: &Sender<Message>,
        outbox: &Sender<Message>,
    ) -> (r: CycleReport)
        requires
            old(self).wf(),
            old(registry).wf(),
        ensures
            final(self).wf(),
            final(registry).wf(),
            final(self).spec_id() == old(self).spec_id(),
            final(self).spec_filters() == old(self).spec_filters(),
            final(self).spec_active() == old(self).spec_active(),
            final(self).spec_queue().spec_capacity() == old(self).spec_queue().spec_capacity(),
            final(self).spec_queue().spec_len() == 0,
            final(registry)@ == old(registry)@,
            final(registry).history() == old(registry).history(),
            r.received == r.inbound@.len(),
            r.received <= old(self).spec_queue().spec_capacity(),
            r.intakes@.len() == r.received,
            forall|i: int|
                0 <= i < r.received ==> intake_matches(
                    #[trigger] r.intakes@[i],
                    classify(r.inbound@[i], old(self).spec_id(), old(self).spec_filters()),
                ),
            r.filtered_out == sink_part(r.intakes@).len(),
            r.sent_on == outbox_part(r.intakes@).len(),
            r.dropped == dropped_count(r.intakes@),
            forall|k: int|
                0 <= k < r.undelivered@.len() ==> sink_part(r.intakes@).contains(#[trigger] r.undelivered@[k])
                    || outbox_part(r.intakes@).contains(r.undelivered@[k]),
            ({
                let order = by_priority(
                    old(self).spec_queue().items() + newly_queued(
                        r.inbound@,
                        r.intakes@,
                        old(self).spec_id(),
                        old(self).spec_filters(),
                    ),
                );
                &&& r.dispatches@.len() == order.len()
                &&& forall|i: int|
                    0 <= i < order.len() ==> dispatch_matches(
                        #[trigger] r.dispatches@[i],
                        order[i],
                        old(registry)@,
                        old(self).spec_active(),
                    )
                &&& deliveries(old(registry).instances(), final(registry).instances(), r.dispatches@, order)
            }),
    {
        let limit = self.queue.capacity();
        let mut batch: Vec<Message> = Vec::new();
        let mut inbox_closed = false;
        while batch.len() < limit
            invariant
                batch@.len() <= limit,
            decreases limit - batch@.len(),
        {
            match poll(inbox) {
                Poll::Ready(m) => batch.push(m),
                Poll::Empty => break,
                Poll::Closed => {
                    inbox_closed = true;
                    break;
                },
            }
        }
        let received = batch.len();
        let ghost inbound = batch@;
        let cycle = self.run_cycle(registry, batch);
        let Cycle { intakes, dispatches } = cycle;
        let ghost ints = intakes@;
        let outs = sort_outputs(intakes);
        let Outputs { to_sink, to_outbox, dropped } = outs;
        let filtered_out = to_sink.len();
        let sent_on = to_outbox.len();
        let refused_sink = send_all(sink, to_sink);
        let refused_out = send_all(outbox, to_outbox);
        let mut undelivered = refused_sink;
        let ghost first = undelivered@;
        let mut rest = refused_out;
        undelivered.append(&mut rest);
        proof {
            assert forall|k: int| 0 <= k < undelivered@.len() implies sink_part(ints).contains(#[trigger] undelivered@[k])
                || outbox_part(ints).contains(undelivered@[k]) by {
                if k < first.len() {
                    assert(undelivered@[k] == first[k]);
                }
            }
        }
        CycleReport {
            received,
            inbox_closed,
            filtered_out,
            sent_on,
            dropped,
            undelivered,
            dispatches,
            inbound: Ghost(inbound),
            intakes: Ghost(ints),
        }
    }
}

} // verus!
