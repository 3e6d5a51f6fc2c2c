//! The state of the main process, and how orders are sent to workers.
use vstd::prelude::*;
use vstd::string::*;

use crate::collections::TextMap;
use crate::proxy::{ProxyRequestOrder, ProxyRequestOrderModel};
use crate::text::decimal_text;

use super::types::{RunState, WorkerInfo, WorkerInfoModel, WorkerRequest, WorkerRequestModel};

verus! {

/// Who waits for the answer to a request, and for how many answers.
#[derive(Debug, Clone, Copy, PartialEq, Eq, Structural)]
pub struct InFlight {
    /// the number of the task that collects the answers
    pub task: u64,
    pub expected: usize,
}

impl DeepView for InFlight {
    type V = InFlight;

    open spec fn deep_view(&self) -> InFlight {
        *self
    }
}

/// What the main process knows of its workers and of the requests that are not answered yet.
#[derive(Debug, PartialEq, Eq)]
pub struct CommandServer {
    pub workers: Vec<WorkerInfo>,
    /// the identifier of the next worker that is launched
    pub next_worker_id: u32,
    /// who waits for the answer of a worker, by the identifier of the request
    pub in_flight: TextMap<InFlight>,
    /// the clients that want to hear of events, each of them once
    pub event_subscribers: Vec<String>,
    pub automatic_state_save: bool,
    /// where the state is saved
    pub saved_state: Option<String>,
    pub config_path: String,
}

/// What a [`CommandServer`] holds, as mathematical values.
#[verifier::ext_equal]
pub struct CommandServerModel {
    pub workers: Seq<WorkerInfoModel>,
    pub next_worker_id: u32,
    pub in_flight: Seq<(Seq<char>, InFlight)>,
    pub event_subscribers: Seq<Seq<char>>,
    pub automatic_state_save: bool,
    pub saved_state: Option<Seq<char>>,
    pub config_path: Seq<char>,
}

impl DeepView for CommandServer {
    type V = CommandServerModel;

    open spec fn deep_view(&self) -> CommandServerModel {
        CommandServerModel {
            workers: self.workers.deep_view(),
            next_worker_id: self.next_worker_id,
            in_flight: self.in_flight.deep_view(),
            event_subscribers: self.event_subscribers.deep_view(),
            automatic_state_save: self.automatic_state_save,
            saved_state: self.saved_state.deep_view(),
            config_path: self.config_path@,
        }
    }
}

/// The workers that an order is for.
#[derive(Debug, Clone, Copy, PartialEq, Eq, Structural)]
pub enum Audience {
    /// those that are neither stopped nor stopping
    Active,
    /// those that are not stopped
    NotStopped,
    /// those that are running
    Running,
}

impl Audience {
    /// Whether a worker in this state belongs to the audience.
    pub open spec fn includes(self, state: RunState) -> bool {
        match self {
            Audience::Active => state != RunState::Stopping && state != RunState::Stopped,
            Audience::NotStopped => state != RunState::Stopped,
            Audience::Running => state == RunState::Running,
        }
    }

    pub fn has(&self, state: RunState) -> (r: bool)
        ensures
            r == self.includes(state),
    {
        match self {
            Audience::Active => state != RunState::Stopping && state != RunState::Stopped,
            Audience::NotStopped => state != RunState::Stopped,
            Audience::Running => state == RunState::Running,
        }
    }
}

/// The worker belongs to the audience and, where one worker is named, is that one.
pub open spec fn hears(audience: Audience, only: Option<u32>, worker: WorkerInfoModel) -> bool {
    audience.includes(worker.run_state) && (only is Some ==> only == Some(worker.id))
}

/// The request for a worker: the order under an identifier that ends in that of the worker.
pub open spec fn request_for(
    worker: WorkerInfoModel,
    prefix: Seq<char>,
    order: ProxyRequestOrderModel,
) -> (u32, WorkerRequestModel) {
    (
        worker.id,
        WorkerRequestModel { id: prefix + crate::text::decimal(worker.id as nat), order },
    )
}

/// The requests for all workers that hear the order, in the order of the workers.
pub open spec fn requests(
    workers: Seq<WorkerInfoModel>,
    audience: Audience,
    only: Option<u32>,
    prefix: Seq<char>,
    order: ProxyRequestOrderModel,
) -> Seq<(u32, WorkerRequestModel)>
    decreases workers.len(),
{
    if workers.len() == 0 {
        Seq::empty()
    } else {
        let before = requests(workers.drop_last(), audience, only, prefix, order);
        if hears(audience, only, workers.last()) {
            before.push(request_for(workers.last(), prefix, order))
        } else {
            before
        }
    }
}

/// What is waited for once the requests are sent: one answer to each of them.
pub open spec fn noted(
    in_flight: Seq<(Seq<char>, InFlight)>,
    sent: Seq<(u32, WorkerRequestModel)>,
    task: u64,
) -> Seq<(Seq<char>, InFlight)>
    decreases sent.len(),
{
    if sent.len() == 0 {
        in_flight
    } else {
        crate::collections::inserted(
            noted(in_flight, sent.drop_last(), task),
            sent.last().1.id,
            InFlight { task, expected: 1 },
        )
    }
}

/// The request is for one of the workers that hear the order.
pub open spec fn is_for_hearer(
    workers: Seq<WorkerInfoModel>,
    audience: Audience,
    only: Option<u32>,
    prefix: Seq<char>,
    order: ProxyRequestOrderModel,
    request: (u32, WorkerRequestModel),
) -> bool {
    exists|k: int|
        0 <= k < workers.len() && hears(audience, only, #[trigger] workers[k]) && request
            == request_for(workers[k], prefix, order)
}

/// Every worker that hears an order gets it, and no other worker does.
pub proof fn law_requests_go_to_the_audience(
    workers: Seq<WorkerInfoModel>,
    audience: Audience,
    only: Option<u32>,
    prefix: Seq<char>,
    order: ProxyRequestOrderModel,
)
    ensures
        forall|k: int|
            0 <= k < workers.len() && hears(audience, only, #[trigger] workers[k]) ==> requests(
                workers,
                audience,
                only,
                prefix,
                order,
            ).contains(request_for(workers[k], prefix, order)),
        forall|i: int|
            0 <= i < requests(workers, audience, only, prefix, order).len() ==> is_for_hearer(
                workers,
                audience,
                only,
                prefix,
                order,
                #[trigger] requests(workers, audience, only, prefix, order)[i],
            ),
    decreases workers.len(),
{
    let all = requests(workers, audience, only, prefix, order);
    if workers.len() > 0 {
        let first = workers.drop_last();
        let before = requests(first, audience, only, prefix, order);
        law_requests_go_to_the_audience(first, audience, only, prefix, order);
        assert forall|i: int| 0 <= i < all.len() implies is_for_hearer(
            workers,
            audience,
            only,
            prefix,
            order,
            #[trigger] all[i],
        ) by {
            if i < before.len() {
                assert(is_for_hearer(first, audience, only, prefix, order, before[i]));
                let k = choose|k: int|
                    0 <= k < first.len() && hears(audience, only, #[trigger] first[k]) && before[i]
                        == request_for(first[k], prefix, order);
                assert(workers[k] == first[k]);
            } else {
                assert(hears(audience, only, workers[workers.len() - 1]));
            }
        }
        assert forall|k: int|
            0 <= k < workers.len() && hears(audience, only, #[trigger] workers[k]) implies all.contains(
            request_for(workers[k], prefix, order),
        ) by {
            let request = request_for(workers[k], prefix, order);
            if k < first.len() {
                assert(first[k] == workers[k]);
                assert(before.contains(request));
                let i = choose|i: int| 0 <= i < before.len() && before[i] == request;
                assert(all[i] == request);
            } else {
                assert(all[all.len() - 1] == request);
            }
        }
    }
}

/// Every request that was sent is waited for by its task, and whatever was waited for before under
/// another identifier still is.
pub proof fn law_sent_requests_are_waited_for(
    in_flight: Seq<(Seq<char>, InFlight)>,
    sent: Seq<(u32, WorkerRequestModel)>,
    task: u64,
)
    requires
        crate::collections::ascending(crate::collections::keys_of(in_flight)),
    ensures
        crate::collections::ascending(crate::collections::keys_of(noted(in_flight, sent, task))),
        forall|i: int|
            0 <= i < sent.len() ==> crate::collections::value_at(
                noted(in_flight, sent, task),
                (#[trigger] sent[i]).1.id,
            ) == Some(InFlight { task, expected: 1 }),
        forall|id: Seq<char>|
            (forall|i: int| 0 <= i < sent.len() ==> (#[trigger] sent[i]).1.id != id)
                ==> #[trigger] crate::collections::value_at(noted(in_flight, sent, task), id)
                == crate::collections::value_at(in_flight, id),
    decreases sent.len(),
{
    if sent.len() > 0 {
        let first = sent.drop_last();
        let before = noted(in_flight, first, task);
        let last = sent.last().1.id;
        let entry = InFlight { task, expected: 1 };
        law_sent_requests_are_waited_for(in_flight, first, task);
        assert forall|i: int| 0 <= i < sent.len() implies crate::collections::value_at(
            noted(in_flight, sent, task),
            (#[trigger] sent[i]).1.id,
        ) == Some(entry) by {
            crate::collections::law_what_is_put_is_found(before, last, entry, sent[i].1.id);
            if i < first.len() {
                assert(first[i] == sent[i]);
            }
        }
        assert forall|id: Seq<char>|
            (forall|i: int| 0 <= i < sent.len() ==> (#[trigger] sent[i]).1.id != id) implies #[trigger] crate::collections::value_at(
            noted(in_flight, sent, task),
            id,
        ) == crate::collections::value_at(in_flight, id) by {
            crate::collections::law_what_is_put_is_found(before, last, entry, id);
            assert(sent[sent.len() - 1].1.id != id);
            assert forall|i: int| 0 <= i < first.len() implies (#[trigger] first[i]).1.id != id by {
                assert(sent[i] == first[i]);
            }
        }
        crate::collections::law_what_is_put_is_found(before, last, entry, last);
    }
}

/// The requests that bring one order to different workers have different identifiers.
pub proof fn law_requests_are_told_apart(
    a: WorkerInfoModel,
    b: WorkerInfoModel,
    prefix: Seq<char>,
    order: ProxyRequestOrderModel,
)
    requires
        a.id != b.id,
    ensures
        request_for(a, prefix, order).1.id != request_for(b, prefix, order).1.id,
{
    crate::text::lemma_prefixed_numbers_differ(prefix, a.id as nat, b.id as nat);
}

impl CommandServerModel {
    /// The server that waits for the answers to these requests.
    pub open spec fn waiting_for(
        self,
        sent: Seq<(u32, WorkerRequestModel)>,
        task: u64,
    ) -> CommandServerModel {
        CommandServerModel { in_flight: noted(self.in_flight, sent, task), ..self }
    }

    /// The server that also waits for one answer to the request of this identifier.
    pub open spec fn waiting_for_one(self, id: Seq<char>, task: u64) -> CommandServerModel {
        CommandServerModel {
            in_flight: crate::collections::inserted(
                self.in_flight,
                id,
                InFlight { task, expected: 1 },
            ),
            ..self
        }
    }
}

impl CommandServer {
    /// A main process without workers.
    pub fn new(automatic_state_save: bool, saved_state: Option<String>, config_path: String) -> (r:
        CommandServer)
        ensures
            r.deep_view() == (CommandServerModel {
                workers: Seq::empty(),
                next_worker_id: 0,
                in_flight: Seq::empty(),
                event_subscribers: Seq::empty(),
                automatic_state_save,
                saved_state: saved_state.deep_view(),
                config_path: config_path@,
            }),
    {
        let r = CommandServer {
            workers: Vec::new(),
            next_worker_id: 0,
            in_flight: TextMap::new(),
            event_subscribers: Vec::new(),
            automatic_state_save,
            saved_state,
            config_path,
        };
        proof {
            assert(r.workers.deep_view() =~= Seq::empty());
            assert(r.in_flight.deep_view() =~= Seq::empty());
            assert(r.event_subscribers.deep_view() =~= Seq::empty());
        }
        r
    }

    /// Waits for one answer to the request of this identifier.
    pub fn wait_for(&mut self, id: &str, task: u64)
        ensures
            final(self).deep_view() == old(self).deep_view().waiting_for_one(id@, task),
    {
        self.in_flight.insert(id.to_owned(), InFlight { task, expected: 1 });
    }

    /// The requests that bring an order to the workers that hear it. The task waits for one answer
    /// to each of them.
    pub fn send_to(
        &mut self,
        audience: Audience,
        only: Option<u32>,
        prefix: &str,
        order: &ProxyRequestOrder,
        task: u64,
    ) -> (r: Vec<(u32, WorkerRequest)>)
        ensures
            r.deep_view() == requests(
                old(self).deep_view().workers,
                audience,
                only,
                prefix@,
                order.deep_view(),
            ),
            final(self).deep_view() == old(self).deep_view().waiting_for(r.deep_view(), task),
    {
        let ghost start = self.deep_view();
        let ghost all = start.workers;
        let mut sent: Vec<(u32, WorkerRequest)> = Vec::new();
        let mut i: usize = 0;
        proof {
            assert(all.take(0) =~= Seq::empty());
            assert(sent.deep_view() =~= Seq::empty());
        }
        while i < self.workers.len()
            invariant
                i <= self.workers.len(),
                start == old(self).deep_view(),
                all == start.workers,
                all == self.workers.deep_view(),
                sent.deep_view() == requests(
                    all.take(i as int),
                    audience,
                    only,
                    prefix@,
                    order.deep_view(),
                ),
                self.deep_view() == start.waiting_for(sent.deep_view(), task),
            decreases self.workers.len() - i,
        {
            let ghost before = sent.deep_view();
            proof {
                assert(all.take(i + 1).drop_last() =~= all.take(i as int));
                assert(all.take(i + 1).last() == self.workers@[i as int].deep_view());
            }
            let id = self.workers[i].id;
            let named = match only {
                Some(only) => only == id,
                None => true,
            };
            if audience.has(self.workers[i].run_state) && named {
                let mut request_id = prefix.to_owned();
                request_id.append(decimal_text(id as u64).as_str());
                self.in_flight.insert(request_id.clone(), InFlight { task, expected: 1 });
                sent.push((id, WorkerRequest { id: request_id, order: order.clone() }));
                proof {
                    let request = request_for(
                        all[i as int],
                        prefix@,
                        order.deep_view(),
                    );
                    assert(sent.deep_view() =~= before.push(request));
                    assert(sent.deep_view().drop_last() =~= before);
                }
            }
            i = i + 1;
        }
        proof {
            assert(all.take(all.len() as int) =~= all);
        }
        sent
    }

    /// Adds a client to those that want to hear of events.
    pub fn subscribe(&mut self, client_id: &str)
        ensures
            final(self).deep_view() == (CommandServerModel {
                event_subscribers: if old(self).deep_view().event_subscribers.contains(client_id@) {
                    old(self).deep_view().event_subscribers
                } else {
                    old(self).deep_view().event_subscribers.push(client_id@)
                },
                ..old(self).deep_view()
            }),
    {
        let ghost before = self.event_subscribers.deep_view();
        let wanted = client_id.to_owned();
        let mut i: usize = 0;
        while i < self.event_subscribers.len()
            invariant
                i <= self.event_subscribers.len(),
                wanted@ == client_id@,
                before == self.event_subscribers.deep_view(),
                *self == *old(self),
                forall|k: int| 0 <= k < i ==> #[trigger] before[k] != client_id@,
            decreases self.event_subscribers.len() - i,
        {
            if self.event_subscribers[i] == wanted {
                proof {
                    assert(before[i as int] == client_id@);
                    assert(before.contains(client_id@));
                }
                return;
            }
            i = i + 1;
        }
        self.event_subscribers.push(wanted);
        proof {
            assert(self.event_subscribers.deep_view() =~= before.push(client_id@));
        }
    }
}

} // verus!
