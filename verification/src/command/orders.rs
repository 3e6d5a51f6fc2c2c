//! What the main process does with the orders that are for its workers.
use vstd::prelude::*;
use vstd::string::*;

use crate::collections::TextMap;
use crate::proxy::{MetricsConfiguration, ProxyRequestOrder, ProxyRequestOrderModel};
use crate::text::decimal_text;

use super::collect::{
    MetricsCollector, MetricsCollectorModel, OrderCollector, OrderCollectorModel, QueryCollector,
    QueryCollectorModel, StatusCollector, StatusCollectorModel,
};
use super::route::Outcome;
use super::save::{failure_of, Written};
use super::server::{Audience, CommandServer, CommandServerModel};
use super::types::{
    AdvancementModel, CommandRequest, CommandRequestModel, CommandRequestOrder, CommandRequestOrderModel,
    RequestIdentifier, RunState, Success, SuccessModel, WorkerInfo, WorkerInfoModel, WorkerRequest,
    WorkerRequestModel, WorkerResponse,
};

verus! {

/// The order stops workers.
pub open spec fn is_stop(order: ProxyRequestOrderModel) -> bool {
    order is SoftStop || order is HardStop
}

fn stops(order: &ProxyRequestOrder) -> (r: bool)
    ensures
        r == is_stop(order.deep_view()),
{
    match order {
        ProxyRequestOrder::SoftStop => true,
        ProxyRequestOrder::HardStop => true,
        _ => false,
    }
}

/// The workers, of which those that hear the order are stopping.
pub open spec fn stopping(workers: Seq<WorkerInfoModel>, only: Option<u32>) -> Seq<
    WorkerInfoModel,
> {
    Seq::new(
        workers.len(),
        |i: int|
            if super::server::hears(Audience::Active, only, workers[i]) {
                WorkerInfoModel { run_state: RunState::Stopping, ..workers[i] }
            } else {
                workers[i]
            },
    )
}

/// The workers that requests are for.
pub open spec fn receivers(sent: Seq<(u32, WorkerRequestModel)>) -> Seq<u32> {
    Seq::new(sent.len(), |i: int| sent[i].0)
}

/// What has to be counted anew after an order.
#[derive(Debug, Clone, Copy, PartialEq, Eq, Structural)]
pub enum Recount {
    Backends,
    Frontends,
    Nothing,
}

/// What has to be counted anew after an order.
pub open spec fn recounted(order: ProxyRequestOrderModel) -> Recount {
    match order {
        ProxyRequestOrderModel::AddBackend(_) => Recount::Backends,
        ProxyRequestOrderModel::RemoveBackend(_) => Recount::Backends,
        ProxyRequestOrderModel::AddHttpFrontend(_) => Recount::Frontends,
        ProxyRequestOrderModel::AddHttpsFrontend(_) => Recount::Frontends,
        ProxyRequestOrderModel::AddTcpFrontend(_) => Recount::Frontends,
        ProxyRequestOrderModel::RemoveHttpFrontend(_) => Recount::Frontends,
        ProxyRequestOrderModel::RemoveHttpsFrontend(_) => Recount::Frontends,
        ProxyRequestOrderModel::RemoveTcpFrontend(_) => Recount::Frontends,
        _ => Recount::Nothing,
    }
}

/// What has to be counted anew after an order.
pub fn recount(order: &ProxyRequestOrder) -> (r: Recount)
    ensures
        r == recounted(order.deep_view()),
{
    match order {
        ProxyRequestOrder::AddBackend(_) => Recount::Backends,
        ProxyRequestOrder::RemoveBackend(_) => Recount::Backends,
        ProxyRequestOrder::AddHttpFrontend(_) => Recount::Frontends,
        ProxyRequestOrder::AddHttpsFrontend(_) => Recount::Frontends,
        ProxyRequestOrder::AddTcpFrontend(_) => Recount::Frontends,
        ProxyRequestOrder::RemoveHttpFrontend(_) => Recount::Frontends,
        ProxyRequestOrder::RemoveHttpsFrontend(_) => Recount::Frontends,
        ProxyRequestOrder::RemoveTcpFrontend(_) => Recount::Frontends,
        _ => Recount::Nothing,
    }
}

/// A failure within a context.
pub open spec fn in_context(context: Seq<char>, cause: Seq<char>) -> Seq<char> {
    context + ": "@ + cause
}

/// A failure within a context.
pub fn with_context(context: &str, cause: &str) -> (r: String)
    ensures
        r@ == in_context(context@, cause@),
{
    let mut text = context.to_owned();
    text.append(": ");
    text.append(cause);
    text
}

impl CommandServerModel {
    /// Where the state is saved after an order that the state accepted.
    pub open spec fn save_path(self) -> Option<Seq<char>> {
        if self.automatic_state_save {
            self.saved_state
        } else {
            None
        }
    }

    /// The requests of an order for workers.
    pub open spec fn order_requests(
        self,
        client: Seq<char>,
        order: ProxyRequestOrderModel,
        worker_id: Option<u32>,
    ) -> Seq<(u32, WorkerRequestModel)> {
        super::server::requests(
            self.workers,
            Audience::Active,
            worker_id,
            client + "-worker-"@,
            order,
        )
    }

    /// The server after an order for workers.
    pub open spec fn after_order(
        self,
        client: Seq<char>,
        order: ProxyRequestOrderModel,
        worker_id: Option<u32>,
        task: u64,
    ) -> CommandServerModel {
        let server = self.waiting_for(self.order_requests(client, order, worker_id), task);
        if is_stop(order) {
            CommandServerModel { workers: stopping(self.workers, worker_id), ..server }
        } else {
            server
        }
    }
}

/// What is known of an order for workers.
#[derive(Debug)]
pub enum OrderEvent {
    /// the state took the order
    Accepted,
    /// the state refused the order, in words
    Refused(String),
    /// what came of saving the state
    Saved(Written),
}

/// What comes next of an order for workers.
#[derive(Debug)]
pub enum OrderStep {
    /// save the state at this path; the client hears of it
    Save(String),
    /// send the requests and collect their answers; the client hears of it
    Send(OrderSent),
    /// the order failed, in words
    Failed(String),
}

/// An order that goes to workers.
#[derive(Debug)]
pub struct OrderSent {
    pub requests: Vec<(u32, WorkerRequest)>,
    pub collector: OrderCollector,
    /// what the client is told beside what the answers say
    pub outcome: Outcome,
    /// what has to be counted anew
    pub recount: Recount,
}

/// What an [`OrderStep`] holds.
#[verifier::ext_equal]
pub enum OrderStepModel {
    Save(Seq<char>),
    Send {
        requests: Seq<(u32, WorkerRequestModel)>,
        collector: OrderCollectorModel,
        told: Option<AdvancementModel>,
        recount: Recount,
    },
    Failed(Seq<char>),
}

impl View for OrderStep {
    type V = OrderStepModel;

    open spec fn view(&self) -> OrderStepModel {
        match self {
            OrderStep::Save(path) => OrderStepModel::Save(path@),
            OrderStep::Send(sent) => OrderStepModel::Send {
                requests: sent.requests.deep_view(),
                collector: sent.collector@,
                told: super::route::told_at_once(sent.outcome),
                recount: sent.recount,
            },
            OrderStep::Failed(text) => OrderStepModel::Failed(text@),
        }
    }
}

impl CommandServerModel {
    /// The order goes to the workers that hear it. Where there is none, the client is told so, and
    /// nothing is counted.
    pub open spec fn sending(
        self,
        client: Seq<char>,
        order: ProxyRequestOrderModel,
        worker_id: Option<u32>,
    ) -> OrderStepModel {
        let requests = self.order_requests(client, order, worker_id);
        OrderStepModel::Send {
            requests,
            collector: OrderCollectorModel {
                expected: requests.len(),
                answers: Seq::empty(),
                stopping: if is_stop(order) {
                    receivers(requests)
                } else {
                    Seq::empty()
                },
                worker_id,
                stop_main: is_stop(order) && worker_id is None,
            },
            told: if requests.len() == 0 {
                Some(AdvancementModel::Error("no worker found"@))
            } else {
                None
            },
            recount: if requests.len() == 0 {
                Recount::Nothing
            } else {
                recounted(order)
            },
        }
    }

    /// What an event leads to. An order that the state took is saved first where that is wanted, and
    /// goes to the workers once it is.
    pub open spec fn order_step(
        self,
        client: Seq<char>,
        order: ProxyRequestOrderModel,
        worker_id: Option<u32>,
        event: OrderEvent,
    ) -> OrderStepModel {
        match event {
            OrderEvent::Refused(cause) => OrderStepModel::Failed(
                in_context("Could not execute order on the state"@, cause@),
            ),
            OrderEvent::Accepted => match self.save_path() {
                Some(path) => OrderStepModel::Save(path),
                None => self.sending(client, order, worker_id),
            },
            OrderEvent::Saved(Written::Messages(_)) => self.sending(client, order, worker_id),
            OrderEvent::Saved(Written::NotOpened(cause)) => OrderStepModel::Failed(
                in_context("Could not create file to automatically save the state"@, cause@),
            ),
            OrderEvent::Saved(written) => OrderStepModel::Failed(
                in_context(
                    "could not save state automatically to "@ + or_empty(self.saved_state),
                    super::save::write_failure(written)->0,
                ),
            ),
        }
    }

    /// The server after an event.
    pub open spec fn after_order_event(
        self,
        client: Seq<char>,
        order: ProxyRequestOrderModel,
        worker_id: Option<u32>,
        event: OrderEvent,
        task: u64,
    ) -> CommandServerModel {
        if self.order_step(client, order, worker_id, event) is Send {
            self.after_order(client, order, worker_id, task)
        } else {
            self
        }
    }
}

/// The text that is set, or none.
pub open spec fn or_empty(text: Option<Seq<char>>) -> Seq<char> {
    match text {
        Some(text) => text,
        None => Seq::empty(),
    }
}

/// The identifier of a request without the identifier of its worker.
fn prefix_of(client: &str, kind: &str) -> (r: String)
    ensures
        r@ == client@ + kind@,
{
    let mut prefix = client.to_owned();
    prefix.append(kind);
    prefix
}

impl CommandServer {
    /// Lets the workers that hear an order stop.
    fn stop_workers(&mut self, only: Option<u32>)
        ensures
            final(self).deep_view() == (CommandServerModel {
                workers: stopping(old(self).deep_view().workers, only),
                ..old(self).deep_view()
            }),
    {
        let ghost start = self.deep_view();
        let n = self.workers.len();
        let mut i: usize = 0;
        while i < n
            invariant
                i <= n,
                n == self.workers.len(),
                start == old(self).deep_view(),
                start.workers.len() == n,
                self.deep_view() == (CommandServerModel {
                    workers: self.deep_view().workers,
                    ..start
                }),
                forall|k: int|
                    0 <= k < i ==> (#[trigger] self.workers@[k]).deep_view() == stopping(
                        start.workers,
                        only,
                    )[k],
                forall|k: int|
                    i <= k < n ==> (#[trigger] self.workers@[k]).deep_view() == start.workers[k],
            decreases n - i,
        {
            let WorkerInfo { id, pid, run_state } = self.workers[i].clone();
            let named = match only {
                Some(only) => only == id,
                None => true,
            };
            if Audience::Active.has(run_state) && named {
                self.workers.set(i, WorkerInfo { id, pid, run_state: RunState::Stopping });
            }
            i = i + 1;
        }
        proof {
            assert(self.workers.deep_view() =~= stopping(start.workers, only));
        }
    }

    /// Sends an order to all active workers, or to the one that is named. An order to stop lets them
    /// stop, and the main process after them where none is named. Whoever gets the order is asked
    /// for an answer.
    fn send_order(
        &mut self,
        identifier: &RequestIdentifier,
        order: &ProxyRequestOrder,
        worker_id: Option<u32>,
        task: u64,
    ) -> (r: OrderSent)
        ensures
            OrderStep::Send(r)@ == old(self).deep_view().sending(
                identifier.deep_view().client,
                order.deep_view(),
                worker_id,
            ),
            final(self).deep_view() == old(self).deep_view().after_order(
                identifier.deep_view().client,
                order.deep_view(),
                worker_id,
                task,
            ),
    {
        let prefix = prefix_of(identifier.client.as_str(), "-worker-");
        let sent = self.send_to(Audience::Active, worker_id, prefix.as_str(), order, task);
        let stop = stops(order);
        let mut stopping: Vec<u32> = Vec::new();
        if stop {
            self.stop_workers(worker_id);
            let mut i: usize = 0;
            while i < sent.len()
                invariant
                    i <= sent.len(),
                    stopping.len() == i,
                    forall|k: int|
                        0 <= k < i ==> #[trigger] stopping@[k] == sent.deep_view()[k].0,
                decreases sent.len() - i,
            {
                stopping.push(sent[i].0);
                i = i + 1;
            }
            proof {
                assert(stopping@ =~= receivers(sent.deep_view()));
            }
        } else {
            proof {
                assert(stopping@ =~= Seq::empty());
            }
        }
        let answers: Vec<(String, super::types::WorkerResponse)> = Vec::new();
        proof {
            assert(answers.deep_view() =~= Seq::empty());
        }
        let expected = sent.len();
        OrderSent {
            requests: sent,
            collector: OrderCollector {
                expected,
                answers,
                stopping,
                worker_id,
                stop_main: stop && worker_id.is_none(),
            },
            outcome: if expected == 0 {
                Outcome::Failed("no worker found".to_owned())
            } else {
                Outcome::Later
            },
            recount: if expected == 0 {
                Recount::Nothing
            } else {
                recount(order)
            },
        }
    }

    /// Goes on with an order for workers, from what the state and the saving of it said.
    pub fn worker_order(
        &mut self,
        identifier: &RequestIdentifier,
        order: &ProxyRequestOrder,
        worker_id: Option<u32>,
        event: OrderEvent,
        task: u64,
    ) -> (r: OrderStep)
        ensures
            r@ == old(self).deep_view().order_step(
                identifier.deep_view().client,
                order.deep_view(),
                worker_id,
                event,
            ),
            final(self).deep_view() == old(self).deep_view().after_order_event(
                identifier.deep_view().client,
                order.deep_view(),
                worker_id,
                event,
                task,
            ),
    {
        match event {
            OrderEvent::Refused(cause) => OrderStep::Failed(
                with_context("Could not execute order on the state", cause.as_str()),
            ),
            OrderEvent::Accepted => {
                if self.automatic_state_save {
                    if let Some(path) = &self.saved_state {
                        return OrderStep::Save(path.clone());
                    }
                }
                OrderStep::Send(self.send_order(identifier, order, worker_id, task))
            },
            OrderEvent::Saved(written) => {
                if let Some(text) = failure_of(&written) {
                    let mut context = "could not save state automatically to ".to_owned();
                    if let Some(path) = &self.saved_state {
                        context.append(path.as_str());
                    }
                    return OrderStep::Failed(with_context(context.as_str(), text.as_str()));
                }
                match written {
                    Written::NotOpened(cause) => OrderStep::Failed(
                        with_context(
                            "Could not create file to automatically save the state",
                            cause.as_str(),
                        ),
                    ),
                    _ => OrderStep::Send(self.send_order(identifier, order, worker_id, task)),
                }
            },
        }
    }
}

/// What is known of the workers, by the identifiers of the requests for their states.
pub open spec fn infos(workers: Seq<WorkerInfoModel>, prefix: Seq<char>) -> Seq<
    (Seq<char>, WorkerInfoModel),
>
    decreases workers.len(),
{
    if workers.len() == 0 {
        Seq::empty()
    } else {
        crate::collections::inserted(
            infos(workers.drop_last(), prefix),
            prefix + crate::text::decimal(workers.last().id as nat),
            workers.last(),
        )
    }
}

impl CommandServer {
    /// Asks the running workers for their states. All workers are listed.
    pub fn status(&mut self, identifier: &RequestIdentifier, task: u64) -> (r: (
        Vec<(u32, WorkerRequest)>,
        StatusCollector,
    ))
        ensures
            r.0.deep_view() == super::server::requests(
                old(self).deep_view().workers,
                Audience::Running,
                None,
                identifier.deep_view().client + "-status-"@,
                ProxyRequestOrderModel::Status,
            ),
            r.1@ == (StatusCollectorModel {
                expected: r.0@.len(),
                received: 0,
                infos: infos(
                    old(self).deep_view().workers,
                    identifier.deep_view().client + "-status-"@,
                ),
            }),
            final(self).deep_view() == old(self).deep_view().waiting_for(r.0.deep_view(), task),
            super::laws::reaches_running(
                r.0.deep_view(),
                ProxyRequestOrderModel::Status,
                old(self).deep_view().workers,
            ),
    {
        let prefix = prefix_of(identifier.client.as_str(), "-status-");
        let mut known: TextMap<WorkerInfo> = TextMap::new();
        let ghost all = self.deep_view().workers;
        let mut i: usize = 0;
        proof {
            assert(all.take(0) =~= Seq::empty());
            assert(known.deep_view() =~= Seq::empty());
        }
        while i < self.workers.len()
            invariant
                i <= self.workers.len(),
                all == self.workers.deep_view(),
                *self == *old(self),
                known.deep_view() == infos(all.take(i as int), prefix@),
            decreases self.workers.len() - i,
        {
            let mut id = prefix.clone();
            id.append(decimal_text(self.workers[i].id as u64).as_str());
            known.insert(id, self.workers[i].clone());
            proof {
                assert(all.take(i + 1).drop_last() =~= all.take(i as int));
                assert(all.take(i + 1).last() == self.workers@[i as int].deep_view());
            }
            i = i + 1;
        }
        proof {
            assert(all.take(all.len() as int) =~= all);
        }
        let sent = self.send_to(
            Audience::Running,
            None,
            prefix.as_str(),
            &ProxyRequestOrder::Status,
            task,
        );
        let expected = sent.len();
        proof {
            super::laws::lemma_reaches(all, prefix@, ProxyRequestOrderModel::Status);
        }
        (sent, StatusCollector { expected, received: 0, infos: known })
    }

    /// Changes the metrics of all workers that are not stopped.
    pub fn configure_metrics(
        &mut self,
        identifier: &RequestIdentifier,
        config: MetricsConfiguration,
        task: u64,
    ) -> (r: (Vec<(u32, WorkerRequest)>, MetricsCollector))
        ensures
            r.0.deep_view() == super::server::requests(
                old(self).deep_view().workers,
                Audience::NotStopped,
                None,
                identifier.deep_view().client + "-metrics-"@,
                ProxyRequestOrderModel::ConfigureMetrics(config),
            ),
            r.1@ == (MetricsCollectorModel {
                expected: r.0@.len(),
                answers: Seq::empty(),
                prefix: identifier.deep_view().client + "-metrics-"@,
                config,
            }),
            final(self).deep_view() == old(self).deep_view().waiting_for(r.0.deep_view(), task),
            super::laws::reaches_unstopped(
                r.0.deep_view(),
                ProxyRequestOrderModel::ConfigureMetrics(config),
                old(self).deep_view().workers,
            ),
    {
        let prefix = prefix_of(identifier.client.as_str(), "-metrics-");
        proof {
            super::laws::lemma_reaches(
                self.deep_view().workers,
                prefix@,
                ProxyRequestOrderModel::ConfigureMetrics(config),
            );
        }
        let sent = self.send_to(
            Audience::NotStopped,
            None,
            prefix.as_str(),
            &ProxyRequestOrder::ConfigureMetrics(config),
            task,
        );
        let answers: Vec<(String, WorkerResponse)> = Vec::new();
        proof {
            assert(answers.deep_view() =~= Seq::empty());
        }
        let expected = sent.len();
        (sent, MetricsCollector { expected, answers, prefix, config })
    }

    /// Asks all workers that are not stopped.
    pub fn query(&mut self, identifier: &RequestIdentifier, order: &ProxyRequestOrder, task: u64)
        -> (r: (Vec<(u32, WorkerRequest)>, QueryCollector))
        ensures
            r.0.deep_view() == super::server::requests(
                old(self).deep_view().workers,
                Audience::NotStopped,
                None,
                identifier.deep_view().client + "-query-"@,
                order.deep_view(),
            ),
            r.1@ == (QueryCollectorModel { expected: r.0@.len(), answers: Seq::empty() }),
            final(self).deep_view() == old(self).deep_view().waiting_for(r.0.deep_view(), task),
            super::laws::reaches_unstopped(
                r.0.deep_view(),
                order.deep_view(),
                old(self).deep_view().workers,
            ),
    {
        let prefix = prefix_of(identifier.client.as_str(), "-query-");
        proof {
            super::laws::lemma_reaches(self.deep_view().workers, prefix@, order.deep_view());
        }
        let sent = self.send_to(Audience::NotStopped, None, prefix.as_str(), order, task);
        let answers: Vec<(u32, WorkerResponse)> = Vec::new();
        proof {
            assert(answers.deep_view() =~= Seq::empty());
        }
        let expected = sent.len();
        (sent, QueryCollector { expected, answers })
    }
}

/// The start of the identifiers of the requests that bring change number `diff` to the workers.
pub open spec fn change_prefix(request: Seq<char>, diff: nat) -> Seq<char> {
    "LOAD-STATE-"@ + request + "-"@ + crate::text::decimal(diff) + "-"@
}

impl CommandServer {
    /// Sends change number `diff` to all active workers.
    pub fn send_change(
        &mut self,
        request: &str,
        diff: usize,
        order: &ProxyRequestOrder,
        task: u64,
    ) -> (r: Vec<(u32, WorkerRequest)>)
        ensures
            r.deep_view() == super::server::requests(
                old(self).deep_view().workers,
                Audience::Active,
                None,
                change_prefix(request@, diff as nat),
                order.deep_view(),
            ),
            final(self).deep_view() == old(self).deep_view().waiting_for(r.deep_view(), task),
            super::laws::reaches_active(
                r.deep_view(),
                order.deep_view(),
                old(self).deep_view().workers,
            ),
    {
        proof {
            super::laws::lemma_reaches(
                self.deep_view().workers,
                change_prefix(request@, diff as nat),
                order.deep_view(),
            );
        }
        let mut prefix = "LOAD-STATE-".to_owned();
        prefix.append(request);
        prefix.append("-");
        prefix.append(decimal_text(diff as u64).as_str());
        prefix.append("-");
        self.send_to(Audience::Active, None, prefix.as_str(), order, task)
    }
}

/// The changes that the messages of a configuration bring: those that the state accepted.
pub open spec fn changes(messages: Seq<CommandRequestModel>, accepted: Seq<bool>) -> Seq<
    ProxyRequestOrderModel,
>
    decreases messages.len(),
{
    if messages.len() == 0 {
        Seq::empty()
    } else {
        let before = changes(messages.drop_last(), accepted);
        match messages.last().order {
            CommandRequestOrderModel::Proxy(order) => if accepted[messages.len() - 1] {
                before.push(order)
            } else {
                before
            },
            _ => before,
        }
    }
}

/// The requests that bring the changes to the workers, one change after the other.
pub open spec fn change_requests(
    workers: Seq<WorkerInfoModel>,
    request: Seq<char>,
    changes: Seq<ProxyRequestOrderModel>,
) -> Seq<(u32, WorkerRequestModel)>
    decreases changes.len(),
{
    if changes.len() == 0 {
        Seq::empty()
    } else {
        change_requests(workers, request, changes.drop_last()) + super::server::requests(
            workers,
            Audience::Active,
            None,
            change_prefix(request, changes.len()),
            changes.last(),
        )
    }
}

proof fn lemma_noted_joins(
    in_flight: Seq<(Seq<char>, super::server::InFlight)>,
    a: Seq<(u32, WorkerRequestModel)>,
    b: Seq<(u32, WorkerRequestModel)>,
    task: u64,
)
    ensures
        super::server::noted(super::server::noted(in_flight, a, task), b, task)
            == super::server::noted(in_flight, a + b, task),
    decreases b.len(),
{
    if b.len() == 0 {
        assert(a + b =~= a);
    } else {
        assert((a + b).drop_last() =~= a + b.drop_last());
        lemma_noted_joins(in_flight, a, b.drop_last(), task);
    }
}

impl CommandServer {
    /// What is said of a new filter for the log. `failure` is the reason why it could not be set.
    pub fn set_logging_level(&self, logging_filter: String, failure: Option<String>) -> (r: Outcome)
        ensures
            super::route::told_at_once(r) == Some(
                match failure {
                    None => AdvancementModel::Done(SuccessModel::Logging(logging_filter@)),
                    Some(cause) => AdvancementModel::Error(cause@),
                },
            ),
    {
        match failure {
            None => Outcome::Done(Success::Logging(logging_filter)),
            Some(cause) => Outcome::Failed(cause),
        }
    }

    /// The path of the configuration that is reloaded.
    pub fn reload_path(&self, config_path: Option<String>) -> (r: String)
        ensures
            r@ == match config_path {
                Some(path) => path@,
                None => self.deep_view().config_path,
            },
    {
        match config_path {
            Some(path) => path,
            None => self.config_path.clone(),
        }
    }

    /// What is said of a configuration that cannot be loaded.
    pub fn reload_failure(&self, path: &str, cause: &str) -> (r: Outcome)
        ensures
            super::route::told_at_once(r) == Some(
                AdvancementModel::Error(
                    in_context("cannot load configuration from '"@ + path@ + "'"@, cause@),
                ),
            ),
    {
        let mut context = "cannot load configuration from '".to_owned();
        context.append(path);
        context.append("'");
        Outcome::Failed(with_context(context.as_str(), cause))
    }

    /// Sends the messages of a new configuration to all active workers, as far as the state accepted
    /// them, and goes on with the new configuration. `accepted` tells of each message whether the
    /// state did. The result holds the requests and the number of changes.
    pub fn reload_configuration(
        &mut self,
        identifier: &RequestIdentifier,
        messages: &Vec<CommandRequest>,
        accepted: &Vec<bool>,
        automatic_state_save: bool,
        saved_state: Option<String>,
        config_path: String,
        task: u64,
    ) -> (r: (Vec<(u32, WorkerRequest)>, usize))
        requires
            accepted@.len() == messages@.len(),
        ensures
            r.1 == changes(messages.deep_view(), accepted@).len(),
            r.0.deep_view() == change_requests(
                old(self).deep_view().workers,
                identifier.deep_view().request,
                changes(messages.deep_view(), accepted@),
            ),
            final(self).deep_view() == (CommandServerModel {
                automatic_state_save,
                saved_state: saved_state.deep_view(),
                config_path: config_path@,
                ..old(self).deep_view().waiting_for(r.0.deep_view(), task)
            }),
    {
        let ghost start = self.deep_view();
        let ghost all = messages.deep_view();
        let ghost request = identifier.deep_view().request;
        let mut sent: Vec<(u32, WorkerRequest)> = Vec::new();
        let mut diff: usize = 0;
        let mut i: usize = 0;
        proof {
            assert(all.take(0) =~= Seq::empty());
            assert(sent.deep_view() =~= Seq::empty());
        }
        while i < messages.len()
            invariant
                i <= messages.len(),
                diff <= i,
                accepted@.len() == messages@.len(),
                all == messages.deep_view(),
                start == old(self).deep_view(),
                request == identifier.deep_view().request,
                diff == changes(all.take(i as int), accepted@).len(),
                sent.deep_view() == change_requests(
                    start.workers,
                    request,
                    changes(all.take(i as int), accepted@),
                ),
                self.deep_view() == start.waiting_for(sent.deep_view(), task),
            decreases messages.len() - i,
        {
            let ghost before = sent.deep_view();
            let ghost done = changes(all.take(i as int), accepted@);
            proof {
                assert(all.take(i + 1).drop_last() =~= all.take(i as int));
                assert(all.take(i + 1).last() == messages@[i as int].deep_view());
            }
            match &messages[i].order {
                CommandRequestOrder::Proxy(order) => {
                    if accepted[i] {
                        diff = diff + 1;
                        let mut more = self.send_change(
                            identifier.request.as_str(),
                            diff,
                            order,
                            task,
                        );
                        let ghost added = more.deep_view();
                        sent.append(&mut more);
                        proof {
                            assert(sent.deep_view() =~= before + added);
                            let now = changes(all.take(i + 1), accepted@);
                            assert(now == done.push((**order).deep_view()));
                            assert(now.drop_last() =~= done);
                            lemma_noted_joins(start.in_flight, before, added, task);
                        }
                    }
                },
                _ => {},
            }
            i = i + 1;
        }
        proof {
            assert(all.take(all.len() as int) =~= all);
        }
        self.automatic_state_save = automatic_state_save;
        self.saved_state = saved_state;
        self.config_path = config_path;
        (sent, diff)
    }
}

/// An order that the state refused reaches no worker, changes nothing that the main process knows,
/// and is answered with an error.
pub proof fn law_refused_order_changes_nothing(
    server: CommandServerModel,
    client: Seq<char>,
    order: ProxyRequestOrderModel,
    worker_id: Option<u32>,
    cause: String,
    task: u64,
)
    ensures
        server.order_step(client, order, worker_id, OrderEvent::Refused(cause)) is Failed,
        server.after_order_event(client, order, worker_id, OrderEvent::Refused(cause), task)
            == server,
{
}

/// Where the state is saved automatically, an order goes to the workers exactly when the state took
/// it and was saved with it.
pub proof fn law_order_is_saved_before_it_is_sent(
    server: CommandServerModel,
    client: Seq<char>,
    order: ProxyRequestOrderModel,
    worker_id: Option<u32>,
    event: OrderEvent,
)
    requires
        server.save_path() is Some,
    ensures
        server.order_step(client, order, worker_id, event) is Send <==> (event
            matches OrderEvent::Saved(written) && written is Messages),
        event is Accepted ==> server.order_step(client, order, worker_id, event)
            == OrderStepModel::Save(server.save_path()->0),
{
}

} // verus!
