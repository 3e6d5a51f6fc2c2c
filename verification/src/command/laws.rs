//! What the main process promises of orders, answers and workers.
use vstd::prelude::*;

use crate::proxy::ProxyRequestOrderModel;

use super::collect::{
    LoadCollector, MetricsCollectorModel, OrderCollectorModel, QueryCollectorModel,
    StatusCollectorModel,
};
use super::load::{LoadEventModel, LoadPhase, LoadStepModel, LoaderModel};
use super::orders::{OrderEvent, OrderStepModel, Recount};
use super::route::TaskModel;
use super::save::Written;
use super::server::{Audience, CommandServerModel, InFlight};
use super::types::{
    AdvancementModel, CommandRequestModel, CommandRequestOrderModel, FrontendFiltersModel,
    RequestStatus, ResponseContentModel, RunState, SuccessModel, WorkerContentModel,
    WorkerInfoModel, WorkerRequestModel, WorkerResponseModel,
};
use super::workers::{UpgradeEventModel, UpgradePhase, UpgradeStepModel, WorkerUpgrade};

verus! {

/// The worker takes orders: it was not told to stop.
pub open spec fn takes_orders(worker: WorkerInfoModel) -> bool {
    worker.run_state == RunState::Running || worker.run_state == RunState::NotAnswering
}

/// The order is for this worker: for all of them, or for the one that is named.
pub open spec fn is_named(worker_id: Option<u32>, worker: WorkerInfoModel) -> bool {
    worker_id is None || worker_id == Some(worker.id)
}

/// The order lets workers stop.
pub open spec fn is_a_stop(order: ProxyRequestOrderModel) -> bool {
    order == ProxyRequestOrderModel::SoftStop || order == ProxyRequestOrderModel::HardStop
}

/// No two workers share their identifier.
pub open spec fn ids_differ(workers: Seq<WorkerInfoModel>) -> bool {
    forall|i: int, j: int|
        0 <= i < j < workers.len() ==> (#[trigger] workers[i]).id != (#[trigger] workers[j]).id
}

/// One of the requests goes to the worker.
pub open spec fn gets_one(requests: Seq<(u32, WorkerRequestModel)>, id: u32) -> bool {
    exists|i: int| 0 <= i < requests.len() && (#[trigger] requests[i]).0 == id
}

/// The requests bring the order to exactly those workers for which `wanted` holds, once to each.
pub open spec fn brought_to(
    requests: Seq<(u32, WorkerRequestModel)>,
    order: ProxyRequestOrderModel,
    workers: Seq<WorkerInfoModel>,
    wanted: spec_fn(WorkerInfoModel) -> bool,
) -> bool {
    &&& forall|k: int|
        0 <= k < workers.len() && wanted(#[trigger] workers[k]) ==> gets_one(
            requests,
            workers[k].id,
        )
    &&& forall|i: int|
        0 <= i < requests.len() ==> {
            &&& (#[trigger] requests[i]).1.order == order
            &&& exists|k: int|
                0 <= k < workers.len() && wanted(#[trigger] workers[k]) && workers[k].id
                    == requests[i].0
        }
    &&& ids_differ(workers) ==> forall|i: int, j: int|
        0 <= i < j < requests.len() ==> (#[trigger] requests[i]).0 != (#[trigger] requests[j]).0
            && requests[i].1.id != requests[j].1.id
}

/// What the audience of an order means.
pub proof fn law_audiences(state: RunState)
    ensures
        Audience::Active.includes(state) <==> state == RunState::Running || state
            == RunState::NotAnswering,
        Audience::NotStopped.includes(state) <==> state != RunState::Stopped,
        Audience::Running.includes(state) <==> state == RunState::Running,
{
}

proof fn lemma_receivers_differ(
    workers: Seq<WorkerInfoModel>,
    audience: Audience,
    only: Option<u32>,
    prefix: Seq<char>,
    order: ProxyRequestOrderModel,
)
    requires
        ids_differ(workers),
    ensures
        ({
            let requests = super::server::requests(workers, audience, only, prefix, order);
            forall|i: int, j: int|
                0 <= i < j < requests.len() ==> (#[trigger] requests[i]).0 != (
                #[trigger] requests[j]).0
        }),
    decreases workers.len(),
{
    if workers.len() > 0 {
        let first = workers.drop_last();
        let before = super::server::requests(first, audience, only, prefix, order);
        let requests = super::server::requests(workers, audience, only, prefix, order);
        assert(ids_differ(first)) by {
            assert forall|i: int, j: int| 0 <= i < j < first.len() implies (#[trigger] first[i]).id
                != (#[trigger] first[j]).id by {
                assert(workers[i] == first[i] && workers[j] == first[j]);
            }
        }
        lemma_receivers_differ(first, audience, only, prefix, order);
        super::server::law_requests_go_to_the_audience(first, audience, only, prefix, order);
        assert forall|i: int, j: int| 0 <= i < j < requests.len() implies (
        #[trigger] requests[i]).0 != (#[trigger] requests[j]).0 by {
            assert(requests[i] == before[i]);
            if j < before.len() {
                assert(requests[j] == before[j]);
            } else {
                assert(super::server::is_for_hearer(
                    first,
                    audience,
                    only,
                    prefix,
                    order,
                    before[i],
                ));
                let k = choose|k: int|
                    0 <= k < first.len() && super::server::hears(
                        audience,
                        only,
                        #[trigger] first[k],
                    ) && before[i] == super::server::request_for(first[k], prefix, order);
                assert(workers[k] == first[k]);
                assert(workers[workers.len() - 1].id != workers[k].id);
            }
        }
    }
}

/// An order goes to exactly the workers of its audience, or to the one of them that is named, once to
/// each, and under different identifiers.
pub proof fn law_orders_go_to_their_audience(
    workers: Seq<WorkerInfoModel>,
    only: Option<u32>,
    prefix: Seq<char>,
    order: ProxyRequestOrderModel,
)
    ensures
        brought_to(
            super::server::requests(workers, Audience::Active, only, prefix, order),
            order,
            workers,
            |worker: WorkerInfoModel| takes_orders(worker) && is_named(only, worker),
        ),
        brought_to(
            super::server::requests(workers, Audience::NotStopped, only, prefix, order),
            order,
            workers,
            |worker: WorkerInfoModel|
                worker.run_state != RunState::Stopped && is_named(only, worker),
        ),
        brought_to(
            super::server::requests(workers, Audience::Running, only, prefix, order),
            order,
            workers,
            |worker: WorkerInfoModel|
                worker.run_state == RunState::Running && is_named(only, worker),
        ),
{
    lemma_brought(
        workers,
        Audience::Active,
        only,
        prefix,
        order,
        |worker: WorkerInfoModel| takes_orders(worker) && is_named(only, worker),
    );
    lemma_brought(
        workers,
        Audience::NotStopped,
        only,
        prefix,
        order,
        |worker: WorkerInfoModel| worker.run_state != RunState::Stopped && is_named(only, worker),
    );
    lemma_brought(
        workers,
        Audience::Running,
        only,
        prefix,
        order,
        |worker: WorkerInfoModel| worker.run_state == RunState::Running && is_named(only, worker),
    );
}

/// The requests bring the order to the workers that run, once to each, and to no other.
pub open spec fn reaches_running(
    requests: Seq<(u32, WorkerRequestModel)>,
    order: ProxyRequestOrderModel,
    workers: Seq<WorkerInfoModel>,
) -> bool {
    brought_to(
        requests,
        order,
        workers,
        |worker: WorkerInfoModel| worker.run_state == RunState::Running,
    )
}

/// The requests bring the order to the workers that did not stop, once to each, and to no other.
pub open spec fn reaches_unstopped(
    requests: Seq<(u32, WorkerRequestModel)>,
    order: ProxyRequestOrderModel,
    workers: Seq<WorkerInfoModel>,
) -> bool {
    brought_to(
        requests,
        order,
        workers,
        |worker: WorkerInfoModel| worker.run_state != RunState::Stopped,
    )
}

/// The requests bring the order to the workers that take orders, once to each, and to no other.
pub open spec fn reaches_active(
    requests: Seq<(u32, WorkerRequestModel)>,
    order: ProxyRequestOrderModel,
    workers: Seq<WorkerInfoModel>,
) -> bool {
    brought_to(requests, order, workers, |worker: WorkerInfoModel| takes_orders(worker))
}

pub(crate) proof fn lemma_reaches(
    workers: Seq<WorkerInfoModel>,
    prefix: Seq<char>,
    order: ProxyRequestOrderModel,
)
    ensures
        reaches_running(
            super::server::requests(workers, Audience::Running, None, prefix, order),
            order,
            workers,
        ),
        reaches_unstopped(
            super::server::requests(workers, Audience::NotStopped, None, prefix, order),
            order,
            workers,
        ),
        reaches_active(
            super::server::requests(workers, Audience::Active, None, prefix, order),
            order,
            workers,
        ),
{
    lemma_brought(
        workers,
        Audience::Running,
        None,
        prefix,
        order,
        |worker: WorkerInfoModel| worker.run_state == RunState::Running,
    );
    lemma_brought(
        workers,
        Audience::NotStopped,
        None,
        prefix,
        order,
        |worker: WorkerInfoModel| worker.run_state != RunState::Stopped,
    );
    lemma_brought(
        workers,
        Audience::Active,
        None,
        prefix,
        order,
        |worker: WorkerInfoModel| takes_orders(worker),
    );
}

proof fn lemma_brought(
    workers: Seq<WorkerInfoModel>,
    audience: Audience,
    only: Option<u32>,
    prefix: Seq<char>,
    order: ProxyRequestOrderModel,
    wanted: spec_fn(WorkerInfoModel) -> bool,
)
    requires
        forall|worker: WorkerInfoModel| #[trigger]
            wanted(worker) <==> super::server::hears(audience, only, worker),
    ensures
        brought_to(
            super::server::requests(workers, audience, only, prefix, order),
            order,
            workers,
            wanted,
        ),
{
    let requests = super::server::requests(workers, audience, only, prefix, order);
    super::server::law_requests_go_to_the_audience(workers, audience, only, prefix, order);
    assert forall|k: int| 0 <= k < workers.len() && wanted(#[trigger] workers[k]) implies gets_one(
        requests,
        workers[k].id,
    ) by {
        let request = super::server::request_for(workers[k], prefix, order);
        assert(requests.contains(request));
        let i = choose|i: int| 0 <= i < requests.len() && requests[i] == request;
        assert(requests[i].0 == workers[k].id);
    }
    assert forall|i: int| 0 <= i < requests.len() implies (#[trigger] requests[i]).1.order == order
        && exists|k: int|
        0 <= k < workers.len() && wanted(#[trigger] workers[k]) && workers[k].id
            == requests[i].0 by {
        assert(super::server::is_for_hearer(workers, audience, only, prefix, order, requests[i]));
        let k = choose|k: int|
            0 <= k < workers.len() && super::server::hears(audience, only, #[trigger] workers[k])
                && requests[i] == super::server::request_for(workers[k], prefix, order);
        assert(wanted(workers[k]));
    }
    if ids_differ(workers) {
        lemma_receivers_differ(workers, audience, only, prefix, order);
        assert forall|i: int, j: int| 0 <= i < j < requests.len() implies (
        #[trigger] requests[i]).0 != (#[trigger] requests[j]).0 && requests[i].1.id
            != requests[j].1.id by {
            assert(super::server::is_for_hearer(
                workers,
                audience,
                only,
                prefix,
                order,
                requests[i],
            ));
            assert(super::server::is_for_hearer(
                workers,
                audience,
                only,
                prefix,
                order,
                requests[j],
            ));
            crate::text::lemma_prefixed_numbers_differ(
                prefix,
                requests[i].0 as nat,
                requests[j].0 as nat,
            );
        }
    }
}

/// An order that the state took goes to the workers that take orders, to all of them or to the one
/// that is named, once to each. An answer of each is waited for.
///
/// The main process stops after its workers exactly where the order is a soft or a hard stop and names
/// no worker. Exactly with these two orders the workers that got one are stopping from then on; their
/// identifiers and processes stay, and so does every other worker. A client hears at once that nobody
/// got its order, and only that.
pub proof fn law_orders_and_stops(
    server: CommandServerModel,
    client: Seq<char>,
    order: ProxyRequestOrderModel,
    worker_id: Option<u32>,
    event: OrderEvent,
    task: u64,
)
    ensures
        match server.order_step(client, order, worker_id, event) {
            OrderStepModel::Send { requests, collector, told, recount } => {
                let after = server.after_order_event(client, order, worker_id, event, task);
                &&& brought_to(
                    requests,
                    order,
                    server.workers,
                    |worker: WorkerInfoModel| takes_orders(worker) && is_named(worker_id, worker),
                )
                &&& collector.stop_main <==> (order is SoftStop || order is HardStop)
                    && worker_id is None
                &&& collector.worker_id == worker_id
                &&& collector.expected == requests.len()
                &&& collector.answers.len() == 0
                &&& is_a_stop(order) ==> {
                    &&& collector.stopping.len() == requests.len()
                    &&& forall|i: int|
                        0 <= i < requests.len() ==> #[trigger] collector.stopping[i]
                            == requests[i].0
                }
                &&& !is_a_stop(order) ==> collector.stopping.len() == 0
                &&& requests.len() == 0 <==> told is Some
                &&& told is Some ==> told->0 is Error
                &&& recount == Recount::Backends <==> requests.len() > 0 && (order is AddBackend
                    || order is RemoveBackend)
                &&& recount == Recount::Frontends <==> requests.len() > 0 && (
                order is AddHttpFrontend || order is AddHttpsFrontend || order is AddTcpFrontend
                    || order is RemoveHttpFrontend || order is RemoveHttpsFrontend
                    || order is RemoveTcpFrontend)
                &&& after.workers.len() == server.workers.len()
                &&& forall|k: int|
                    0 <= k < server.workers.len() ==> {
                        let worker = server.workers[k];
                        &&& (#[trigger] after.workers[k]).id == worker.id
                        &&& after.workers[k].pid == worker.pid
                        &&& is_a_stop(order) && takes_orders(worker) && is_named(worker_id, worker)
                            ==> after.workers[k].run_state == RunState::Stopping
                        &&& !(is_a_stop(order) && takes_orders(worker) && is_named(
                            worker_id,
                            worker,
                        )) ==> after.workers[k].run_state == worker.run_state
                    }
                &&& after.next_worker_id == server.next_worker_id
                &&& after.event_subscribers == server.event_subscribers
                &&& after.automatic_state_save == server.automatic_state_save
                &&& after.saved_state == server.saved_state
                &&& after.config_path == server.config_path
            },
            _ => server.after_order_event(client, order, worker_id, event, task) == server,
        },
{
    let prefix = client + "-worker-"@;
    law_orders_go_to_their_audience(server.workers, worker_id, prefix, order);
}

/// An order that the state took is sent at once unless the state is saved automatically, and then the
/// state is saved first, where the file says. It is sent as well once the state was saved, and in no
/// other case.
pub proof fn law_when_orders_are_sent(
    server: CommandServerModel,
    client: Seq<char>,
    order: ProxyRequestOrderModel,
    worker_id: Option<u32>,
    event: OrderEvent,
)
    ensures
        ({
            let step = server.order_step(client, order, worker_id, event);
            match event {
                OrderEvent::Accepted => if server.automatic_state_save && server.saved_state is Some {
                    step == OrderStepModel::Save(server.saved_state->0)
                } else {
                    step is Send
                },
                OrderEvent::Saved(Written::Messages(_)) => step is Send,
                OrderEvent::Saved(_) => step is Failed,
                OrderEvent::Refused(_) => step is Failed,
            }
        }),
{
}

/// Every request of an order is waited for by its task, and whatever was waited for before under
/// another identifier still is.
pub proof fn law_answers_are_waited_for(
    server: CommandServerModel,
    client: Seq<char>,
    order: ProxyRequestOrderModel,
    worker_id: Option<u32>,
    event: OrderEvent,
    task: u64,
    id: Seq<char>,
)
    requires
        crate::collections::ascending(crate::collections::keys_of(server.in_flight)),
        server.order_step(client, order, worker_id, event) is Send,
    ensures
        ({
            let requests = server.order_step(client, order, worker_id, event)->requests;
            let after = server.after_order_event(client, order, worker_id, event, task);
            crate::collections::value_at(after.in_flight, id) == if exists|i: int|
                0 <= i < requests.len() && (#[trigger] requests[i]).1.id == id {
                Some(InFlight { task, expected: 1 })
            } else {
                crate::collections::value_at(server.in_flight, id)
            }
        }),
{
    let requests = server.order_step(client, order, worker_id, event)->requests;
    super::server::law_sent_requests_are_waited_for(server.in_flight, requests, task);
}

/// A worker is closed exactly where it was told to stop and says that it did, and every conclusive
/// answer counts. A sign of life changes nothing.
pub proof fn law_stopped_workers_are_closed(
    collector: OrderCollectorModel,
    worker_id: u32,
    answer: WorkerResponseModel,
)
    ensures
        ({
            let (after, received) = collector.after(worker_id, answer);
            &&& received.close_worker is Some <==> answer.status == RequestStatus::Done
                && collector.stopping.contains(worker_id)
            &&& received.close_worker is Some ==> received.close_worker == Some(worker_id)
            &&& received.finished <==> answer.status != RequestStatus::Processing
                && collector.answers.len() + 1 == collector.expected
            &&& answer.status == RequestStatus::Processing ==> after == collector
            &&& answer.status != RequestStatus::Processing ==> {
                &&& after.answers.len() == collector.answers.len() + 1
                &&& after.answers.drop_last() == collector.answers
                &&& after.answers.last() == (crate::text::decimal(worker_id as nat), answer)
            }
            &&& after.expected == collector.expected
            &&& after.stopping == collector.stopping
            &&& after.worker_id == collector.worker_id
            &&& after.stop_main == collector.stop_main
        }),
{
    let (after, _) = collector.after(worker_id, answer);
    if answer.status != RequestStatus::Processing {
        assert(after.answers.drop_last() =~= collector.answers);
    }
}

/// The client hears of a success exactly where no answer is an error.
pub proof fn law_one_error_is_an_error(
    answers: Seq<(Seq<char>, WorkerResponseModel)>,
    success: SuccessModel,
)
    ensures
        (forall|i: int|
            0 <= i < answers.len() ==> (#[trigger] answers[i]).1.status != RequestStatus::Error)
            ==> super::collect::told(answers, success) == AdvancementModel::Done(success),
        (exists|i: int|
            0 <= i < answers.len() && (#[trigger] answers[i]).1.status == RequestStatus::Error)
            ==> super::collect::told(answers, success) is Error,
{
}

/// Answers to a change of the metrics and to a query are collected until as many are there as were
/// asked for; a sign of life is none.
pub proof fn law_all_answers_are_collected(
    metrics: MetricsCollectorModel,
    query: QueryCollectorModel,
    worker_id: u32,
    answer: WorkerResponseModel,
)
    ensures
        ({
            let (after, finished) = metrics.after(answer);
            &&& finished <==> answer.status != RequestStatus::Processing && metrics.answers.len()
                + 1 == metrics.expected
            &&& answer.status == RequestStatus::Processing ==> after == metrics
            &&& answer.status != RequestStatus::Processing ==> {
                &&& after.answers.len() == metrics.answers.len() + 1
                &&& after.answers.drop_last() == metrics.answers
                &&& after.answers.last().1 == answer
            }
            &&& after.expected == metrics.expected
            &&& after.prefix == metrics.prefix
            &&& after.config == metrics.config
        }),
        ({
            let (after, finished) = query.after(worker_id, answer);
            &&& finished <==> answer.status != RequestStatus::Processing && query.answers.len() + 1
                == query.expected
            &&& answer.status == RequestStatus::Processing ==> after == query
            &&& answer.status != RequestStatus::Processing ==> {
                &&& after.answers.len() == query.answers.len() + 1
                &&& after.answers.drop_last() == query.answers
                &&& after.answers.last() == (worker_id, answer)
            }
            &&& after.expected == query.expected
        }),
{
    if answer.status != RequestStatus::Processing {
        assert(metrics.after(answer).0.answers.drop_last() =~= metrics.answers);
        assert(query.after(worker_id, answer).0.answers.drop_last() =~= query.answers);
    }
}

/// A worker that answers the question for its state well is running, one that answers it with an error
/// is not answering, and all other workers stay as they are known. Waiting ends with the last answer,
/// or when it is late.
pub proof fn law_states_are_those_that_answer(
    collector: StatusCollectorModel,
    answer: WorkerResponseModel,
    late: bool,
    id: Seq<char>,
)
    requires
        crate::collections::ascending(crate::collections::keys_of(collector.infos)),
    ensures
        ({
            let (after, finished) = collector.after(answer, late);
            let known = crate::collections::value_at(collector.infos, id);
            let now = crate::collections::value_at(after.infos, id);
            &&& answer.status == RequestStatus::Processing ==> after == collector && !finished
            &&& answer.status != RequestStatus::Processing ==> {
                &&& after.received == collector.received + 1
                &&& finished <==> collector.received + 1 == collector.expected || late
            }
            &&& after.expected == collector.expected
            &&& crate::collections::ascending(crate::collections::keys_of(after.infos))
            &&& now is Some <==> known is Some
            &&& known is Some ==> now->0.id == known->0.id && now->0.pid == known->0.pid
            &&& known is Some && (id != answer.id || answer.status == RequestStatus::Processing)
                ==> now == known
            &&& known is Some && id == answer.id && answer.status == RequestStatus::Done
                ==> now->0.run_state == RunState::Running
            &&& known is Some && id == answer.id && answer.status == RequestStatus::Error
                ==> now->0.run_state == RunState::NotAnswering
        }),
{
    if let Some(info) = crate::collections::value_at(collector.infos, answer.id) {
        crate::collections::law_what_is_put_is_found(
            collector.infos,
            answer.id,
            WorkerInfoModel { run_state: RunState::Running, ..info },
            id,
        );
        crate::collections::law_what_is_put_is_found(
            collector.infos,
            answer.id,
            WorkerInfoModel { run_state: RunState::NotAnswering, ..info },
            id,
        );
    }
}

/// Every worker is listed with what is known of it.
pub proof fn law_every_worker_is_listed(
    workers: Seq<WorkerInfoModel>,
    prefix: Seq<char>,
    k: int,
)
    requires
        ids_differ(workers),
        0 <= k < workers.len(),
    ensures
        crate::collections::value_at(
            super::orders::infos(workers, prefix),
            prefix + crate::text::decimal(workers[k].id as nat),
        ) == Some(workers[k]),
        crate::collections::ascending(
            crate::collections::keys_of(super::orders::infos(workers, prefix)),
        ),
    decreases workers.len(),
{
    let first = workers.drop_last();
    let before = super::orders::infos(first, prefix);
    let last = workers.last();
    assert(ids_differ(first)) by {
        assert forall|i: int, j: int| 0 <= i < j < first.len() implies (#[trigger] first[i]).id != (
        #[trigger] first[j]).id by {
            assert(workers[i] == first[i] && workers[j] == first[j]);
        }
    }
    if first.len() > 0 {
        law_every_worker_is_listed(first, prefix, if k < first.len() {
            k
        } else {
            0
        });
    }
    crate::collections::law_what_is_put_is_found(
        before,
        prefix + crate::text::decimal(last.id as nat),
        last,
        prefix + crate::text::decimal(workers[k].id as nat),
    );
    if k < first.len() {
        assert(workers[k].id != workers[workers.len() - 1].id);
        crate::text::lemma_prefixed_numbers_differ(prefix, workers[k].id as nat, last.id as nat);
    }
}

/// Answers to a state or a configuration are counted as they are, and the client hears of a success
/// exactly where none is an error.
pub proof fn law_loading_succeeds_without_errors(
    collector: LoadCollector,
    status: RequestStatus,
    path: Seq<char>,
)
    requires
        collector.good < usize::MAX,
        collector.bad < usize::MAX,
    ensures
        collector.after(status).good == collector.good + (if status == RequestStatus::Done {
            1int
        } else {
            0int
        }),
        collector.after(status).bad == collector.bad + (if status == RequestStatus::Error {
            1int
        } else {
            0int
        }),
        collector.bad == 0 ==> collector.loaded(path) == AdvancementModel::Done(
            SuccessModel::LoadState(path, collector.good, 0),
        ) && collector.reloaded() == AdvancementModel::Done(
            SuccessModel::ReloadConfiguration(collector.good, 0),
        ),
        collector.bad > 0 ==> collector.loaded(path) is Error && collector.reloaded() is Error,
{
}

/// A request of a client is dealt with by the part of the main process that its order names. Orders for
/// workers are passed on, with the worker that the request names, but for changes of the metrics, the
/// level of the log, and questions.
pub proof fn law_requests_are_routed(request: CommandRequestModel)
    ensures
        match (request.order, request.task()) {
            (CommandRequestOrderModel::SaveState { path }, TaskModel::SaveState(p)) => p == path,
            (CommandRequestOrderModel::DumpState, task) => task == TaskModel::DumpState,
            (CommandRequestOrderModel::ListWorkers, task) => task == TaskModel::ListWorkers,
            (CommandRequestOrderModel::ListFrontends(filters), TaskModel::ListFrontends(f)) => f
                == filters,
            (CommandRequestOrderModel::ListListeners, task) => task == TaskModel::ListListeners,
            (CommandRequestOrderModel::LoadState { path }, TaskModel::LoadState(p)) => p == path,
            (CommandRequestOrderModel::LaunchWorker(tag), TaskModel::LaunchWorker(t)) => t == tag,
            (CommandRequestOrderModel::UpgradeMain, task) => task == TaskModel::UpgradeMain,
            (CommandRequestOrderModel::UpgradeWorker(id), TaskModel::UpgradeWorker(i)) => i == id,
            (CommandRequestOrderModel::SubscribeEvents, task) => task == TaskModel::SubscribeEvents,
            (
                CommandRequestOrderModel::ReloadConfiguration { path },
                TaskModel::ReloadConfiguration(p),
            ) => p == path,
            (CommandRequestOrderModel::Status, task) => task == TaskModel::Status,
            (CommandRequestOrderModel::Proxy(order), TaskModel::ConfigureMetrics(config)) => order
                == ProxyRequestOrderModel::ConfigureMetrics(config),
            (CommandRequestOrderModel::Proxy(order), TaskModel::SetLogging(filter)) => order
                == ProxyRequestOrderModel::Logging(filter),
            (CommandRequestOrderModel::Proxy(order), TaskModel::Query(asked)) => asked == order && (
            order is QueryAllCertificates || order is QueryCertificateByDomain
                || order is QueryCertificateByFingerprint || order is QueryClusterByDomain
                || order is QueryClusterById || order is QueryClustersHashes
                || order is QueryMetrics),
            (CommandRequestOrderModel::Proxy(order), TaskModel::WorkerOrder(passed, id)) => {
                &&& passed == order
                &&& id == request.worker_id
                &&& !(order is ConfigureMetrics) && !(order is Logging)
                &&& !(order is QueryAllCertificates || order is QueryCertificateByDomain
                    || order is QueryCertificateByFingerprint || order is QueryClusterByDomain
                    || order is QueryClusterById || order is QueryClustersHashes
                    || order is QueryMetrics)
            },
            _ => false,
        },
{
}

/// What a client asked to see comes with the answer, and nothing comes with any other answer.
pub proof fn law_answers_bring_what_was_asked_for(
    request_id: Seq<char>,
    success: SuccessModel,
    message: Seq<char>,
)
    ensures
        ({
            let answer = super::route::response(
                request_id,
                AdvancementModel::Done(success),
                message,
            );
            &&& answer.message == message
            &&& match success {
                SuccessModel::DumpState(content) => answer.content == Some(content),
                SuccessModel::ListFrontends(content) => answer.content == Some(content),
                SuccessModel::ListListeners(content) => answer.content == Some(content),
                SuccessModel::ListWorkers(content) => answer.content == Some(content),
                SuccessModel::Status(content) => answer.content == Some(content),
                SuccessModel::Query(content) => answer.content == Some(content),
                _ => answer.content is None,
            }
        }),
        super::route::response(request_id, AdvancementModel::Error(message), message).message
            == message,
        super::route::response(request_id, AdvancementModel::Processing(message), message).message
            == message,
        super::route::response(request_id, AdvancementModel::Processing(message), message).status
            == RequestStatus::Processing,
{
}

/// The frontends of a kind are listed where it is asked for, or where no kind is. TCP frontends have
/// no hostname, so none is listed for a domain.
pub proof fn law_kinds_of_frontends_are_listed(
    filters: FrontendFiltersModel,
    http: Seq<crate::proxy::HttpFrontendModel>,
    https: Seq<crate::proxy::HttpFrontendModel>,
    tcp: Seq<crate::proxy::TcpFrontendModel>,
)
    ensures
        ({
            let listed = filters.listed(http, https, tcp);
            let all = !filters.http && !filters.https && !filters.tcp;
            &&& listed.http_frontends == (if filters.http || all {
                super::listing::in_domain(http, filters.domain)
            } else {
                Seq::empty()
            })
            &&& listed.https_frontends == (if filters.https || all {
                super::listing::in_domain(https, filters.domain)
            } else {
                Seq::empty()
            })
            &&& listed.tcp_frontends == (if (filters.tcp || all) && filters.domain is None {
                tcp
            } else {
                Seq::empty()
            })
        }),
{
}

/// A replacement that fails leaves all workers as they are, and ends.
pub proof fn law_failed_upgrade_keeps_the_workers(
    upgrade: WorkerUpgrade,
    event: UpgradeEventModel,
    server: CommandServerModel,
    client: Seq<char>,
    task: u64,
)
    ensures
        ({
            let (after, now, step) = upgrade.after(event, server, client, task);
            &&& step is Failed ==> now == server && after.phase == UpgradePhase::Over
            &&& event is NotLaunched || event is NoChannel || event is NotGreeted
                || event is NotConnected ==> step is Failed
            &&& event is Start ==> (step is Failed <==> forall|k: int|
                0 <= k < server.workers.len() ==> !((#[trigger] server.workers[k]).id == upgrade.id
                    && takes_orders(server.workers[k])))
            &&& !(event is Start || event is NotLaunched || event is NoChannel
                || event is NotGreeted || event is NotConnected) ==> !(step is Failed)
        }),
{
    if event is Start {
        if server.can_upgrade(upgrade.id) {
            let k = choose|k: int|
                0 <= k < server.workers.len() && (#[trigger] server.workers[k]).id == upgrade.id
                    && Audience::Active.includes(server.workers[k].run_state);
            assert(takes_orders(server.workers[k]));
        } else {
            assert forall|k: int| 0 <= k < server.workers.len() implies !((
            #[trigger] server.workers[k]).id == upgrade.id && takes_orders(
                server.workers[k],
            )) by {
                assert(!Audience::Active.includes(server.workers[k].run_state)
                    || server.workers[k].id != upgrade.id);
            }
        }
    }
}

/// How a worker is replaced, step by step:
/// - a worker with the next identifier is launched, and that identifier is used up;
/// - the new worker is asked for its state, and the old one for its listening sockets;
/// - the old worker is asked again while fewer than fifty attempts were in vain, each a tenth of a
///   second later; after the last one it is told to stop as well;
/// - the old worker, and no other, is stopping from then on;
/// - at the end the new worker runs beside all others, and gets the orders that start its listeners,
///   each of them once and in their order.
pub proof fn law_how_a_worker_is_replaced(
    upgrade: WorkerUpgrade,
    event: UpgradeEventModel,
    server: CommandServerModel,
    client: Seq<char>,
    task: u64,
)
    requires
        upgrade.wf(),
        upgrade.accepts(event, server),
    ensures
        ({
            let (after, now, step) = upgrade.after(event, server, client, task);
            &&& after.id == upgrade.id
            &&& match event {
                UpgradeEventModel::Start => step is Failed || step == UpgradeStepModel::Launch(
                    server.next_worker_id,
                ),
                UpgradeEventModel::Launched(pid) => {
                    &&& after.new_id == server.next_worker_id
                    &&& after.pid == pid
                    &&& now.next_worker_id == server.next_worker_id + 1
                    &&& now.workers == server.workers
                    &&& step matches UpgradeStepModel::Greet(request) && request.order
                        == ProxyRequestOrderModel::Status
                },
                UpgradeEventModel::Greeted => {
                    &&& now.workers == server.workers
                    &&& after.failed == 0
                    &&& step matches UpgradeStepModel::Fetch(request) && request.order
                        == ProxyRequestOrderModel::ReturnListenSockets
                },
                UpgradeEventModel::NoSockets => {
                    &&& after.failed == upgrade.failed + 1
                    &&& upgrade.failed + 1 < 50 ==> {
                        &&& step == UpgradeStepModel::Retry(100)
                        &&& now == server
                        &&& after.phase == UpgradePhase::Fetching
                    }
                    &&& upgrade.failed + 1 >= 50 ==> {
                        &&& step matches UpgradeStepModel::Stop { request, sockets }
                            && request.order == ProxyRequestOrderModel::SoftStop && !sockets
                        &&& is_stopping_only(server.workers, now.workers, upgrade.id)
                    }
                },
                UpgradeEventModel::Sockets => {
                    &&& step matches UpgradeStepModel::Stop { request, sockets } && request.order
                        == ProxyRequestOrderModel::SoftStop && sockets
                    &&& is_stopping_only(server.workers, now.workers, upgrade.id)
                },
                UpgradeEventModel::Connected(orders) => {
                    &&& now.workers.len() == server.workers.len() + 1
                    &&& now.workers.drop_last() == server.workers
                    &&& now.workers.last().id == upgrade.new_id
                    &&& now.workers.last().pid == upgrade.pid
                    &&& now.workers.last().run_state == RunState::Running
                    &&& after.phase == UpgradePhase::Over
                    &&& step matches UpgradeStepModel::Finished(requests, success) && {
                        &&& success == SuccessModel::UpgradeWorker(upgrade.new_id)
                        &&& requests.len() == orders.len()
                        &&& forall|i: int|
                            0 <= i < orders.len() ==> (#[trigger] requests[i]).order == orders[i]
                        &&& forall|i: int, j: int|
                            0 <= i < j < orders.len() ==> (#[trigger] requests[i]).id != (
                            #[trigger] requests[j]).id
                    }
                },
                _ => step is Failed,
            }
        }),
{
    match event {
        UpgradeEventModel::NoSockets => {
            if upgrade.failed + 1 >= 50 {
                lemma_stopping_only(server.workers, upgrade.id);
            }
        },
        UpgradeEventModel::Sockets => {
            lemma_stopping_only(server.workers, upgrade.id);
        },
        UpgradeEventModel::Connected(orders) => {
            let now = upgrade.after(event, server, client, task).1;
            assert(now.workers.drop_last() =~= server.workers);
            let requests = super::workers::activations(client, orders);
            assert forall|i: int, j: int| 0 <= i < j < orders.len() implies (
            #[trigger] requests[i]).id != (#[trigger] requests[j]).id by {
                crate::text::lemma_prefixed_numbers_differ(
                    client + "-ACTIVATE-"@,
                    i as nat,
                    j as nat,
                );
            }
        },
        _ => {},
    }
}

/// The first worker of this identifier is stopping, and nothing else changed.
pub open spec fn is_stopping_only(
    before: Seq<WorkerInfoModel>,
    after: Seq<WorkerInfoModel>,
    id: u32,
) -> bool {
    &&& after.len() == before.len()
    &&& forall|k: int|
        0 <= k < before.len() ==> {
            let first = before[k].id == id && forall|j: int|
                0 <= j < k ==> (#[trigger] before[j]).id != id;
            &&& (#[trigger] after[k]).id == before[k].id
            &&& after[k].pid == before[k].pid
            &&& first ==> after[k].run_state == RunState::Stopping
            &&& !first ==> after[k].run_state == before[k].run_state
        }
}

proof fn lemma_stopping_only(workers: Seq<WorkerInfoModel>, id: u32)
    ensures
        is_stopping_only(workers, super::workers::stopped_at(workers, id), id),
    decreases workers.len(),
{
    let after = super::workers::stopped_at(workers, id);
    if workers.len() > 0 && workers[0].id != id {
        let tail = workers.drop_first();
        lemma_stopping_only(tail, id);
        let rest = super::workers::stopped_at(tail, id);
        assert(after =~= seq![workers[0]] + rest);
        assert forall|k: int| 0 <= k < workers.len() implies {
            let first = workers[k].id == id && forall|j: int|
                0 <= j < k ==> (#[trigger] workers[j]).id != id;
            &&& (#[trigger] after[k]).id == workers[k].id
            &&& after[k].pid == workers[k].pid
            &&& first ==> after[k].run_state == RunState::Stopping
            &&& !first ==> after[k].run_state == workers[k].run_state
        } by {
            if k > 0 {
                assert(after[k] == rest[k - 1]);
                assert(tail[k - 1] == workers[k]);
                let first = workers[k].id == id && forall|j: int|
                    0 <= j < k ==> (#[trigger] workers[j]).id != id;
                let first_in_tail = tail[k - 1].id == id && forall|j: int|
                    0 <= j < k - 1 ==> (#[trigger] tail[j]).id != id;
                if first {
                    assert forall|j: int| 0 <= j < k - 1 implies (#[trigger] tail[j]).id != id by {
                        assert(workers[j + 1] == tail[j]);
                    }
                }
                if first_in_tail {
                    assert forall|j: int| 0 <= j < k implies (#[trigger] workers[j]).id != id by {
                        if j > 0 {
                            assert(tail[j - 1] == workers[j]);
                        }
                    }
                }
            }
        }
    } else if workers.len() > 0 {
        assert forall|k: int| 0 <= k < workers.len() implies {
            let first = workers[k].id == id && forall|j: int|
                0 <= j < k ==> (#[trigger] workers[j]).id != id;
            &&& (#[trigger] after[k]).id == workers[k].id
            &&& after[k].pid == workers[k].pid
            &&& first ==> after[k].run_state == RunState::Stopping
            &&& !first ==> after[k].run_state == workers[k].run_state
        } by {
            if k > 0 {
                assert(workers[0].id == id);
            }
        }
    }
}

/// A worker that is launched runs under the next identifier beside all others, and gets the orders
/// that start its listeners.
pub proof fn law_launched_workers_run(server: CommandServerModel, id: u32, pid: i32)
    ensures
        ({
            let after = server.with_worker(id, pid);
            &&& after.workers.len() == server.workers.len() + 1
            &&& after.workers.drop_last() == server.workers
            &&& after.workers.last().id == id
            &&& after.workers.last().pid == pid
            &&& after.workers.last().run_state == RunState::Running
            &&& after.next_worker_id == server.next_worker_id
            &&& after.in_flight == server.in_flight
            &&& after.event_subscribers == server.event_subscribers
            &&& after.automatic_state_save == server.automatic_state_save
            &&& after.saved_state == server.saved_state
            &&& after.config_path == server.config_path
        }),
{
    assert(server.with_worker(id, pid).workers.drop_last() =~= server.workers);
}

/// The orders that start the listeners of a worker are sent each once, in their order, under different
/// identifiers.
pub proof fn law_activations_bring_the_orders(
    start: Seq<char>,
    orders: Seq<ProxyRequestOrderModel>,
)
    ensures
        ({
            let requests = super::workers::activations(start, orders);
            &&& requests.len() == orders.len()
            &&& forall|i: int|
                0 <= i < orders.len() ==> (#[trigger] requests[i]).order == orders[i]
            &&& forall|i: int, j: int|
                0 <= i < j < orders.len() ==> (#[trigger] requests[i]).id != (
                #[trigger] requests[j]).id
        }),
{
    let requests = super::workers::activations(start, orders);
    assert forall|i: int, j: int| 0 <= i < j < orders.len() implies (#[trigger] requests[i]).id != (
    #[trigger] requests[j]).id by {
        crate::text::lemma_prefixed_numbers_differ(start + "-ACTIVATE-"@, i as nat, j as nat);
    }
}

/// An order of a saved state is sent to exactly the workers that take orders, once the state took it,
/// and counts as a change; one that the state did not take is not sent. Where no worker is there for
/// it, loading fails.
pub proof fn law_loaded_orders_are_sent(
    loader: LoaderModel,
    event: LoadEventModel,
    server: CommandServerModel,
)
    requires
        loader.wf(),
        loader.accepts(event),
    ensures
        ({
            let (after, step) = loader.after(event, server);
            let sent = loader.sent(event, server);
            &&& event == LoadEventModel::Dispatched(true) ==> {
                &&& brought_to(
                    sent,
                    loader.pending[loader.next as int].order->Proxy_0,
                    server.workers,
                    |worker: WorkerInfoModel| takes_orders(worker) && is_named(None, worker),
                )
                &&& after.diffs == loader.diffs + 1
                &&& step is Failed <==> sent.len() == 0
            }
            &&& event != LoadEventModel::Dispatched(true) ==> sent.len() == 0 && after.diffs
                == loader.diffs
            &&& event is Dispatched && !(step is Failed) ==> step is Dispatch || step is Read
            &&& after.request_id == loader.request_id
        }),
{
    law_orders_go_to_their_audience(
        server.workers,
        None,
        super::orders::change_prefix(loader.request_id, loader.diffs + 1),
        loader.current(),
    );
}

/// What is read of a saved state comes behind what is there; what its requests took is given up once
/// all of them were dealt with, and nothing else is. Loading ends well only at the end of the data, at
/// a request that is not understood, or with a buffer full of what is no request.
pub proof fn law_saved_state_is_read_through(
    loader: LoaderModel,
    event: LoadEventModel,
    server: CommandServerModel,
)
    requires
        loader.accepts(event),
        loader.consumed <= loader.buffer.data.len(),
    ensures
        ({
            let (after, step) = loader.after(event, server);
            &&& match event {
                LoadEventModel::Read(bytes) => {
                    &&& after.buffer.data == loader.buffer.data + bytes
                    &&& step is Finished <==> loader.buffer.data.len() + bytes.len() == 0
                    &&& !(step is Finished) ==> step is Parse && after.phase == LoadPhase::Parsing
                },
                LoadEventModel::Incomplete => {
                    &&& after.buffer.data == loader.buffer.data
                    &&& step is Finished <==> loader.buffer.data.len() == loader.buffer.capacity
                    &&& !(step is Finished) ==> step is Read && after.phase == LoadPhase::Reading
                },
                LoadEventModel::Parsed(requests, n) => {
                    &&& step is Failed <==> n < loader.buffer.data.len() && loader.previous
                        == loader.buffer.data.len()
                    &&& step is Finished <==> !(step is Failed) && exists|i: int|
                        0 <= i < requests.len() && (#[trigger] requests[i]).version
                            > super::types::PROTOCOL_VERSION
                    &&& step is Dispatch ==> after.buffer.data == loader.buffer.data
                        && after.consumed == n
                    &&& step is Read ==> after.buffer.data == loader.buffer.data.skip(n as int)
                },
                LoadEventModel::Dispatched(_) => {
                    &&& step is Dispatch ==> after.buffer.data == loader.buffer.data
                        && after.consumed == loader.consumed
                    &&& step is Read ==> after.buffer.data == loader.buffer.data.skip(
                        loader.consumed as int,
                    )
                    &&& !(step is Finished)
                },
                _ => step is Failed,
            }
            &&& step matches LoadStepModel::Read { room } ==> room == after.buffer.space()
        }),
{
    let data = loader.buffer.data;
    assert(data.skip(0) =~= data);
    if let LoadEventModel::Parsed(requests, n) = event {
        if super::load::too_new(requests) {
            let i = choose|i: int|
                0 <= i < requests.len() && (#[trigger] requests[i]).version
                    > super::types::PROTOCOL_VERSION;
            assert(requests[i].version > super::types::PROTOCOL_VERSION);
        }
    }
}

/// The orders of the messages that the state accepted are the changes: each of them is one, there are
/// no others, and they keep their order.
pub proof fn law_accepted_orders_are_changes(
    messages: Seq<CommandRequestModel>,
    accepted: Seq<bool>,
)
    requires
        accepted.len() == messages.len(),
    ensures
        ({
            let changes = super::orders::changes(messages, accepted);
            &&& forall|i: int|
                0 <= i < messages.len() && accepted[i] && (#[trigger] messages[i]).order is Proxy
                    ==> changes.contains(messages[i].order->Proxy_0)
            &&& forall|k: int|
                0 <= k < changes.len() ==> is_accepted(
                    messages,
                    accepted,
                    #[trigger] changes[k],
                )
            &&& (forall|i: int|
                0 <= i < messages.len() ==> accepted[i] && (#[trigger] messages[i]).order is Proxy)
                ==> changes == Seq::new(messages.len(), |i: int| messages[i].order->Proxy_0)
        }),
    decreases messages.len(),
{
    let changes = super::orders::changes(messages, accepted);
    if messages.len() == 0 {
        assert(changes =~= Seq::new(messages.len(), |i: int| messages[i].order->Proxy_0));
    } else {
        let first = messages.drop_last();
        let said = accepted.drop_last();
        lemma_changes_of(first, said, accepted);
        law_accepted_orders_are_changes(first, said);
        let before = super::orders::changes(first, said);
        assert forall|i: int|
            0 <= i < messages.len() && accepted[i] && (#[trigger] messages[i]).order is Proxy implies changes.contains(
            messages[i].order->Proxy_0,
        ) by {
            let order = messages[i].order->Proxy_0;
            if i < first.len() {
                assert(first[i] == messages[i] && said[i] == accepted[i]);
                assert(before.contains(order));
                let k = before.index_of(order);
                assert(changes[k] == order);
            } else {
                assert(changes[changes.len() - 1] == order);
            }
        }
        assert forall|k: int| 0 <= k < changes.len() implies is_accepted(
            messages,
            accepted,
            #[trigger] changes[k],
        ) by {
            if k < before.len() {
                assert(changes[k] == before[k]);
                assert(is_accepted(first, said, before[k]));
                let i = choose|i: int|
                    0 <= i < first.len() && said[i] && (#[trigger] first[i]).order
                        == CommandRequestOrderModel::Proxy(before[k]);
                assert(messages[i] == first[i] && accepted[i] == said[i]);
            } else {
                assert(messages[messages.len() - 1].order == CommandRequestOrderModel::Proxy(
                    changes[k],
                ));
            }
        }
        if forall|i: int|
            0 <= i < messages.len() ==> accepted[i] && (#[trigger] messages[i]).order is Proxy {
            assert forall|i: int| 0 <= i < first.len() implies said[i] && (
            #[trigger] first[i]).order is Proxy by {
                assert(messages[i] == first[i] && accepted[i] == said[i]);
            }
            assert(messages[messages.len() - 1].order is Proxy);
            assert(changes =~= Seq::new(messages.len(), |i: int| messages[i].order->Proxy_0));
        }
    }
}

proof fn lemma_changes_of(
    messages: Seq<CommandRequestModel>,
    said: Seq<bool>,
    accepted: Seq<bool>,
)
    requires
        said.len() >= messages.len(),
        said.is_prefix_of(accepted),
    ensures
        super::orders::changes(messages, said) == super::orders::changes(messages, accepted),
    decreases messages.len(),
{
    if messages.len() > 0 {
        lemma_changes_of(messages.drop_last(), said, accepted);
        assert(said[messages.len() - 1] == accepted[messages.len() - 1]);
    }
}

/// The order is one of an accepted message.
pub open spec fn is_accepted(
    messages: Seq<CommandRequestModel>,
    accepted: Seq<bool>,
    order: ProxyRequestOrderModel,
) -> bool {
    exists|i: int|
        0 <= i < messages.len() && accepted[i] && (#[trigger] messages[i]).order
            == CommandRequestOrderModel::Proxy(order)
}

/// The requests that bring the last change are behind all others.
proof fn lemma_last_change(
    workers: Seq<WorkerInfoModel>,
    request: Seq<char>,
    changes: Seq<ProxyRequestOrderModel>,
)
    requires
        changes.len() > 0,
    ensures
        ({
            let before = super::orders::change_requests(workers, request, changes.drop_last());
            let prefix = super::orders::change_prefix(request, changes.len());
            let last = super::server::requests(
                workers,
                Audience::Active,
                None,
                prefix,
                changes.last(),
            );
            &&& super::orders::change_requests(workers, request, changes) == before + last
            &&& brought_to(
                last,
                changes.last(),
                workers,
                |worker: WorkerInfoModel| takes_orders(worker) && is_named(None, worker),
            )
        }),
{
    let prefix = super::orders::change_prefix(request, changes.len());
    law_orders_go_to_their_audience(workers, None, prefix, changes.last());
}

#[verifier::spinoff_prover]
proof fn lemma_change_reaches(
    workers: Seq<WorkerInfoModel>,
    request: Seq<char>,
    changes: Seq<ProxyRequestOrderModel>,
    c: int,
    k: int,
)
    requires
        0 <= c < changes.len(),
        0 <= k < workers.len(),
        takes_orders(workers[k]),
    ensures
        is_sent(
            super::orders::change_requests(workers, request, changes),
            workers[k].id,
            changes[c],
        ),
    decreases changes.len(),
{
    let sent = super::orders::change_requests(workers, request, changes);
    let first = changes.drop_last();
    let before = super::orders::change_requests(workers, request, first);
    let prefix = super::orders::change_prefix(request, changes.len());
    let last = super::server::requests(workers, Audience::Active, None, prefix, changes.last());
    lemma_last_change(workers, request, changes);
    let id = workers[k].id;
    if c < first.len() {
        lemma_change_reaches(workers, request, first, c, k);
        let i = choose|i: int|
            0 <= i < before.len() && (#[trigger] before[i]).0 == id && before[i].1.order
                == first[c];
        assert(sent[i] == before[i]);
    } else {
        assert(gets_one(last, id));
        let i = choose|i: int| 0 <= i < last.len() && (#[trigger] last[i]).0 == id;
        assert(sent[before.len() + i] == last[i]);
    }
}

#[verifier::spinoff_prover]
proof fn lemma_change_is_wanted(
    workers: Seq<WorkerInfoModel>,
    request: Seq<char>,
    changes: Seq<ProxyRequestOrderModel>,
    i: int,
)
    requires
        0 <= i < super::orders::change_requests(workers, request, changes).len(),
    ensures
        ({
            let sent = super::orders::change_requests(workers, request, changes);
            &&& changes.contains(sent[i].1.order)
            &&& exists|k: int|
                0 <= k < workers.len() && takes_orders(#[trigger] workers[k]) && workers[k].id
                    == sent[i].0
        }),
    decreases changes.len(),
{
    let sent = super::orders::change_requests(workers, request, changes);
    if changes.len() > 0 {
        let first = changes.drop_last();
        let before = super::orders::change_requests(workers, request, first);
        let prefix = super::orders::change_prefix(request, changes.len());
        let last = super::server::requests(workers, Audience::Active, None, prefix, changes.last());
        lemma_last_change(workers, request, changes);
        if i < before.len() {
            lemma_change_is_wanted(workers, request, first, i);
            let order = before[i].1.order;
            let c = choose|c: int| 0 <= c < first.len() && first[c] == order;
            assert(changes[c] == order);
            assert(sent[i] == before[i]);
        } else {
            assert(sent[i] == last[i - before.len()]);
            assert(changes[changes.len() - 1] == changes.last());
        }
    }
}

/// Every change of a configuration goes to every worker that takes orders, and nothing else goes to
/// any worker.
pub proof fn law_changes_reach_all_workers(
    workers: Seq<WorkerInfoModel>,
    request: Seq<char>,
    changes: Seq<ProxyRequestOrderModel>,
)
    ensures
        ({
            let sent = super::orders::change_requests(workers, request, changes);
            &&& forall|c: int, k: int|
                0 <= c < changes.len() && 0 <= k < workers.len() && takes_orders(
                    #[trigger] workers[k],
                ) ==> is_sent(sent, workers[k].id, #[trigger] changes[c])
            &&& forall|i: int|
                0 <= i < sent.len() ==> {
                    &&& changes.contains((#[trigger] sent[i]).1.order)
                    &&& exists|k: int|
                        0 <= k < workers.len() && takes_orders(#[trigger] workers[k])
                            && workers[k].id == sent[i].0
                }
        }),
{
    let sent = super::orders::change_requests(workers, request, changes);
    assert forall|c: int, k: int|
        0 <= c < changes.len() && 0 <= k < workers.len() && takes_orders(
            #[trigger] workers[k],
        ) implies is_sent(sent, workers[k].id, #[trigger] changes[c]) by {
        lemma_change_reaches(workers, request, changes, c, k);
    }
    assert forall|i: int| 0 <= i < sent.len() implies changes.contains(
        (#[trigger] sent[i]).1.order,
    ) && exists|k: int|
        0 <= k < workers.len() && takes_orders(#[trigger] workers[k]) && workers[k].id
            == sent[i].0 by {
        lemma_change_is_wanted(workers, request, changes, i);
    }
}

/// One of the requests brings the order to the worker.
pub open spec fn is_sent(
    sent: Seq<(u32, WorkerRequestModel)>,
    id: u32,
    order: ProxyRequestOrderModel,
) -> bool {
    exists|i: int| 0 <= i < sent.len() && (#[trigger] sent[i]).0 == id && sent[i].1.order == order
}

/// The client sees of every worker what it said last, and of nobody anything else.
pub proof fn law_answers_stand_under_their_workers(
    answers: Seq<(u32, WorkerResponseModel)>,
    i: int,
)
    requires
        0 <= i < answers.len(),
        answers[i].1.content is Some,
        forall|k: int|
            i < k < answers.len() ==> (#[trigger] answers[k]).0 != answers[i].0
                || answers[k].1.content is None,
    ensures
        crate::collections::value_at(
            super::collect::contents(answers),
            crate::text::decimal(answers[i].0 as nat),
        ) == answers[i].1.content,
    decreases answers.len(),
{
    lemma_contents_ascend(answers.drop_last());
    let before = super::collect::contents(answers.drop_last());
    let key = crate::text::decimal(answers[i].0 as nat);
    let last = answers.last();
    if i < answers.len() - 1 {
        let first = answers.drop_last();
        assert forall|k: int| i < k < first.len() implies (#[trigger] first[k]).0 != first[i].0
            || first[k].1.content is None by {
            assert(answers[k] == first[k]);
        }
        law_answers_stand_under_their_workers(first, i);
        if let Some(content) = last.1.content {
            assert(answers[answers.len() - 1].0 != answers[i].0);
            if crate::text::decimal(last.0 as nat) == key {
                crate::text::lemma_decimal_injective(last.0 as nat, answers[i].0 as nat);
            }
            crate::collections::law_what_is_put_is_found(
                before,
                crate::text::decimal(last.0 as nat),
                content,
                key,
            );
        }
    } else {
        crate::collections::law_what_is_put_is_found(before, key, last.1.content->0, key);
    }
}

proof fn lemma_contents_ascend(answers: Seq<(u32, WorkerResponseModel)>)
    ensures
        crate::collections::ascending(
            crate::collections::keys_of(super::collect::contents(answers)),
        ),
    decreases answers.len(),
{
    if answers.len() > 0 {
        lemma_contents_ascend(answers.drop_last());
        if let Some(content) = answers.last().1.content {
            crate::collections::law_what_is_put_is_found(
                super::collect::contents(answers.drop_last()),
                crate::text::decimal(answers.last().0 as nat),
                content,
                Seq::empty(),
            );
        }
    }
}

/// What is told of a query: the contents that the workers sent, to which the main process adds its own
/// where the question is one for clusters; for metrics, their names or their values, as was asked. A
/// question for all certificates, and anything that is no question, is not answered.
pub proof fn law_queries_are_answered(
    order: ProxyRequestOrderModel,
    contents: Seq<(Seq<char>, WorkerContentModel)>,
    main_answer: Option<WorkerContentModel>,
    main_metrics: Seq<char>,
    key: Seq<char>,
)
    requires
        crate::collections::ascending(crate::collections::keys_of(contents)),
    ensures
        ({
            let answer = super::collect::query_answer(order, contents, main_answer, main_metrics);
            let of_clusters = order is QueryClustersHashes || order is QueryClusterById
                || order is QueryClusterByDomain;
            &&& answer is None <==> !(of_clusters || order is QueryCertificateByDomain
                || order is QueryCertificateByFingerprint || order is QueryMetrics)
            &&& of_clusters && main_answer is Some ==> (answer matches Some(
                ResponseContentModel::Query(told),
            ) && crate::collections::value_at(told, key) == (if key == "main"@ {
                main_answer
            } else {
                crate::collections::value_at(contents, key)
            }))
            &&& order is QueryCertificateByDomain || order is QueryCertificateByFingerprint
                ==> answer == Some(ResponseContentModel::Query(contents))
            &&& order matches ProxyRequestOrderModel::QueryMetrics(options) ==> (if options.list {
                answer matches Some(ResponseContentModel::AvailableMetrics(told))
                    && told.main.len() == 0 && crate::collections::value_at(told.workers, key) == (
                match crate::collections::value_at(contents, key) {
                    Some(WorkerContentModel::AvailableMetrics(names)) => Some(names),
                    _ => None,
                })
            } else {
                answer matches Some(ResponseContentModel::Metrics(told)) && told.main
                    == main_metrics && crate::collections::value_at(told.workers, key) == (
                match crate::collections::value_at(contents, key) {
                    Some(WorkerContentModel::Metrics(values)) => Some(values),
                    _ => None,
                })
            })
            &&& super::collect::needs_main(order) <==> of_clusters
        }),
{
    law_metrics_are_those_of_their_workers(contents, key);
    if main_answer is Some {
        crate::collections::law_what_is_put_is_found(contents, "main"@, main_answer->0, key);
    }
}

/// While a worker is replaced, the old worker's answers to the request for its sockets and to the order
/// to stop are waited for by the task, and whatever was waited for before still is. Nothing but the
/// workers, the next identifier and what is waited for ever changes.
pub proof fn law_upgrade_waits_for_the_old_worker(
    upgrade: WorkerUpgrade,
    event: UpgradeEventModel,
    server: CommandServerModel,
    client: Seq<char>,
    task: u64,
    id: Seq<char>,
)
    requires
        crate::collections::ascending(crate::collections::keys_of(server.in_flight)),
    ensures
        ({
            let (_, now, step) = upgrade.after(event, server, client, task);
            let asked = match step {
                UpgradeStepModel::Fetch(request) => Some(request.id),
                UpgradeStepModel::Stop { request, .. } => Some(request.id),
                _ => None,
            };
            &&& crate::collections::value_at(now.in_flight, id) == if asked == Some(id) {
                Some(InFlight { task, expected: 1 })
            } else {
                crate::collections::value_at(server.in_flight, id)
            }
            &&& now.event_subscribers == server.event_subscribers
            &&& now.automatic_state_save == server.automatic_state_save
            &&& now.saved_state == server.saved_state
            &&& now.config_path == server.config_path
            &&& !(event is Launched) ==> now.next_worker_id == server.next_worker_id
        }),
{
    let entry = InFlight { task, expected: 1 };
    crate::collections::law_what_is_put_is_found(
        server.in_flight,
        super::workers::sockets_request(client).id,
        entry,
        id,
    );
    crate::collections::law_what_is_put_is_found(
        server.in_flight,
        super::workers::soft_stop_request(client).id,
        entry,
        id,
    );
}

/// What a replacement waits for next, and that it never goes back.
pub proof fn law_upgrade_goes_on(
    upgrade: WorkerUpgrade,
    event: UpgradeEventModel,
    server: CommandServerModel,
    client: Seq<char>,
    task: u64,
)
    requires
        upgrade.wf(),
        upgrade.accepts(event, server),
    ensures
        ({
            let (after, _, step) = upgrade.after(event, server, client, task);
            &&& after.phase == (match step {
                UpgradeStepModel::Launch(_) => UpgradePhase::Launching,
                UpgradeStepModel::Greet(_) => UpgradePhase::Greeting,
                UpgradeStepModel::Fetch(_) => UpgradePhase::Fetching,
                UpgradeStepModel::Retry(_) => UpgradePhase::Fetching,
                UpgradeStepModel::Stop { .. } => UpgradePhase::Handing,
                UpgradeStepModel::Finished(_, _) => UpgradePhase::Over,
                UpgradeStepModel::Failed(_) => UpgradePhase::Over,
            })
            &&& after.wf()
            &&& !(event is Launched) ==> after.new_id == upgrade.new_id && after.pid == upgrade.pid
        }),
{
}

/// An answer to a change of the metrics stands under what follows the prefix of its identifier.
pub proof fn law_metrics_answers_stand_under_their_workers(
    metrics: MetricsCollectorModel,
    answer: WorkerResponseModel,
    worker: Seq<char>,
)
    requires
        answer.status != RequestStatus::Processing,
        answer.id == metrics.prefix + worker,
        metrics.prefix.len() > 0,
        !metrics.prefix.is_prefix_of(worker),
    ensures
        metrics.after(answer).0.answers.last() == (worker, answer),
{
    let prefix = metrics.prefix;
    let n = prefix.len() as int;
    assert(answer.id.take(n) =~= prefix);
    assert(answer.id.skip(n) =~= worker);
    if super::collect::starts_with(worker, prefix) {
        assert(prefix =~= worker.subrange(0, n));
    }
    reveal_with_fuel(super::collect::without_prefix, 3);
}

/// The client sees the names, or the values, of the metrics of exactly those workers that sent them.
pub proof fn law_metrics_are_those_of_their_workers(
    contents: Seq<(Seq<char>, WorkerContentModel)>,
    key: Seq<char>,
)
    requires
        crate::collections::ascending(crate::collections::keys_of(contents)),
    ensures
        crate::collections::value_at(super::collect::available(contents), key) == match crate::collections::value_at(
            contents,
            key,
        ) {
            Some(WorkerContentModel::AvailableMetrics(names)) => Some(names),
            _ => None,
        },
        crate::collections::value_at(super::collect::metrics(contents), key) == match crate::collections::value_at(
            contents,
            key,
        ) {
            Some(WorkerContentModel::Metrics(values)) => Some(values),
            _ => None,
        },
        crate::collections::ascending(
            crate::collections::keys_of(super::collect::available(contents)),
        ),
        crate::collections::ascending(
            crate::collections::keys_of(super::collect::metrics(contents)),
        ),
    decreases contents.len(),
{
    if contents.len() > 0 {
        let first = contents.drop_last();
        let (last, content) = contents.last();
        assert forall|i: int, j: int|
            0 <= i < j < first.len() implies crate::collections::text_before(
            #[trigger] crate::collections::keys_of(first)[i],
            #[trigger] crate::collections::keys_of(first)[j],
        ) by {
            assert(crate::collections::keys_of(contents)[i] == first[i].0);
            assert(crate::collections::keys_of(contents)[j] == first[j].0);
        }
        law_metrics_are_those_of_their_workers(first, key);
        lemma_last_value(contents, key);
        lemma_not_before_the_last(contents);
        match content {
            WorkerContentModel::AvailableMetrics(names) => {
                crate::collections::law_what_is_put_is_found(
                    super::collect::available(first),
                    last,
                    names,
                    key,
                );
            },
            WorkerContentModel::Metrics(values) => {
                crate::collections::law_what_is_put_is_found(
                    super::collect::metrics(first),
                    last,
                    values,
                    key,
                );
            },
            _ => {},
        }
    }
}

/// The last key stands nowhere else.
proof fn lemma_not_before_the_last(contents: Seq<(Seq<char>, WorkerContentModel)>)
    requires
        contents.len() > 0,
        crate::collections::ascending(crate::collections::keys_of(contents)),
    ensures
        crate::collections::value_at(contents.drop_last(), contents.last().0) is None,
{
    let first = contents.drop_last();
    let key = contents.last().0;
    assert forall|i: int| 0 <= i < first.len() implies (#[trigger] first[i]).0 != key by {
        let keys = crate::collections::keys_of(contents);
        assert(crate::collections::text_before(keys[i], keys[contents.len() - 1]));
        crate::collections::lemma_text_before_irreflexive(key);
        assert(keys[i] == first[i].0);
    }
    lemma_absent(first, key);
}

proof fn lemma_absent(entries: Seq<(Seq<char>, WorkerContentModel)>, key: Seq<char>)
    requires
        forall|i: int| 0 <= i < entries.len() ==> (#[trigger] entries[i]).0 != key,
    ensures
        crate::collections::value_at(entries, key) is None,
    decreases entries.len(),
{
    if entries.len() > 0 {
        let rest = entries.drop_first();
        assert(entries[0].0 != key);
        assert forall|i: int| 0 <= i < rest.len() implies (#[trigger] rest[i]).0 != key by {
            assert(rest[i] == entries[i + 1]);
        }
        lemma_absent(rest, key);
    }
}

/// A key stands among the first entries, or is the last one.
proof fn lemma_last_value(entries: Seq<(Seq<char>, WorkerContentModel)>, key: Seq<char>)
    requires
        entries.len() > 0,
    ensures
        crate::collections::value_at(entries, key) == match crate::collections::value_at(
            entries.drop_last(),
            key,
        ) {
            Some(value) => Some(value),
            None => if entries.last().0 == key {
                Some(entries.last().1)
            } else {
                None
            },
        },
    decreases entries.len(),
{
    if entries.len() == 1 {
        assert(entries.drop_first() =~= Seq::empty());
        assert(entries.drop_last() =~= Seq::empty());
    } else {
        let rest = entries.drop_first();
        lemma_last_value(rest, key);
        assert(rest.drop_last() =~= entries.drop_last().drop_first());
        assert(entries.drop_last()[0] == entries[0]);
    }
}

/// No separator stands in a number.
proof fn lemma_no_separator(n: nat, i: int)
    requires
        0 <= i < crate::text::decimal(n).len(),
    ensures
        crate::text::decimal(n)[i] != '-',
    decreases n,
{
    assert((48 + n % 10) as u8 == 48 + n % 10);
    if n >= 10 {
        let before = crate::text::decimal(n / 10);
        if i < before.len() {
            lemma_no_separator(n / 10, i);
        }
    }
}

/// The requests that bring two changes of a state or a configuration have different identifiers,
/// whichever workers they are for, and so have those that bring one change to two workers: no answer
/// is taken for another one.
pub proof fn law_changes_are_told_apart(
    request: Seq<char>,
    one: nat,
    other: nat,
    worker: u32,
    other_worker: u32,
)
    requires
        one != other || worker != other_worker,
    ensures
        super::orders::change_prefix(request, one) + crate::text::decimal(worker as nat)
            != super::orders::change_prefix(request, other) + crate::text::decimal(
            other_worker as nat,
        ),
{
    reveal_strlit("-");
    let start = "LOAD-STATE-"@ + request + "-"@;
    let a = crate::text::decimal(one);
    let b = crate::text::decimal(other);
    let left = super::orders::change_prefix(request, one) + crate::text::decimal(worker as nat);
    let right = super::orders::change_prefix(request, other) + crate::text::decimal(
        other_worker as nat,
    );
    if one == other {
        crate::text::lemma_prefixed_numbers_differ(
            super::orders::change_prefix(request, one),
            worker as nat,
            other_worker as nat,
        );
    } else if left == right {
        let n = start.len() as int;
        assert(left[n + a.len()] == '-');
        assert(right[n + b.len()] == '-');
        if a.len() < b.len() {
            assert(right[n + a.len()] == b[a.len() as int]);
            lemma_no_separator(other, a.len() as int);
        } else if b.len() < a.len() {
            assert(left[n + b.len()] == a[b.len() as int]);
            lemma_no_separator(one, b.len() as int);
        } else {
            assert forall|i: int| 0 <= i < a.len() implies a[i] == b[i] by {
                assert(left[n + i] == a[i]);
                assert(right[n + i] == b[i]);
            }
            assert(a =~= b);
            crate::text::lemma_decimal_injective(one, other);
        }
    }
}

/// The client sees all workers that are known, each of them once and as it is known.
pub proof fn law_all_known_workers_are_shown(collector: StatusCollectorModel, id: Seq<char>)
    ensures
        collector.workers().len() == collector.infos.len(),
        forall|i: int|
            0 <= i < collector.infos.len() ==> (#[trigger] collector.infos[i]).1
                == collector.workers()[i],
        crate::collections::value_at(collector.infos, id) matches Some(info)
            ==> collector.workers().contains(info),
{
    if crate::collections::value_at(collector.infos, id) is Some {
        lemma_value_is_there(collector.infos, id);
        let i = choose|i: int|
            0 <= i < collector.infos.len() && (#[trigger] collector.infos[i]).0 == id && Some(
                collector.infos[i].1,
            ) == crate::collections::value_at(collector.infos, id);
        assert(collector.workers()[i] == collector.infos[i].1);
    }
}

proof fn lemma_value_is_there(entries: Seq<(Seq<char>, WorkerInfoModel)>, key: Seq<char>)
    requires
        crate::collections::value_at(entries, key) is Some,
    ensures
        exists|i: int|
            0 <= i < entries.len() && (#[trigger] entries[i]).0 == key && Some(entries[i].1)
                == crate::collections::value_at(entries, key),
    decreases entries.len(),
{
    if entries[0].0 != key {
        let rest = entries.drop_first();
        lemma_value_is_there(rest, key);
        let i = choose|i: int|
            0 <= i < rest.len() && (#[trigger] rest[i]).0 == key && Some(rest[i].1)
                == crate::collections::value_at(rest, key);
        assert(entries[i + 1] == rest[i]);
    } else {
        assert(entries[0].0 == key);
    }
}

} // verus!
