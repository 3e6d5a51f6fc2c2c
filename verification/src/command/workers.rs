//! How workers are launched and replaced.
use vstd::prelude::*;
use vstd::string::*;

use crate::proxy::{ProxyRequestOrder, ProxyRequestOrderModel};
use crate::text::decimal_text;

use super::orders::with_context;
use super::route::{return_error, Outcome};
use super::server::{Audience, CommandServer, CommandServerModel};
use super::types::{
    Advancement, AdvancementModel, RequestIdentifier, RequestStatus, RunState, Success, SuccessModel,
    WorkerInfo, WorkerInfoModel, WorkerRequest, WorkerRequestModel, WorkerResponse,
};

verus! {

/// The requests that start the listeners of a new worker, one for each of the orders.
pub open spec fn activations(start: Seq<char>, orders: Seq<ProxyRequestOrderModel>) -> Seq<
    WorkerRequestModel,
> {
    Seq::new(
        orders.len(),
        |i: int|
            WorkerRequestModel {
                id: start + "-ACTIVATE-"@ + crate::text::decimal(i as nat),
                order: orders[i],
            },
    )
}

fn activate(start: &str, orders: &Vec<ProxyRequestOrder>) -> (r: Vec<WorkerRequest>)
    ensures
        r.deep_view() == activations(start@, orders.deep_view()),
{
    let ghost all = orders.deep_view();
    let ghost wanted = activations(start@, all);
    let mut r: Vec<WorkerRequest> = Vec::new();
    let mut i: usize = 0;
    while i < orders.len()
        invariant
            i <= orders.len(),
            all == orders.deep_view(),
            wanted == activations(start@, all),
            r.len() == i,
            forall|k: int| 0 <= k < i ==> (#[trigger] r@[k]).deep_view() == wanted[k],
        decreases orders.len() - i,
    {
        let mut id = start.to_owned();
        id.append("-ACTIVATE-");
        id.append(decimal_text(i as u64).as_str());
        proof {
            assert(all[i as int] == orders@[i as int].deep_view());
        }
        r.push(WorkerRequest { id, order: orders[i].clone() });
        i = i + 1;
    }
    proof {
        assert(r.deep_view() =~= wanted);
    }
    r
}

impl CommandServerModel {
    /// The server with one more worker, which runs.
    pub open spec fn with_worker(self, id: u32, pid: i32) -> CommandServerModel {
        CommandServerModel {
            workers: self.workers.push(WorkerInfoModel { id, pid, run_state: RunState::Running }),
            ..self
        }
    }

    /// The first worker of this identifier is stopping.
    pub open spec fn with_stopping(self, id: u32) -> CommandServerModel {
        CommandServerModel { workers: stopped_at(self.workers, id), ..self }
    }

    /// There is an active worker of this identifier.
    pub open spec fn can_upgrade(self, id: u32) -> bool {
        exists|i: int|
            0 <= i < self.workers.len() && (#[trigger] self.workers[i]).id == id
                && Audience::Active.includes(self.workers[i].run_state)
    }
}

/// The workers, of which the first one of this identifier is stopping.
pub open spec fn stopped_at(workers: Seq<WorkerInfoModel>, id: u32) -> Seq<WorkerInfoModel>
    decreases workers.len(),
{
    if workers.len() == 0 {
        workers
    } else if workers[0].id == id {
        workers.update(0, WorkerInfoModel { run_state: RunState::Stopping, ..workers[0] })
    } else {
        seq![workers[0]] + stopped_at(workers.drop_first(), id)
    }
}

proof fn lemma_stopped_at(workers: Seq<WorkerInfoModel>, id: u32, p: int)
    requires
        0 <= p <= workers.len(),
        forall|k: int| 0 <= k < p ==> (#[trigger] workers[k]).id != id,
        p < workers.len() ==> workers[p].id == id,
    ensures
        p < workers.len() ==> stopped_at(workers, id) == workers.update(
            p,
            WorkerInfoModel { run_state: RunState::Stopping, ..workers[p] },
        ),
        p == workers.len() ==> stopped_at(workers, id) == workers,
    decreases p,
{
    if p > 0 {
        let tail = workers.drop_first();
        assert forall|k: int| 0 <= k < p - 1 implies (#[trigger] tail[k]).id != id by {
            assert(workers[k + 1].id != id);
        }
        assert(workers[0].id != id);
        lemma_stopped_at(tail, id, p - 1);
        if p < workers.len() {
            let stopped = WorkerInfoModel { run_state: RunState::Stopping, ..workers[p] };
            assert(seq![workers[0]] + tail.update(p - 1, stopped) =~= workers.update(p, stopped));
        } else {
            assert(seq![workers[0]] + tail =~= workers);
        }
    }
}

impl CommandServer {
    /// What is said of a worker that could not be launched.
    pub fn launch_failure(&self, cause: &str) -> (r: Outcome)
        ensures
            super::route::told_at_once(r) == Some(
                AdvancementModel::Error(
                    super::orders::in_context(
                        "Failed at creating worker "@ + crate::text::decimal(
                            self.deep_view().next_worker_id as nat,
                        ),
                        cause@,
                    ),
                ),
            ),
    {
        let mut context = "Failed at creating worker ".to_owned();
        context.append(decimal_text(self.next_worker_id as u64).as_str());
        Outcome::Failed(with_context(context.as_str(), cause))
    }

    /// Takes in a worker that was launched with the next identifier. It is sent the orders that
    /// start its listeners.
    pub fn launch_worker(&mut self, pid: i32, activate_orders: &Vec<ProxyRequestOrder>) -> (r: (
        Vec<WorkerRequest>,
        Success,
    ))
        requires
            old(self).next_worker_id < u32::MAX,
        ensures
            r.0.deep_view() == activations(
                crate::text::decimal(old(self).deep_view().next_worker_id as nat),
                activate_orders.deep_view(),
            ),
            r.1.deep_view() == SuccessModel::WorkerLaunched(old(self).deep_view().next_worker_id),
            final(self).deep_view() == (CommandServerModel {
                next_worker_id: (old(self).deep_view().next_worker_id + 1) as u32,
                ..old(self).deep_view().with_worker(old(self).deep_view().next_worker_id, pid)
            }),
            final(self).next_worker_id == old(self).next_worker_id + 1,
            final(self).deep_view().workers.len() == old(self).deep_view().workers.len() + 1,
            final(self).deep_view().workers.last() == (WorkerInfoModel {
                id: old(self).next_worker_id,
                pid,
                run_state: RunState::Running,
            }),
            r.0.deep_view().len() == activate_orders.deep_view().len(),
            forall|i: int|
                0 <= i < activate_orders.deep_view().len() ==> (
                #[trigger] r.0.deep_view()[i]).order == activate_orders.deep_view()[i],
    {
        let ghost start = self.deep_view();
        let id = self.next_worker_id;
        self.next_worker_id = id + 1;
        let requests = activate(decimal_text(id as u64).as_str(), activate_orders);
        self.workers.push(WorkerInfo { id, pid, run_state: RunState::Running });
        proof {
            assert(self.workers.deep_view() =~= start.with_worker(id, pid).workers);
        }
        (requests, Success::WorkerLaunched(id))
    }

    /// Whether a worker can be replaced: it is there, and neither stopped nor stopping.
    fn check_upgrade(&self, id: u32) -> (r: Option<String>)
        ensures
            match r {
                None => self.deep_view().can_upgrade(id),
                Some(text) => !self.deep_view().can_upgrade(id) && text@ == no_such_worker(id),
            },
    {
        let ghost all = self.deep_view().workers;
        let mut i: usize = 0;
        while i < self.workers.len()
            invariant
                i <= self.workers.len(),
                all == self.workers.deep_view(),
                forall|k: int|
                    0 <= k < i ==> !((#[trigger] all[k]).id == id && Audience::Active.includes(
                        all[k].run_state,
                    )),
            decreases self.workers.len() - i,
        {
            proof {
                assert(all[i as int] == self.workers@[i as int].deep_view());
            }
            if self.workers[i].id == id && Audience::Active.has(self.workers[i].run_state) {
                return None;
            }
            i = i + 1;
        }
        let mut text = "The worker ".to_owned();
        text.append(decimal_text(id as u64).as_str());
        text.append(" does not exist, or is stopped / stopping.");
        Some(text)
    }
}

/// What is said of a worker that cannot be replaced.
pub open spec fn no_such_worker(id: u32) -> Seq<char> {
    "The worker "@ + crate::text::decimal(id as nat)
        + " does not exist, or is stopped / stopping."@
}

/// How often the old worker is asked for its listening sockets.
pub const MAX_ATTEMPTS: u32 = 50;

/// How long to wait between two attempts, in milliseconds.
pub const ATTEMPT_DELAY: u64 = 100;

/// What the replacement of a worker waits for.
#[derive(Debug, Clone, Copy, PartialEq, Eq, Structural)]
pub enum UpgradePhase {
    Starting,
    /// for the new worker
    Launching,
    /// until the new worker is asked for its state
    Greeting,
    /// for the listening sockets of the old worker
    Fetching,
    /// until the new worker has the sockets and a connection
    Handing,
    Over,
}

/// How far the replacement of a worker has got.
#[derive(Debug, Clone, Copy, PartialEq, Eq, Structural)]
pub struct WorkerUpgrade {
    /// the worker that is replaced
    pub id: u32,
    /// the worker that replaces it, once it is launched
    pub new_id: u32,
    /// the process of the new worker, once it is launched
    pub pid: i32,
    /// how often the old worker was asked for its sockets in vain
    pub failed: u32,
    pub phase: UpgradePhase,
}

/// What the replacement of a worker is told.
#[derive(Debug)]
pub enum UpgradeEvent {
    Start,
    /// the new worker runs in this process
    Launched(i32),
    /// why there is no new worker
    NotLaunched(String),
    /// the new worker was asked for its state
    Greeted,
    /// there is no way to reach the new worker
    NoChannel,
    /// why the new worker could not be asked for its state
    NotGreeted(String),
    /// the old worker gave its listening sockets away
    Sockets,
    /// an attempt to get the sockets was in vain
    NoSockets,
    /// the new worker is connected; these orders start its listeners
    Connected(Vec<ProxyRequestOrder>),
    /// why the new worker could not be connected
    NotConnected(String),
}

/// What a [`UpgradeEvent`] holds.
pub enum UpgradeEventModel {
    Start,
    Launched(i32),
    NotLaunched(Seq<char>),
    Greeted,
    NoChannel,
    NotGreeted(Seq<char>),
    Sockets,
    NoSockets,
    Connected(Seq<ProxyRequestOrderModel>),
    NotConnected(Seq<char>),
}

impl View for UpgradeEvent {
    type V = UpgradeEventModel;

    open spec fn view(&self) -> UpgradeEventModel {
        match self {
            UpgradeEvent::Start => UpgradeEventModel::Start,
            UpgradeEvent::Launched(pid) => UpgradeEventModel::Launched(*pid),
            UpgradeEvent::NotLaunched(cause) => UpgradeEventModel::NotLaunched(cause@),
            UpgradeEvent::Greeted => UpgradeEventModel::Greeted,
            UpgradeEvent::NoChannel => UpgradeEventModel::NoChannel,
            UpgradeEvent::NotGreeted(cause) => UpgradeEventModel::NotGreeted(cause@),
            UpgradeEvent::Sockets => UpgradeEventModel::Sockets,
            UpgradeEvent::NoSockets => UpgradeEventModel::NoSockets,
            UpgradeEvent::Connected(orders) => UpgradeEventModel::Connected(orders.deep_view()),
            UpgradeEvent::NotConnected(cause) => UpgradeEventModel::NotConnected(cause@),
        }
    }
}

/// What the replacement of a worker needs next.
#[derive(Debug)]
pub enum UpgradeStep {
    /// launch a worker of this identifier
    Launch(u32),
    /// send this to the new worker; the client hears of the upgrade
    Greet(WorkerRequest),
    /// send this to the old worker, and get its listening sockets
    Fetch(WorkerRequest),
    /// try to get the sockets once more, after so many milliseconds
    Retry(u64),
    /// send this to the old worker, and connect the new one. Where the old worker gave its sockets
    /// away, the new one gets them.
    Stop { request: WorkerRequest, sockets: bool },
    /// send these to the new worker, and tell the client of the success
    Finished(Vec<WorkerRequest>, Success),
    /// the upgrade failed, in words
    Failed(String),
}

/// What a [`UpgradeStep`] holds.
#[verifier::ext_equal]
pub enum UpgradeStepModel {
    Launch(u32),
    Greet(WorkerRequestModel),
    Fetch(WorkerRequestModel),
    Retry(u64),
    Stop { request: WorkerRequestModel, sockets: bool },
    Finished(Seq<WorkerRequestModel>, SuccessModel),
    Failed(Seq<char>),
}

impl View for UpgradeStep {
    type V = UpgradeStepModel;

    open spec fn view(&self) -> UpgradeStepModel {
        match self {
            UpgradeStep::Launch(id) => UpgradeStepModel::Launch(*id),
            UpgradeStep::Greet(request) => UpgradeStepModel::Greet(request.deep_view()),
            UpgradeStep::Fetch(request) => UpgradeStepModel::Fetch(request.deep_view()),
            UpgradeStep::Retry(delay) => UpgradeStepModel::Retry(*delay),
            UpgradeStep::Stop { request, sockets } => UpgradeStepModel::Stop {
                request: request.deep_view(),
                sockets: *sockets,
            },
            UpgradeStep::Finished(requests, success) => UpgradeStepModel::Finished(
                requests.deep_view(),
                success.deep_view(),
            ),
            UpgradeStep::Failed(text) => UpgradeStepModel::Failed(text@),
        }
    }
}

/// The question to the new worker for its state.
pub open spec fn greeting(id: u32) -> WorkerRequestModel {
    WorkerRequestModel {
        id: "UPGRADE-"@ + crate::text::decimal(id as nat) + "-STATUS"@,
        order: ProxyRequestOrderModel::Status,
    }
}

/// The question to the old worker for its listening sockets.
pub open spec fn sockets_request(client: Seq<char>) -> WorkerRequestModel {
    WorkerRequestModel {
        id: client + "-return-sockets"@,
        order: ProxyRequestOrderModel::ReturnListenSockets,
    }
}

/// The order to the old worker to stop.
pub open spec fn soft_stop_request(client: Seq<char>) -> WorkerRequestModel {
    WorkerRequestModel { id: client + "-softstop"@, order: ProxyRequestOrderModel::SoftStop }
}

impl WorkerUpgrade {
    /// The replacement of worker `id`, not begun.
    pub open spec fn fresh(id: u32) -> WorkerUpgrade {
        WorkerUpgrade { id, new_id: 0, pid: 0, failed: 0, phase: UpgradePhase::Starting }
    }

    /// Fewer attempts were in vain than are made.
    pub open spec fn wf(self) -> bool {
        self.failed < MAX_ATTEMPTS || self.phase != UpgradePhase::Fetching
    }

    /// The event is what the replacement waits for, and there is an identifier for a new worker.
    pub open spec fn accepts(self, event: UpgradeEventModel, server: CommandServerModel) -> bool {
        match event {
            UpgradeEventModel::Start => self.phase == UpgradePhase::Starting,
            UpgradeEventModel::Launched(_) => self.phase == UpgradePhase::Launching
                && server.next_worker_id < u32::MAX,
            UpgradeEventModel::NotLaunched(_) => self.phase == UpgradePhase::Launching,
            UpgradeEventModel::Greeted => self.phase == UpgradePhase::Greeting,
            UpgradeEventModel::NoChannel => self.phase == UpgradePhase::Greeting,
            UpgradeEventModel::NotGreeted(_) => self.phase == UpgradePhase::Greeting,
            UpgradeEventModel::Sockets => self.phase == UpgradePhase::Fetching,
            UpgradeEventModel::NoSockets => self.phase == UpgradePhase::Fetching,
            UpgradeEventModel::Connected(_) => self.phase == UpgradePhase::Handing,
            UpgradeEventModel::NotConnected(_) => self.phase == UpgradePhase::Handing,
        }
    }

    /// The replacement waits for something else.
    pub open spec fn at(self, phase: UpgradePhase) -> WorkerUpgrade {
        WorkerUpgrade { phase, ..self }
    }

    /// The replacement ends with an error.
    pub open spec fn over(self, server: CommandServerModel, text: Seq<char>) -> (
        WorkerUpgrade,
        CommandServerModel,
        UpgradeStepModel,
    ) {
        (self.at(UpgradePhase::Over), server, UpgradeStepModel::Failed(text))
    }

    /// The old worker is told to stop, with or without its sockets.
    pub open spec fn stopping(
        self,
        server: CommandServerModel,
        client: Seq<char>,
        sockets: bool,
        task: u64,
    ) -> (WorkerUpgrade, CommandServerModel, UpgradeStepModel) {
        (
            self.at(UpgradePhase::Handing),
            server.with_stopping(self.id).waiting_for_one(soft_stop_request(client).id, task),
            UpgradeStepModel::Stop { request: soft_stop_request(client), sockets },
        )
    }

    /// What an event leads to. The new worker is launched with the next identifier and asked for its
    /// state. The old one is asked for its listening sockets, again and again up to a limit, and
    /// then told to stop in any case. At the end the new worker is among the workers.
    pub open spec fn after(
        self,
        event: UpgradeEventModel,
        server: CommandServerModel,
        client: Seq<char>,
        task: u64,
    ) -> (WorkerUpgrade, CommandServerModel, UpgradeStepModel) {
        match event {
            UpgradeEventModel::Start => if server.can_upgrade(self.id) {
                (
                    self.at(UpgradePhase::Launching),
                    server,
                    UpgradeStepModel::Launch(server.next_worker_id),
                )
            } else {
                self.over(server, no_such_worker(self.id))
            },
            UpgradeEventModel::NotLaunched(cause) => self.over(
                server,
                super::orders::in_context("failed at creating worker"@, cause),
            ),
            UpgradeEventModel::Launched(pid) => (
                WorkerUpgrade {
                    new_id: server.next_worker_id,
                    pid,
                    phase: UpgradePhase::Greeting,
                    ..self
                },
                CommandServerModel {
                    next_worker_id: (server.next_worker_id + 1) as u32,
                    ..server
                },
                UpgradeStepModel::Greet(greeting(self.id)),
            ),
            UpgradeEventModel::NoChannel => self.over(server, "No channel on new worker"@),
            UpgradeEventModel::NotGreeted(cause) => self.over(
                server,
                super::orders::in_context(
                    "could not send status message to worker "@ + crate::text::decimal(
                        self.new_id as nat,
                    ),
                    cause,
                ),
            ),
            UpgradeEventModel::Greeted => (
                WorkerUpgrade { failed: 0, phase: UpgradePhase::Fetching, ..self },
                server.waiting_for_one(sockets_request(client).id, task),
                UpgradeStepModel::Fetch(sockets_request(client)),
            ),
            UpgradeEventModel::Sockets => self.stopping(server, client, true, task),
            UpgradeEventModel::NoSockets => {
                let upgrade = WorkerUpgrade { failed: (self.failed + 1) as u32, ..self };
                if upgrade.failed < MAX_ATTEMPTS {
                    (upgrade, server, UpgradeStepModel::Retry(ATTEMPT_DELAY))
                } else {
                    upgrade.stopping(server, client, false, task)
                }
            },
            UpgradeEventModel::NotConnected(cause) => self.over(server, cause),
            UpgradeEventModel::Connected(orders) => (
                self.at(UpgradePhase::Over),
                server.with_worker(self.new_id, self.pid),
                UpgradeStepModel::Finished(
                    activations(client, orders),
                    SuccessModel::UpgradeWorker(self.new_id),
                ),
            ),
        }
    }

    /// The replacement of worker `id`, not begun.
    pub fn new(id: u32) -> (r: WorkerUpgrade)
        ensures
            r == WorkerUpgrade::fresh(id),
            r.wf(),
    {
        WorkerUpgrade { id, new_id: 0, pid: 0, failed: 0, phase: UpgradePhase::Starting }
    }
}

impl CommandServer {
    /// Lets the old worker stop.
    fn stop_old_worker(&mut self, client: &String, id: u32, task: u64) -> (r: WorkerRequest)
        ensures
            r.deep_view() == soft_stop_request(client@),
            final(self).deep_view() == old(self).deep_view().with_stopping(id).waiting_for_one(
                soft_stop_request(client@).id,
                task,
            ),
    {
        let ghost start = self.deep_view();
        let n = self.workers.len();
        let mut i: usize = 0;
        while i < n && self.workers[i].id != id
            invariant
                i <= n,
                n == self.workers.len(),
                start == self.deep_view(),
                *self == *old(self),
                forall|k: int| 0 <= k < i ==> (#[trigger] start.workers[k]).id != id,
            decreases n - i,
        {
            proof {
                assert(start.workers[i as int] == self.workers@[i as int].deep_view());
            }
            i = i + 1;
        }
        proof {
            if i < n {
                assert(start.workers[i as int] == self.workers@[i as int].deep_view());
            }
            lemma_stopped_at(start.workers, id, i as int);
        }
        if i < n {
            let WorkerInfo { id, pid, run_state: _ } = self.workers[i].clone();
            self.workers.set(i, WorkerInfo { id, pid, run_state: RunState::Stopping });
        }
        proof {
            assert(self.workers.deep_view() =~= stopped_at(start.workers, id));
        }
        let mut softstop_id = client.clone();
        softstop_id.append("-softstop");
        self.wait_for(softstop_id.as_str(), task);
        WorkerRequest { id: softstop_id, order: ProxyRequestOrder::SoftStop }
    }

    /// Goes on with the replacement of a worker.
    pub fn upgrade_worker(
        &mut self,
        upgrade: &mut WorkerUpgrade,
        identifier: &RequestIdentifier,
        event: UpgradeEvent,
        task: u64,
    ) -> (r: UpgradeStep)
        requires
            old(upgrade).wf(),
            old(upgrade).accepts(event@, old(self).deep_view()),
        ensures
            (*final(upgrade), final(self).deep_view(), r@) == old(upgrade).after(
                event@,
                old(self).deep_view(),
                identifier.deep_view().client,
                task,
            ),
            final(upgrade).wf(),
    {
        let client = identifier.client.clone();
        let WorkerUpgrade { id, new_id, pid, failed, phase: _ } = *upgrade;
        match event {
            UpgradeEvent::Start => {
                if let Some(text) = self.check_upgrade(id) {
                    upgrade.phase = UpgradePhase::Over;
                    return UpgradeStep::Failed(text);
                }
                upgrade.phase = UpgradePhase::Launching;
                UpgradeStep::Launch(self.next_worker_id)
            },
            UpgradeEvent::NotLaunched(cause) => {
                upgrade.phase = UpgradePhase::Over;
                UpgradeStep::Failed(with_context("failed at creating worker", cause.as_str()))
            },
            UpgradeEvent::Launched(pid) => {
                upgrade.new_id = self.next_worker_id;
                upgrade.pid = pid;
                upgrade.phase = UpgradePhase::Greeting;
                self.next_worker_id = self.next_worker_id + 1;
                let mut status_id = "UPGRADE-".to_owned();
                status_id.append(decimal_text(id as u64).as_str());
                status_id.append("-STATUS");
                UpgradeStep::Greet(
                    WorkerRequest { id: status_id, order: ProxyRequestOrder::Status },
                )
            },
            UpgradeEvent::NoChannel => {
                upgrade.phase = UpgradePhase::Over;
                UpgradeStep::Failed("No channel on new worker".to_owned())
            },
            UpgradeEvent::NotGreeted(cause) => {
                upgrade.phase = UpgradePhase::Over;
                let mut context = "could not send status message to worker ".to_owned();
                context.append(decimal_text(new_id as u64).as_str());
                UpgradeStep::Failed(with_context(context.as_str(), cause.as_str()))
            },
            UpgradeEvent::Greeted => {
                upgrade.failed = 0;
                upgrade.phase = UpgradePhase::Fetching;
                let mut sockets_id = client;
                sockets_id.append("-return-sockets");
                self.wait_for(sockets_id.as_str(), task);
                UpgradeStep::Fetch(
                    WorkerRequest {
                        id: sockets_id,
                        order: ProxyRequestOrder::ReturnListenSockets,
                    },
                )
            },
            UpgradeEvent::Sockets => {
                upgrade.phase = UpgradePhase::Handing;
                let request = self.stop_old_worker(&client, id, task);
                UpgradeStep::Stop { request, sockets: true }
            },
            UpgradeEvent::NoSockets => {
                upgrade.failed = failed + 1;
                if failed + 1 < MAX_ATTEMPTS {
                    return UpgradeStep::Retry(ATTEMPT_DELAY);
                }
                upgrade.phase = UpgradePhase::Handing;
                let request = self.stop_old_worker(&client, id, task);
                UpgradeStep::Stop { request, sockets: false }
            },
            UpgradeEvent::NotConnected(cause) => {
                upgrade.phase = UpgradePhase::Over;
                UpgradeStep::Failed(cause)
            },
            UpgradeEvent::Connected(orders) => {
                let ghost start = self.deep_view();
                upgrade.phase = UpgradePhase::Over;
                let requests = activate(client.as_str(), &orders);
                self.workers.push(WorkerInfo { id: new_id, pid, run_state: RunState::Running });
                proof {
                    assert(self.workers.deep_view() =~= start.with_worker(new_id, pid).workers);
                }
                UpgradeStep::Finished(requests, Success::UpgradeWorker(new_id))
            },
        }
    }
}

/// What the answer of the old worker to the request for its sockets leads to.
#[derive(Debug)]
pub enum SocketsStep {
    Wait,
    Done,
    /// the client is told of the error
    Failed(Advancement),
}

/// What the answer of the old worker to the request for its sockets leads to.
pub fn sockets_answer(answer: WorkerResponse) -> (r: SocketsStep)
    ensures
        match answer.status {
            RequestStatus::Done => r is Done,
            RequestStatus::Processing => r is Wait,
            RequestStatus::Error => r matches SocketsStep::Failed(advancement)
                && advancement.deep_view() == AdvancementModel::Error(
                match answer.error {
                    Some(text) => text@,
                    None => "No context provided for this error"@,
                },
            ),
        },
{
    match answer.status {
        RequestStatus::Done => SocketsStep::Done,
        RequestStatus::Processing => SocketsStep::Wait,
        RequestStatus::Error => SocketsStep::Failed(return_error(answer.error)),
    }
}

/// What the answer of the old worker to the order to stop leads to.
#[derive(Debug, Clone, Copy, PartialEq, Eq, Structural)]
pub enum SoftStopStep {
    Wait,
    /// the worker has stopped
    Close,
    /// the worker did not stop, and nothing more is waited for
    GiveUp,
}

/// What the answer of the old worker to the order to stop leads to.
pub fn soft_stop_answer(status: RequestStatus) -> (r: SoftStopStep)
    ensures
        r == match status {
            RequestStatus::Done => SoftStopStep::Close,
            RequestStatus::Processing => SoftStopStep::Wait,
            RequestStatus::Error => SoftStopStep::GiveUp,
        },
{
    match status {
        RequestStatus::Done => SoftStopStep::Close,
        RequestStatus::Processing => SoftStopStep::Wait,
        RequestStatus::Error => SoftStopStep::GiveUp,
    }
}

/// What came of a new main process.
#[derive(Debug)]
pub enum MainUpgrade {
    /// the files could not be kept open for it, in words
    NotPrepared(String),
    /// it could not be started, in words
    NotStarted(String),
    /// it runs in this process, and this is its answer, or why none came
    Started(i32, Result<bool, String>),
}

impl CommandServer {
    /// What is said of a new main process.
    pub fn upgrade_main(&self, upgrade: MainUpgrade) -> (r: Outcome)
        ensures
            super::route::told_at_once(r) == Some(
                match upgrade {
                    MainUpgrade::NotPrepared(cause) => AdvancementModel::Error(cause@),
                    MainUpgrade::NotStarted(cause) => AdvancementModel::Error(
                        super::orders::in_context("Could not start a new main process"@, cause@),
                    ),
                    MainUpgrade::Started(pid, Ok(true)) => AdvancementModel::Done(
                        SuccessModel::UpgradeMain(pid),
                    ),
                    MainUpgrade::Started(_, Ok(false)) => AdvancementModel::Error(
                        "forking the new worker failed"@,
                    ),
                    MainUpgrade::Started(_, Err(cause)) => AdvancementModel::Error(
                        super::orders::in_context(
                            "Did not receive fork confirmation from new worker"@,
                            cause@,
                        ),
                    ),
                },
            ),
    {
        match upgrade {
            MainUpgrade::NotPrepared(cause) => Outcome::Failed(cause),
            MainUpgrade::NotStarted(cause) => Outcome::Failed(
                with_context("Could not start a new main process", cause.as_str()),
            ),
            MainUpgrade::Started(pid, Ok(true)) => Outcome::Done(Success::UpgradeMain(pid)),
            MainUpgrade::Started(_, Ok(false)) => Outcome::Failed(
                "forking the new worker failed".to_owned(),
            ),
            MainUpgrade::Started(_, Err(cause)) => Outcome::Failed(
                with_context("Did not receive fork confirmation from new worker", cause.as_str()),
            ),
        }
    }
}

/// Workers that were told to stop get no more orders that are for active workers.
pub proof fn law_stopping_workers_get_no_orders(
    workers: Seq<WorkerInfoModel>,
    only: Option<u32>,
    prefix: Seq<char>,
    order: ProxyRequestOrderModel,
)
    ensures
        super::server::requests(
            super::orders::stopping(workers, only),
            Audience::Active,
            only,
            prefix,
            order,
        ) == Seq::<(u32, WorkerRequestModel)>::empty(),
    decreases workers.len(),
{
    let after = super::orders::stopping(workers, only);
    if workers.len() > 0 {
        law_stopping_workers_get_no_orders(workers.drop_last(), only, prefix, order);
        assert(after.drop_last() =~= super::orders::stopping(workers.drop_last(), only));
    }
}

/// A new worker gets an identifier that no worker has, where the identifiers of all workers lie below
/// the next one, and they still do afterwards.
pub proof fn law_worker_ids_are_fresh(server: CommandServerModel, pid: i32)
    requires
        server.next_worker_id < u32::MAX,
        forall|i: int|
            0 <= i < server.workers.len() ==> (#[trigger] server.workers[i]).id
                < server.next_worker_id,
    ensures
        ({
            let id = server.next_worker_id;
            let after = CommandServerModel {
                next_worker_id: (id + 1) as u32,
                ..server.with_worker(id, pid)
            };
            &&& forall|i: int| 0 <= i < server.workers.len() ==> (#[trigger] server.workers[i]).id != id
            &&& forall|i: int|
                0 <= i < after.workers.len() ==> (#[trigger] after.workers[i]).id
                    < after.next_worker_id
        }),
{
    let id = server.next_worker_id;
    let after = CommandServerModel {
        next_worker_id: (id + 1) as u32,
        ..server.with_worker(id, pid)
    };
    assert forall|i: int| 0 <= i < after.workers.len() implies (#[trigger] after.workers[i]).id
        < after.next_worker_id by {
        if i < server.workers.len() {
            assert(after.workers[i] == server.workers[i]);
        }
    }
}

/// What the events lead to, one after the other.
pub open spec fn upgraded(
    upgrade: WorkerUpgrade,
    server: CommandServerModel,
    events: Seq<UpgradeEventModel>,
    client: Seq<char>,
    task: u64,
) -> (WorkerUpgrade, CommandServerModel)
    decreases events.len(),
{
    if events.len() == 0 {
        (upgrade, server)
    } else {
        let (upgrade, server) = upgraded(upgrade, server, events.drop_last(), client, task);
        let (upgrade, server, _) = upgrade.after(events.last(), server, client, task);
        (upgrade, server)
    }
}

/// The events of an upgrade in which `n` attempts to get the sockets are in vain before the last one.
pub open spec fn upgrade_events(pid: i32, n: nat) -> Seq<UpgradeEventModel> {
    seq![UpgradeEventModel::Start, UpgradeEventModel::Launched(pid), UpgradeEventModel::Greeted]
        + Seq::new(n, |i: int| UpgradeEventModel::NoSockets)
}

proof fn lemma_attempts(
    id: u32,
    server: CommandServerModel,
    pid: i32,
    n: nat,
    client: Seq<char>,
    task: u64,
)
    requires
        server.can_upgrade(id),
        server.next_worker_id < u32::MAX,
        n < MAX_ATTEMPTS,
    ensures
        upgraded(WorkerUpgrade::fresh(id), server, upgrade_events(pid, n), client, task) == (
            WorkerUpgrade {
                id,
                new_id: server.next_worker_id,
                pid,
                failed: n as u32,
                phase: UpgradePhase::Fetching,
            },
            CommandServerModel {
                next_worker_id: (server.next_worker_id + 1) as u32,
                ..server.waiting_for_one(sockets_request(client).id, task)
            },
        ),
    decreases n,
{
    let events = upgrade_events(pid, n);
    if n == 0 {
        let fresh = WorkerUpgrade::fresh(id);
        let first = seq![UpgradeEventModel::Start];
        let second = first.push(UpgradeEventModel::Launched(pid));
        let third = second.push(UpgradeEventModel::Greeted);
        assert(events =~= third);
        assert(third.drop_last() =~= second);
        assert(second.drop_last() =~= first);
        assert(first.drop_last() =~= Seq::empty());
        assert(upgraded(fresh, server, Seq::empty(), client, task) == (fresh, server));
        reveal_with_fuel(upgraded, 4);
    } else {
        lemma_attempts(id, server, pid, (n - 1) as nat, client, task);
        assert(events.drop_last() =~= upgrade_events(pid, (n - 1) as nat));
        assert(events.last() is NoSockets);
    }
}

/// A worker is replaced whether or not it gives its sockets away in the end: afterwards it is told to
/// stop, and the new worker runs under the next identifier. The attempts to get the sockets end after
/// a fixed number.
pub proof fn law_upgrade_replaces_the_worker(
    id: u32,
    server: CommandServerModel,
    pid: i32,
    n: nat,
    sockets: bool,
    orders: Seq<ProxyRequestOrderModel>,
    client: Seq<char>,
    task: u64,
)
    requires
        server.can_upgrade(id),
        server.next_worker_id < u32::MAX,
        sockets ==> n < MAX_ATTEMPTS,
        !sockets ==> n + 1 == MAX_ATTEMPTS,
    ensures
        ({
            let (upgrade, waiting) = upgraded(
                WorkerUpgrade::fresh(id),
                server,
                upgrade_events(pid, n),
                client,
                task,
            );
            let (handing, stopped, stop) = upgrade.after(
                if sockets {
                    UpgradeEventModel::Sockets
                } else {
                    UpgradeEventModel::NoSockets
                },
                waiting,
                client,
                task,
            );
            let (over, replaced, finish) = handing.after(
                UpgradeEventModel::Connected(orders),
                stopped,
                client,
                task,
            );
            &&& stop == UpgradeStepModel::Stop { request: soft_stop_request(client), sockets }
            &&& finish == UpgradeStepModel::Finished(
                activations(client, orders),
                SuccessModel::UpgradeWorker(server.next_worker_id),
            )
            &&& replaced.workers == stopped_at(server.workers, id).push(
                WorkerInfoModel { id: server.next_worker_id, pid, run_state: RunState::Running },
            )
            &&& replaced.next_worker_id == server.next_worker_id + 1
        }),
{
    lemma_attempts(id, server, pid, n, client, task);
}

} // verus!
