//! Loads a saved state: reads it piece by piece, lets the state take each order, and sends those that
//! changed something to the workers.
use vstd::prelude::*;
use vstd::string::*;

use crate::buffer::{Buffer, BufferModel};
use crate::proxy::{ProxyRequestOrder, ProxyRequestOrderModel};

use super::orders::with_context;
use super::route::{return_success, Outcome};
use super::server::{Audience, CommandServer, CommandServerModel};
use super::types::{
    Advancement, AdvancementModel, CommandRequest, CommandRequestModel, CommandRequestOrder,
    CommandRequestOrderModel, Success, SuccessModel, WorkerRequest, WorkerRequestModel,
    PROTOCOL_VERSION,
};

verus! {

/// How much of the file is held at once.
pub const LOAD_BUFFER: usize = 200000;

/// What the loader waits for.
#[derive(Debug, Clone, Copy, PartialEq, Eq, Structural)]
pub enum LoadPhase {
    Reading,
    Parsing,
    Dispatching,
}

/// How far a saved state is loaded.
#[derive(Debug)]
pub struct StateLoader {
    buffer: Buffer,
    request_id: String,
    messages: usize,
    diffs: usize,
    pending: Vec<CommandRequest>,
    next: usize,
    consumed: usize,
    previous: usize,
    phase: LoadPhase,
}

/// What a [`StateLoader`] holds.
#[verifier::ext_equal]
pub struct LoaderModel {
    pub buffer: BufferModel,
    pub request_id: Seq<char>,
    /// the orders that were seen
    pub messages: nat,
    /// the orders that changed the state
    pub diffs: nat,
    /// the requests of the last piece
    pub pending: Seq<CommandRequestModel>,
    /// the request that is dealt with next
    pub next: nat,
    /// how many bytes the requests of the last piece take
    pub consumed: nat,
    /// how many bytes there were before the last piece was read
    pub previous: nat,
    pub phase: LoadPhase,
}

impl View for StateLoader {
    type V = LoaderModel;

    closed spec fn view(&self) -> LoaderModel {
        LoaderModel {
            buffer: self.buffer@,
            request_id: self.request_id@,
            messages: self.messages as nat,
            diffs: self.diffs as nat,
            pending: self.pending.deep_view(),
            next: self.next as nat,
            consumed: self.consumed as nat,
            previous: self.previous as nat,
            phase: self.phase,
        }
    }
}

/// What the loader is told.
#[derive(Debug)]
pub enum LoadEvent {
    /// a piece of the file; no byte at its end
    Read(Vec<u8>),
    /// why the file could not be read
    ReadFailed(String),
    /// the requests at the start of the data, and how many bytes they take
    Parsed(Vec<CommandRequest>, usize),
    /// there is no complete request
    Incomplete,
    /// why the data could not be understood
    ParseFailed(String),
    /// whether the state took the order
    Dispatched(bool),
}

/// What a [`LoadEvent`] holds.
pub enum LoadEventModel {
    Read(Seq<u8>),
    ReadFailed(Seq<char>),
    Parsed(Seq<CommandRequestModel>, nat),
    Incomplete,
    ParseFailed(Seq<char>),
    Dispatched(bool),
}

impl View for LoadEvent {
    type V = LoadEventModel;

    open spec fn view(&self) -> LoadEventModel {
        match self {
            LoadEvent::Read(bytes) => LoadEventModel::Read(bytes@),
            LoadEvent::ReadFailed(cause) => LoadEventModel::ReadFailed(cause@),
            LoadEvent::Parsed(requests, n) => LoadEventModel::Parsed(
                requests.deep_view(),
                *n as nat,
            ),
            LoadEvent::Incomplete => LoadEventModel::Incomplete,
            LoadEvent::ParseFailed(cause) => LoadEventModel::ParseFailed(cause@),
            LoadEvent::Dispatched(accepted) => LoadEventModel::Dispatched(*accepted),
        }
    }
}

/// What the loader needs next.
#[derive(Debug)]
pub enum LoadStep {
    /// read at most `room` bytes
    Read { room: usize },
    /// look for requests at the start of the data
    Parse,
    /// let the state take the order
    Dispatch(ProxyRequestOrder),
    /// all is loaded that can be
    Finished,
    /// loading failed, in words
    Failed(String),
}

/// What a [`LoadStep`] holds.
#[verifier::ext_equal]
pub enum LoadStepModel {
    Read { room: int },
    Parse,
    Dispatch(ProxyRequestOrderModel),
    Finished,
    Failed(Seq<char>),
}

impl View for LoadStep {
    type V = LoadStepModel;

    open spec fn view(&self) -> LoadStepModel {
        match self {
            LoadStep::Read { room } => LoadStepModel::Read { room: *room as int },
            LoadStep::Parse => LoadStepModel::Parse,
            LoadStep::Dispatch(order) => LoadStepModel::Dispatch(order.deep_view()),
            LoadStep::Finished => LoadStepModel::Finished,
            LoadStep::Failed(text) => LoadStepModel::Failed(text@),
        }
    }
}

/// The place of the next request that holds an order for workers, or the number of requests.
pub open spec fn next_order(requests: Seq<CommandRequestModel>, from: nat) -> nat
    decreases requests.len() - from,
{
    if from >= requests.len() {
        requests.len()
    } else if requests[from as int].order is Proxy {
        from
    } else {
        next_order(requests, from + 1)
    }
}

/// A request is of a version that is not understood.
pub open spec fn too_new(requests: Seq<CommandRequestModel>) -> bool {
    exists|i: int| 0 <= i < requests.len() && (#[trigger] requests[i]).version > PROTOCOL_VERSION
}

impl LoaderModel {
    pub open spec fn fresh(request_id: Seq<char>) -> LoaderModel {
        LoaderModel {
            buffer: BufferModel { data: Seq::empty(), position: 0, capacity: LOAD_BUFFER as nat },
            request_id,
            messages: 0,
            diffs: 0,
            pending: Seq::empty(),
            next: 0,
            consumed: 0,
            previous: 0,
            phase: LoadPhase::Reading,
        }
    }

    /// The order that the state is asked to take.
    pub open spec fn current(self) -> ProxyRequestOrderModel {
        self.pending[self.next as int].order->Proxy_0
    }

    /// While an order is dispatched there is one.
    pub open spec fn wf(self) -> bool {
        self.phase == LoadPhase::Dispatching ==> self.next < self.pending.len()
            && self.pending[self.next as int].order is Proxy
    }

    /// The next piece of the file is read, after `n` bytes of the data are done with.
    pub open spec fn reading(self, n: nat) -> (LoaderModel, LoadStepModel) {
        let buffer = self.buffer.consumed(n);
        (
            LoaderModel { buffer, phase: LoadPhase::Reading, ..self },
            LoadStepModel::Read { room: buffer.space() },
        )
    }

    /// The next order of the piece, or else the next piece.
    pub open spec fn advanced(self, from: nat) -> (LoaderModel, LoadStepModel) {
        let next = next_order(self.pending, from);
        if next < self.pending.len() {
            let loader = LoaderModel {
                messages: self.messages + 1,
                next,
                phase: LoadPhase::Dispatching,
                ..self
            };
            (loader, LoadStepModel::Dispatch(loader.current()))
        } else {
            LoaderModel { next, ..self }.reading(self.consumed)
        }
    }

    /// The event is what the loader waits for, and no counter overflows.
    pub open spec fn accepts(self, event: LoadEventModel) -> bool {
        self.messages < usize::MAX && self.diffs < usize::MAX && match event {
            LoadEventModel::Read(bytes) => self.phase == LoadPhase::Reading && bytes.len()
                <= self.buffer.space(),
            LoadEventModel::ReadFailed(_) => self.phase == LoadPhase::Reading,
            LoadEventModel::Parsed(_, n) => self.phase == LoadPhase::Parsing && n
                <= self.buffer.data.len(),
            LoadEventModel::Incomplete => self.phase == LoadPhase::Parsing,
            LoadEventModel::ParseFailed(_) => self.phase == LoadPhase::Parsing,
            LoadEventModel::Dispatched(_) => self.phase == LoadPhase::Dispatching,
        }
    }

    /// The requests that bring the current order to the workers.
    pub open spec fn requests(self, server: CommandServerModel) -> Seq<(u32, WorkerRequestModel)> {
        super::server::requests(
            server.workers,
            Audience::Active,
            None,
            super::orders::change_prefix(self.request_id, self.diffs + 1),
            self.current(),
        )
    }

    /// What an event leads to. Data that stays without a request although nothing more was read ends
    /// the loading with an error; so does an order that no worker is there for.
    pub open spec fn after(self, event: LoadEventModel, server: CommandServerModel) -> (
        LoaderModel,
        LoadStepModel,
    ) {
        match event {
            LoadEventModel::Read(bytes) => {
                let buffer = self.buffer.filled(bytes);
                let loader = LoaderModel { previous: self.buffer.data.len(), buffer, ..self };
                if buffer.data.len() == 0 {
                    (loader, LoadStepModel::Finished)
                } else {
                    (
                        LoaderModel { phase: LoadPhase::Parsing, ..loader },
                        LoadStepModel::Parse,
                    )
                }
            },
            LoadEventModel::ReadFailed(cause) => (
                self,
                LoadStepModel::Failed("Error reading the saved state file: "@ + cause),
            ),
            LoadEventModel::Parsed(requests, n) => if n < self.buffer.data.len() && self.previous
                == self.buffer.data.len() {
                (self, LoadStepModel::Failed("error consuming load state message"@))
            } else if too_new(requests) {
                (self, LoadStepModel::Finished)
            } else {
                LoaderModel { pending: requests, consumed: n, ..self }.advanced(0)
            },
            LoadEventModel::Incomplete => if self.buffer.data.len() == self.buffer.capacity {
                (self, LoadStepModel::Finished)
            } else {
                self.reading(0)
            },
            LoadEventModel::ParseFailed(cause) => (
                self,
                LoadStepModel::Failed("saved state parse error: "@ + cause),
            ),
            LoadEventModel::Dispatched(accepted) => if !accepted {
                self.advanced(self.next + 1)
            } else {
                let loader = LoaderModel { diffs: self.diffs + 1, ..self };
                if self.requests(server).len() == 0 {
                    (loader, LoadStepModel::Failed("no worker found"@))
                } else {
                    loader.advanced(self.next + 1)
                }
            },
        }
    }

    /// The requests that an event leads to.
    pub open spec fn sent(self, event: LoadEventModel, server: CommandServerModel) -> Seq<
        (u32, WorkerRequestModel),
    > {
        if event == LoadEventModel::Dispatched(true) {
            self.requests(server)
        } else {
            Seq::empty()
        }
    }
}

fn any_too_new(requests: &Vec<CommandRequest>) -> (r: bool)
    ensures
        r == too_new(requests.deep_view()),
{
    let ghost all = requests.deep_view();
    let mut i: usize = 0;
    while i < requests.len()
        invariant
            i <= requests.len(),
            all == requests.deep_view(),
            forall|k: int| 0 <= k < i ==> !((#[trigger] all[k]).version > PROTOCOL_VERSION),
        decreases requests.len() - i,
    {
        proof {
            assert(all[i as int] == requests@[i as int].deep_view());
        }
        if requests[i].version > PROTOCOL_VERSION {
            return true;
        }
        i = i + 1;
    }
    false
}

impl StateLoader {
    /// A loader that has not read anything yet. It first waits for a piece of the file.
    pub fn new(request_id: String) -> (r: StateLoader)
        ensures
            r@ == LoaderModel::fresh(request_id@),
            r@.wf(),
    {
        let r = StateLoader {
            buffer: Buffer::with_capacity(LOAD_BUFFER),
            request_id,
            messages: 0,
            diffs: 0,
            pending: Vec::new(),
            next: 0,
            consumed: 0,
            previous: 0,
            phase: LoadPhase::Reading,
        };
        proof {
            assert(r@ =~= LoaderModel::fresh(request_id@));
        }
        r
    }

    /// The data to look for requests in.
    pub fn data(&self) -> (r: &Vec<u8>)
        ensures
            r@ == self@.buffer.data,
    {
        self.buffer.data()
    }

    /// How many orders changed the state.
    pub fn diffs(&self) -> (r: usize)
        ensures
            r == self@.diffs,
    {
        self.diffs
    }

    fn read_on(&mut self, n: usize) -> (r: LoadStep)
        ensures
            (final(self)@, r@) == old(self)@.reading(n as nat),
            final(self)@.wf(),
    {
        self.buffer.consume(n);
        self.phase = LoadPhase::Reading;
        LoadStep::Read { room: self.buffer.available_space() }
    }

    fn advance(&mut self, from: usize) -> (r: LoadStep)
        requires
            old(self)@.messages < usize::MAX,
            from <= old(self)@.pending.len(),
        ensures
            (final(self)@, r@) == old(self)@.advanced(from as nat),
            final(self)@.wf(),
    {
        let ghost all = self@.pending;
        let mut i: usize = from;
        while i < self.pending.len()
            invariant
                from <= i <= self.pending.len(),
                *self == *old(self),
                all == self.pending.deep_view(),
                all == old(self)@.pending,
                next_order(all, from as nat) == next_order(all, i as nat),
                self@.messages < usize::MAX,
            decreases self.pending.len() - i,
        {
            proof {
                assert(all[i as int] == self.pending@[i as int].deep_view());
            }
            match &self.pending[i].order {
                CommandRequestOrder::Proxy(order) => {
                    let order = (**order).clone();
                    self.messages = self.messages + 1;
                    self.next = i;
                    self.phase = LoadPhase::Dispatching;
                    return LoadStep::Dispatch(order);
                },
                _ => {},
            }
            i = i + 1;
        }
        self.next = i;
        let consumed = self.consumed;
        self.read_on(consumed)
    }

    /// What is said of a file that cannot be opened.
    pub fn open_failure(path: &str, cause: &str) -> (r: Outcome)
        ensures
            super::route::told_at_once(r) == Some(
                AdvancementModel::Error(
                    super::orders::in_context("Cannot open file at path "@ + path@, cause@),
                ),
            ),
    {
        let mut context = "Cannot open file at path ".to_owned();
        context.append(path);
        Outcome::Failed(with_context(context.as_str(), cause))
    }

    /// What the client is told at once after all is loaded: that nothing changed, where nothing did.
    /// Otherwise the answers of the workers are collected first.
    pub fn finish(&self, client: &Option<String>, path: &str) -> (r: Option<Advancement>)
        ensures
            match r {
                None => self@.diffs > 0 || client is None,
                Some(advancement) => self@.diffs == 0 && client is Some && advancement.deep_view()
                    == AdvancementModel::Done(SuccessModel::LoadState(path@, 0, 0)),
            },
    {
        if self.diffs == 0 && client.is_some() {
            return Some(return_success(Success::LoadState(path.to_owned(), 0, 0)));
        }
        None
    }
}

impl CommandServer {
    /// Goes on with what the loader waited for. The requests go to the workers.
    pub fn load_state(&mut self, loader: &mut StateLoader, event: LoadEvent, task: u64) -> (r: (
        Vec<(u32, WorkerRequest)>,
        LoadStep,
    ))
        requires
            old(loader)@.wf(),
            old(loader)@.accepts(event@),
        ensures
            (final(loader)@, r.1@) == old(loader)@.after(event@, old(self).deep_view()),
            r.0.deep_view() == old(loader)@.sent(event@, old(self).deep_view()),
            final(self).deep_view() == old(self).deep_view().waiting_for(
                r.0.deep_view(),
                task,
            ),
            final(loader)@.wf(),
    {
        let mut sent: Vec<(u32, WorkerRequest)> = Vec::new();
        proof {
            assert(sent.deep_view() =~= Seq::empty());
        }
        let step = match event {
            LoadEvent::Read(bytes) => {
                loader.previous = loader.buffer.available_data();
                loader.buffer.fill(&bytes);
                if loader.buffer.available_data() == 0 {
                    LoadStep::Finished
                } else {
                    loader.phase = LoadPhase::Parsing;
                    LoadStep::Parse
                }
            },
            LoadEvent::ReadFailed(cause) => {
                let mut text = "Error reading the saved state file: ".to_owned();
                text.append(cause.as_str());
                LoadStep::Failed(text)
            },
            LoadEvent::Parsed(requests, n) => {
                let there = loader.buffer.available_data();
                if n < there && loader.previous == there {
                    LoadStep::Failed("error consuming load state message".to_owned())
                } else if any_too_new(&requests) {
                    LoadStep::Finished
                } else {
                    loader.pending = requests;
                    loader.consumed = n;
                    loader.advance(0)
                }
            },
            LoadEvent::Incomplete => {
                if loader.buffer.available_data() == loader.buffer.capacity() {
                    LoadStep::Finished
                } else {
                    loader.read_on(0)
                }
            },
            LoadEvent::ParseFailed(cause) => {
                let mut text = "saved state parse error: ".to_owned();
                text.append(cause.as_str());
                LoadStep::Failed(text)
            },
            LoadEvent::Dispatched(accepted) => {
                let at = loader.next;
                proof {
                    assert(loader@.pending[at as int] == loader.pending@[at as int].deep_view());
                }
                let n = loader.pending.len();
                proof {
                    assert(at < n);
                }
                let mut found = true;
                if accepted {
                    loader.diffs = loader.diffs + 1;
                    match &loader.pending[at].order {
                        CommandRequestOrder::Proxy(order) => {
                            sent =
                            self.send_change(loader.request_id.as_str(), loader.diffs, order, task);
                        },
                        _ => {},
                    }
                    found = sent.len() > 0;
                }
                if found {
                    loader.advance(at + 1)
                } else {
                    LoadStep::Failed("no worker found".to_owned())
                }
            },
        };
        (sent, step)
    }
}

/// The orders for workers among the requests from place `from` on.
pub open spec fn orders_from(requests: Seq<CommandRequestModel>, from: nat) -> Seq<
    ProxyRequestOrderModel,
>
    decreases requests.len() - from,
{
    if from >= requests.len() {
        Seq::empty()
    } else {
        let rest = orders_from(requests, from + 1);
        match requests[from as int].order {
            CommandRequestOrderModel::Proxy(order) => seq![order] + rest,
            _ => rest,
        }
    }
}

/// The orders that the state is offered, where it answers each of them in turn.
pub open spec fn offered(
    now: (LoaderModel, LoadStepModel),
    answers: Seq<bool>,
    server: CommandServerModel,
) -> Seq<ProxyRequestOrderModel>
    decreases answers.len(),
{
    match now.1 {
        LoadStepModel::Dispatch(order) => if answers.len() == 0 {
            seq![order]
        } else {
            seq![order] + offered(
                now.0.after(LoadEventModel::Dispatched(answers[0]), server),
                answers.drop_first(),
                server,
            )
        },
        _ => Seq::empty(),
    }
}

proof fn lemma_next_order(requests: Seq<CommandRequestModel>, from: nat)
    requires
        from <= requests.len(),
    ensures
        from <= next_order(requests, from) <= requests.len(),
        next_order(requests, from) < requests.len() ==> requests[next_order(
            requests,
            from,
        ) as int].order is Proxy,
        orders_from(requests, from) == orders_from(requests, next_order(requests, from)),
    decreases requests.len() - from,
{
    if from < requests.len() && !(requests[from as int].order is Proxy) {
        lemma_next_order(requests, from + 1);
    }
}

/// Some worker is there for every order.
pub open spec fn someone_hears(server: CommandServerModel) -> bool {
    exists|i: int|
        0 <= i < server.workers.len() && Audience::Active.includes(
            (#[trigger] server.workers[i]).run_state,
        )
}

proof fn lemma_someone_gets_it(loader: LoaderModel, server: CommandServerModel)
    requires
        someone_hears(server),
    ensures
        loader.requests(server).len() > 0,
{
    let prefix = super::orders::change_prefix(loader.request_id, loader.diffs + 1);
    super::server::law_requests_go_to_the_audience(
        server.workers,
        Audience::Active,
        None,
        prefix,
        loader.current(),
    );
    let i = choose|i: int|
        0 <= i < server.workers.len() && Audience::Active.includes(
            (#[trigger] server.workers[i]).run_state,
        );
    assert(super::server::hears(Audience::Active, None, server.workers[i]));
    assert(loader.requests(server).contains(
        super::server::request_for(server.workers[i], prefix, loader.current()),
    ));
}

proof fn lemma_offered(
    loader: LoaderModel,
    from: nat,
    answers: Seq<bool>,
    server: CommandServerModel,
)
    requires
        from <= loader.pending.len(),
        someone_hears(server),
        orders_from(loader.pending, from).len() <= answers.len(),
    ensures
        offered(loader.advanced(from), answers, server) == orders_from(loader.pending, from),
    decreases answers.len(),
{
    let next = next_order(loader.pending, from);
    lemma_next_order(loader.pending, from);
    if next < loader.pending.len() {
        let (ahead, _) = loader.advanced(from);
        let rest = orders_from(loader.pending, next + 1);
        assert(orders_from(loader.pending, next) == seq![ahead.current()] + rest);
        lemma_someone_gets_it(ahead, server);
        let told = if answers[0] {
            LoaderModel { diffs: ahead.diffs + 1, ..ahead }
        } else {
            ahead
        };
        assert(ahead.after(LoadEventModel::Dispatched(answers[0]), server) == told.advanced(
            next + 1,
        ));
        lemma_offered(told, next + 1, answers.drop_first(), server);
    }
}

/// While there are workers, the state is offered every order of the requests that were read, each of
/// them once and in their order, whatever it says to them.
pub proof fn law_every_order_is_offered_once(
    loader: LoaderModel,
    requests: Seq<CommandRequestModel>,
    n: nat,
    answers: Seq<bool>,
    server: CommandServerModel,
)
    requires
        loader.accepts(LoadEventModel::Parsed(requests, n)),
        !(loader.after(LoadEventModel::Parsed(requests, n), server).1 is Failed),
        !too_new(requests),
        someone_hears(server),
        orders_from(requests, 0).len() <= answers.len(),
    ensures
        offered(loader.after(LoadEventModel::Parsed(requests, n), server), answers, server)
            == orders_from(requests, 0),
{
    let ahead = LoaderModel { pending: requests, consumed: n, ..loader };
    assert(loader.after(LoadEventModel::Parsed(requests, n), server) == ahead.advanced(0));
    lemma_offered(ahead, 0, answers, server);
}

proof fn lemma_saved_orders(orders: Seq<ProxyRequestOrderModel>, from: nat)
    requires
        from <= orders.len(),
    ensures
        orders_from(
            Seq::new(orders.len(), |i: int| super::save::saved_message(orders[i], i)),
            from,
        ) == orders.skip(from as int),
    decreases orders.len() - from,
{
    if from < orders.len() {
        lemma_saved_orders(orders, from + 1);
        assert(seq![orders[from as int]] + orders.skip((from + 1) as int) =~= orders.skip(from as int));
    } else {
        assert(orders.skip(from as int) =~= Seq::empty());
    }
}

/// The messages of a saved state are of a version that is understood, and hold the orders that the
/// state was saved with, in their order.
pub proof fn law_saved_orders_are_loaded(orders: Seq<ProxyRequestOrderModel>)
    ensures
        ({
            let messages = Seq::new(
                orders.len(),
                |i: int| super::save::saved_message(orders[i], i),
            );
            &&& !too_new(messages)
            &&& orders_from(messages, 0) == orders
        }),
{
    lemma_saved_orders(orders, 0);
    assert(orders.skip(0) =~= orders);
}

} // verus!
