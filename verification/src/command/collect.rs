//! Collects the answers of workers until there is something to tell the client.
use vstd::prelude::*;
use vstd::string::*;

use crate::collections::TextMap;
use crate::proxy::{MetricsConfiguration, ProxyRequestOrder, ProxyRequestOrderModel};
use crate::text::{decimal_text, join_text, quoted_text};

use super::types::{
    Advancement, AdvancementModel, AggregatedMetrics, AggregatedMetricsModel, AvailableMetrics,
    AvailableMetricsModel, RequestStatus, ResponseContent, ResponseContentModel, RunState, Success,
    SuccessModel, WorkerContent, WorkerContentModel, WorkerInfo, WorkerInfoModel, WorkerResponse,
    WorkerResponseModel,
};

verus! {

/// What an answer leads to.
#[derive(Debug, Clone, Copy, PartialEq, Eq, Structural)]
pub struct Received {
    /// the worker has stopped
    pub close_worker: Option<u32>,
    /// nothing more is waited for
    pub finished: bool,
}

/// The error of a worker in words, or the word for none.
pub open spec fn error_text(error: Option<Seq<char>>) -> Seq<char> {
    match error {
        Some(error) => "Some("@ + crate::text::quoted(error) + ")"@,
        None => "None"@,
    }
}

/// What is said of an answer.
pub open spec fn answer_text(tag: Seq<char>, answer: WorkerResponseModel) -> Seq<char> {
    if answer.status == RequestStatus::Error {
        tag + ": "@ + error_text(answer.error)
    } else {
        tag + ": OK"@
    }
}

/// What is said of all answers.
pub open spec fn answers_text(answers: Seq<(Seq<char>, WorkerResponseModel)>) -> Seq<char> {
    crate::text::joined(
        Seq::new(answers.len(), |i: int| answer_text(answers[i].0, answers[i].1)),
        ", "@,
    )
}

/// One of the answers is an error.
pub open spec fn has_error(answers: Seq<(Seq<char>, WorkerResponseModel)>) -> bool {
    exists|i: int|
        0 <= i < answers.len() && (#[trigger] answers[i]).1.status == RequestStatus::Error
}

/// What the client is told: of all answers where one of them is an error, and otherwise of the
/// success.
pub open spec fn told(
    answers: Seq<(Seq<char>, WorkerResponseModel)>,
    success: SuccessModel,
) -> AdvancementModel {
    if has_error(answers) {
        AdvancementModel::Error(answers_text(answers))
    } else {
        AdvancementModel::Done(success)
    }
}

fn text_of_answer(tag: &String, answer: &WorkerResponse) -> (r: String)
    ensures
        r@ == answer_text(tag@, answer.deep_view()),
{
    let mut text = tag.clone();
    match answer.status {
        RequestStatus::Error => {
            text.append(": ");
            match &answer.error {
                Some(error) => {
                    text.append("Some(");
                    text.append(quoted_text(error.as_str()).as_str());
                    text.append(")");
                },
                None => {
                    text.append("None");
                },
            }
        },
        _ => {
            text.append(": OK");
        },
    }
    text
}

/// What the client is told.
fn tell(answers: &Vec<(String, WorkerResponse)>, success: Success) -> (r: Advancement)
    ensures
        r.deep_view() == told(answers.deep_view(), success.deep_view()),
{
    let ghost all = answers.deep_view();
    let mut messages: Vec<String> = Vec::new();
    let mut failed = false;
    let mut i: usize = 0;
    while i < answers.len()
        invariant
            i <= answers.len(),
            all == answers.deep_view(),
            messages.len() == i,
            forall|k: int|
                0 <= k < i ==> (#[trigger] messages@[k])@ == answer_text(all[k].0, all[k].1),
            failed <==> exists|k: int|
                0 <= k < i && (#[trigger] all[k]).1.status == RequestStatus::Error,
        decreases answers.len() - i,
    {
        let text = text_of_answer(&answers[i].0, &answers[i].1);
        proof {
            assert(all[i as int] == answers@[i as int].deep_view());
        }
        messages.push(text);
        match answers[i].1.status {
            RequestStatus::Error => {
                failed = true;
            },
            _ => {},
        }
        i = i + 1;
    }
    if failed {
        proof {
            assert(messages.deep_view() =~= Seq::new(
                all.len(),
                |i: int| answer_text(all[i].0, all[i].1),
            ));
        }
        Advancement::Error(join_text(&messages, ", "))
    } else {
        Advancement::Done(success)
    }
}

/// Collects the answers to an order for workers.
#[derive(Debug)]
pub struct OrderCollector {
    pub expected: usize,
    pub answers: Vec<(String, WorkerResponse)>,
    /// the workers that the order stops
    pub stopping: Vec<u32>,
    /// the worker that the order was for, where it was for one
    pub worker_id: Option<u32>,
    /// the main process stops after its workers
    pub stop_main: bool,
}

/// What an [`OrderCollector`] holds.
#[verifier::ext_equal]
pub struct OrderCollectorModel {
    pub expected: nat,
    pub answers: Seq<(Seq<char>, WorkerResponseModel)>,
    pub stopping: Seq<u32>,
    pub worker_id: Option<u32>,
    pub stop_main: bool,
}

impl View for OrderCollector {
    type V = OrderCollectorModel;

    open spec fn view(&self) -> OrderCollectorModel {
        OrderCollectorModel {
            expected: self.expected as nat,
            answers: self.answers.deep_view(),
            stopping: self.stopping@,
            worker_id: self.worker_id,
            stop_main: self.stop_main,
        }
    }
}

impl OrderCollectorModel {
    /// After an answer. One that only says that the order is being worked on does not count.
    pub open spec fn after(self, worker_id: u32, answer: WorkerResponseModel) -> (
        OrderCollectorModel,
        Received,
    ) {
        if answer.status == RequestStatus::Processing {
            (self, Received { close_worker: None, finished: false })
        } else {
            let answers = self.answers.push((crate::text::decimal(worker_id as nat), answer));
            (
                OrderCollectorModel { answers, ..self },
                Received {
                    close_worker: if answer.status == RequestStatus::Done
                        && self.stopping.contains(worker_id) {
                        Some(worker_id)
                    } else {
                        None
                    },
                    finished: answers.len() == self.expected,
                },
            )
        }
    }
}

/// The collector after all of these answers.
pub open spec fn after_all(
    collector: OrderCollectorModel,
    answers: Seq<(u32, WorkerResponseModel)>,
) -> OrderCollectorModel
    decreases answers.len(),
{
    if answers.len() == 0 {
        collector
    } else {
        after_all(collector, answers.drop_last()).after(answers.last().0, answers.last().1).0
    }
}

/// How many of the answers are more than a sign of life.
pub open spec fn conclusive(answers: Seq<(u32, WorkerResponseModel)>) -> nat
    decreases answers.len(),
{
    if answers.len() == 0 {
        0
    } else if answers.last().1.status == RequestStatus::Processing {
        conclusive(answers.drop_last())
    } else {
        conclusive(answers.drop_last()) + 1
    }
}

/// An order is waited for until as many workers gave a conclusive answer as got it, and the client
/// hears of a failure exactly where one of these answers is an error.
pub proof fn law_every_answer_counts(
    collector: OrderCollectorModel,
    answers: Seq<(u32, WorkerResponseModel)>,
)
    requires
        collector.answers.len() == 0,
    ensures
        after_all(collector, answers).answers.len() == conclusive(answers),
        after_all(collector, answers).expected == collector.expected,
        answers.len() > 0 ==> (after_all(collector, answers.drop_last()).after(
            answers.last().0,
            answers.last().1,
        ).1.finished <==> answers.last().1.status != RequestStatus::Processing && conclusive(
            answers,
        ) == collector.expected),
        has_error(after_all(collector, answers).answers) <==> exists|i: int|
            0 <= i < answers.len() && (#[trigger] answers[i]).1.status == RequestStatus::Error,
    decreases answers.len(),
{
    if answers.len() > 0 {
        let first = answers.drop_last();
        law_every_answer_counts(collector, first);
        let before = after_all(collector, first).answers;
        let after = after_all(collector, answers).answers;
        let last = answers.last().1;
        if has_error(before) {
            let i = choose|i: int|
                0 <= i < first.len() && (#[trigger] first[i]).1.status == RequestStatus::Error;
            assert(answers[i] == first[i]);
            let k = choose|k: int|
                0 <= k < before.len() && (#[trigger] before[k]).1.status == RequestStatus::Error;
            assert(after[k] == before[k]);
        }
        if last.status == RequestStatus::Error {
            assert(answers[answers.len() - 1].1.status == RequestStatus::Error);
            assert(after[after.len() - 1].1.status == RequestStatus::Error);
        }
        if !has_error(before) && last.status != RequestStatus::Error {
            assert forall|i: int| 0 <= i < answers.len() implies (#[trigger] answers[i]).1.status
                != RequestStatus::Error by {
                if i < first.len() {
                    assert(first[i] == answers[i]);
                }
            }
            assert forall|k: int| 0 <= k < after.len() implies (#[trigger] after[k]).1.status
                != RequestStatus::Error by {
                if k < before.len() {
                    assert(after[k] == before[k]);
                }
            }
        }
    }
}

fn has_id(ids: &Vec<u32>, id: u32) -> (r: bool)
    ensures
        r == ids@.contains(id),
{
    let mut i: usize = 0;
    while i < ids.len()
        invariant
            i <= ids.len(),
            forall|k: int| 0 <= k < i ==> ids@[k] != id,
        decreases ids.len() - i,
    {
        if ids[i] == id {
            return true;
        }
        i = i + 1;
    }
    false
}

impl OrderCollector {
    /// Takes in an answer.
    pub fn receive(&mut self, worker_id: u32, answer: WorkerResponse) -> (r: Received)
        ensures
            (final(self)@, r) == old(self)@.after(worker_id, answer.deep_view()),
    {
        let ghost before = self.answers.deep_view();
        let close_worker = match answer.status {
            RequestStatus::Processing => {
                return Received { close_worker: None, finished: false };
            },
            RequestStatus::Done => {
                if has_id(&self.stopping, worker_id) {
                    Some(worker_id)
                } else {
                    None
                }
            },
            RequestStatus::Error => None,
        };
        let tag = decimal_text(worker_id as u64);
        self.answers.push((tag, answer));
        proof {
            assert(self.answers.deep_view() =~= before.push((tag@, answer.deep_view())));
        }
        Received { close_worker, finished: self.answers.len() == self.expected }
    }

    /// What the client is told once nothing more is waited for.
    pub fn finish(&self) -> (r: Advancement)
        ensures
            r.deep_view() == told(self@.answers, SuccessModel::WorkerOrder(self@.worker_id)),
    {
        tell(&self.answers, Success::WorkerOrder(self.worker_id))
    }
}

/// `s` starts with `prefix`.
pub open spec fn starts_with(s: Seq<char>, prefix: Seq<char>) -> bool {
    s.len() >= prefix.len() && s.take(prefix.len() as int) == prefix
}

/// `s` without `prefix` in front of it, as often as it stands there.
pub open spec fn without_prefix(s: Seq<char>, prefix: Seq<char>) -> Seq<char>
    decreases s.len(),
{
    if prefix.len() > 0 && starts_with(s, prefix) {
        without_prefix(s.skip(prefix.len() as int), prefix)
    } else {
        s
    }
}

/// Whether the `prefix` stands in `s` from `at` on.
fn stands_at(s: &Vec<char>, prefix: &Vec<char>, at: usize) -> (r: bool)
    requires
        at <= s.len(),
    ensures
        r == starts_with(s@.skip(at as int), prefix@),
{
    if s.len() - at < prefix.len() {
        return false;
    }
    let mut i: usize = 0;
    let ghost rest = s@.skip(at as int);
    while i < prefix.len()
        invariant
            i <= prefix.len() <= s.len() - at,
            rest == s@.skip(at as int),
            forall|k: int| 0 <= k < i ==> rest[k] == prefix@[k],
        decreases prefix.len() - i,
    {
        if s[at + i] != prefix[i] {
            proof {
                assert(rest.take(prefix@.len() as int)[i as int] == s@[at + i]);
            }
            return false;
        }
        i = i + 1;
    }
    proof {
        assert(rest.take(prefix@.len() as int) =~= prefix@);
    }
    true
}

/// `s` without `prefix` in front of it, as often as it stands there.
fn trim_prefix(s: &str, prefix: &str) -> (r: String)
    ensures
        r@ == without_prefix(s@, prefix@),
{
    let chars = crate::text::chars_of(s);
    let start = crate::text::chars_of(prefix);
    let mut at: usize = 0;
    proof {
        assert(s@.skip(0) =~= s@);
    }
    if start.len() > 0 {
        while stands_at(&chars, &start, at)
            invariant
                chars@ == s@,
                start@ == prefix@,
                start.len() > 0,
                at <= chars.len(),
                without_prefix(s@, prefix@) == without_prefix(s@.skip(at as int), prefix@),
            decreases chars.len() - at,
        {
            proof {
                assert(s@.skip(at as int).skip(prefix@.len() as int) =~= s@.skip(
                    at + prefix@.len(),
                ));
            }
            at = at + start.len();
        }
    }
    let r = crate::text::text_of(&chars, at, chars.len());
    proof {
        assert(r@ =~= s@.skip(at as int));
    }
    r
}

/// Collects the answers to a change of the metrics.
#[derive(Debug)]
pub struct MetricsCollector {
    pub expected: usize,
    pub answers: Vec<(String, WorkerResponse)>,
    /// what the identifiers of the requests start with
    pub prefix: String,
    pub config: MetricsConfiguration,
}

/// What a [`MetricsCollector`] holds.
#[verifier::ext_equal]
pub struct MetricsCollectorModel {
    pub expected: nat,
    pub answers: Seq<(Seq<char>, WorkerResponseModel)>,
    pub prefix: Seq<char>,
    pub config: MetricsConfiguration,
}

impl View for MetricsCollector {
    type V = MetricsCollectorModel;

    open spec fn view(&self) -> MetricsCollectorModel {
        MetricsCollectorModel {
            expected: self.expected as nat,
            answers: self.answers.deep_view(),
            prefix: self.prefix@,
            config: self.config,
        }
    }
}

impl MetricsCollectorModel {
    /// After an answer, which stands under what follows the prefix in its identifier.
    pub open spec fn after(self, answer: WorkerResponseModel) -> (MetricsCollectorModel, bool) {
        if answer.status == RequestStatus::Processing {
            (self, false)
        } else {
            let answers = self.answers.push((without_prefix(answer.id, self.prefix), answer));
            (MetricsCollectorModel { answers, ..self }, answers.len() == self.expected)
        }
    }
}

impl MetricsCollector {
    /// Takes in an answer. Nothing more is waited for where the result is `true`.
    pub fn receive(&mut self, answer: WorkerResponse) -> (r: bool)
        ensures
            (final(self)@, r) == old(self)@.after(answer.deep_view()),
    {
        let ghost before = self.answers.deep_view();
        match answer.status {
            RequestStatus::Processing => {
                return false;
            },
            _ => {},
        }
        let tag = trim_prefix(answer.id.as_str(), self.prefix.as_str());
        self.answers.push((tag, answer));
        proof {
            assert(self.answers.deep_view() =~= before.push((tag@, answer.deep_view())));
        }
        self.answers.len() == self.expected
    }

    /// What the client is told once nothing more is waited for.
    pub fn finish(&self) -> (r: Advancement)
        ensures
            r.deep_view() == told(self@.answers, SuccessModel::Metrics(self@.config)),
    {
        tell(&self.answers, Success::Metrics(self.config))
    }
}

/// Collects the states of the workers.
#[derive(Debug)]
pub struct StatusCollector {
    pub expected: usize,
    pub received: usize,
    /// what is known of the workers, by the identifiers of the requests to them
    pub infos: TextMap<WorkerInfo>,
}

/// What a [`StatusCollector`] holds.
#[verifier::ext_equal]
pub struct StatusCollectorModel {
    pub expected: nat,
    pub received: nat,
    pub infos: Seq<(Seq<char>, WorkerInfoModel)>,
}

impl View for StatusCollector {
    type V = StatusCollectorModel;

    open spec fn view(&self) -> StatusCollectorModel {
        StatusCollectorModel {
            expected: self.expected as nat,
            received: self.received as nat,
            infos: self.infos.deep_view(),
        }
    }
}

impl StatusCollectorModel {
    /// After an answer: the worker runs, or it does not answer as it should. `late` tells that
    /// enough time was spent on waiting.
    pub open spec fn after(self, answer: WorkerResponseModel, late: bool) -> (
        StatusCollectorModel,
        bool,
    ) {
        if answer.status == RequestStatus::Processing {
            (self, false)
        } else {
            let run_state = if answer.status == RequestStatus::Done {
                RunState::Running
            } else {
                RunState::NotAnswering
            };
            let infos = match crate::collections::value_at(self.infos, answer.id) {
                Some(info) => crate::collections::inserted(
                    self.infos,
                    answer.id,
                    WorkerInfoModel { run_state, ..info },
                ),
                None => self.infos,
            };
            (
                StatusCollectorModel { received: self.received + 1, infos, ..self },
                self.received + 1 == self.expected || late,
            )
        }
    }

    /// All that is known, in the order of the identifiers of the requests.
    pub open spec fn workers(self) -> Seq<WorkerInfoModel> {
        Seq::new(self.infos.len(), |i: int| self.infos[i].1)
    }
}

impl StatusCollector {
    /// Takes in an answer. Nothing more is waited for where the result is `true`.
    pub fn receive(&mut self, answer: WorkerResponse, late: bool) -> (r: bool)
        requires
            old(self)@.received < usize::MAX,
        ensures
            (final(self)@, r) == old(self)@.after(answer.deep_view(), late),
    {
        let run_state = match answer.status {
            RequestStatus::Done => RunState::Running,
            RequestStatus::Processing => {
                return false;
            },
            RequestStatus::Error => RunState::NotAnswering,
        };
        let known = match self.infos.get(&answer.id) {
            Some(info) => Some((info.id, info.pid)),
            None => None,
        };
        match known {
            Some((id, pid)) => {
                self.infos.insert(answer.id, WorkerInfo { id, pid, run_state });
            },
            None => {},
        }
        self.received = self.received + 1;
        self.received == self.expected || late
    }

    /// What the client is told.
    pub fn finish(&self) -> (r: Advancement)
        ensures
            r.deep_view() == AdvancementModel::Done(
                SuccessModel::Status(ResponseContentModel::Status(self@.workers())),
            ),
    {
        let ghost all = self.infos.deep_view();
        let n = self.infos.len();
        let mut workers: Vec<WorkerInfo> = Vec::new();
        let mut i: usize = 0;
        while i < n
            invariant
                i <= n,
                n == self.infos.entries().len(),
                all == self.infos.deep_view(),
                workers.len() == i,
                forall|k: int|
                    0 <= k < i ==> (#[trigger] workers@[k]).deep_view() == all[k].1,
            decreases n - i,
        {
            workers.push(self.infos.entry(i).1.clone());
            i = i + 1;
        }
        proof {
            assert(workers.deep_view() =~= self@.workers());
        }
        Advancement::Done(Success::Status(ResponseContent::Status(workers)))
    }
}

/// Collects the answers to a query.
#[derive(Debug)]
pub struct QueryCollector {
    pub expected: usize,
    pub answers: Vec<(u32, WorkerResponse)>,
}

/// What a [`QueryCollector`] holds.
#[verifier::ext_equal]
pub struct QueryCollectorModel {
    pub expected: nat,
    pub answers: Seq<(u32, WorkerResponseModel)>,
}

impl View for QueryCollector {
    type V = QueryCollectorModel;

    open spec fn view(&self) -> QueryCollectorModel {
        QueryCollectorModel { expected: self.expected as nat, answers: self.answers.deep_view() }
    }
}

/// The contents of the answers by worker. The last one of a worker counts.
pub open spec fn contents(answers: Seq<(u32, WorkerResponseModel)>) -> Seq<
    (Seq<char>, WorkerContentModel),
>
    decreases answers.len(),
{
    if answers.len() == 0 {
        Seq::empty()
    } else {
        let before = contents(answers.drop_last());
        match answers.last().1.content {
            Some(content) => crate::collections::inserted(
                before,
                crate::text::decimal(answers.last().0 as nat),
                content,
            ),
            None => before,
        }
    }
}

/// The names of the metrics, of those that sent any.
pub open spec fn available(contents: Seq<(Seq<char>, WorkerContentModel)>) -> Seq<
    (Seq<char>, Seq<Seq<char>>),
>
    decreases contents.len(),
{
    if contents.len() == 0 {
        Seq::empty()
    } else {
        let before = available(contents.drop_last());
        match contents.last().1 {
            WorkerContentModel::AvailableMetrics(names) => crate::collections::inserted(
                before,
                contents.last().0,
                names,
            ),
            _ => before,
        }
    }
}

/// The metrics, of those that sent any.
pub open spec fn metrics(contents: Seq<(Seq<char>, WorkerContentModel)>) -> Seq<
    (Seq<char>, Seq<char>),
>
    decreases contents.len(),
{
    if contents.len() == 0 {
        Seq::empty()
    } else {
        let before = metrics(contents.drop_last());
        match contents.last().1 {
            WorkerContentModel::Metrics(values) => crate::collections::inserted(
                before,
                contents.last().0,
                values,
            ),
            _ => before,
        }
    }
}

/// The main process answers the query too.
pub open spec fn needs_main(order: ProxyRequestOrderModel) -> bool {
    order is QueryClustersHashes || order is QueryClusterById || order is QueryClusterByDomain
}

/// Whether the main process answers the query too.
pub fn asks_main(order: &ProxyRequestOrder) -> (r: bool)
    ensures
        r == needs_main(order.deep_view()),
{
    match order {
        ProxyRequestOrder::QueryClustersHashes => true,
        ProxyRequestOrder::QueryClusterById { .. } => true,
        ProxyRequestOrder::QueryClusterByDomain { .. } => true,
        _ => false,
    }
}

/// What the client is told of a query. A query of all certificates is not answered.
pub open spec fn query_answer(
    order: ProxyRequestOrderModel,
    contents: Seq<(Seq<char>, WorkerContentModel)>,
    main_answer: Option<WorkerContentModel>,
    main_metrics: Seq<char>,
) -> Option<ResponseContentModel> {
    match order {
        order if needs_main(order) => Some(
            ResponseContentModel::Query(
                crate::collections::inserted(contents, "main"@, main_answer->0),
            ),
        ),
        ProxyRequestOrderModel::QueryCertificateByDomain(_) => Some(
            ResponseContentModel::Query(contents),
        ),
        ProxyRequestOrderModel::QueryCertificateByFingerprint(_) => Some(
            ResponseContentModel::Query(contents),
        ),
        ProxyRequestOrderModel::QueryMetrics(options) => if options.list {
            Some(
                ResponseContentModel::AvailableMetrics(
                    AvailableMetricsModel { main: Seq::empty(), workers: available(contents) },
                ),
            )
        } else {
            Some(
                ResponseContentModel::Metrics(
                    AggregatedMetricsModel { main: main_metrics, workers: metrics(contents) },
                ),
            )
        },
        _ => None,
    }
}

/// The names of the metrics, of those that sent any.
fn available_metrics(contents: &TextMap<WorkerContent>) -> (r: TextMap<Vec<String>>)
    ensures
        r.deep_view() == available(contents.deep_view()),
{
    let ghost all = contents.deep_view();
    let n = contents.len();
    let mut r: TextMap<Vec<String>> = TextMap::new();
    let mut i: usize = 0;
    proof {
        assert(all.take(0) =~= Seq::empty());
        assert(r.deep_view() =~= Seq::empty());
    }
    while i < n
        invariant
            i <= n,
            n == contents.entries().len(),
            all == contents.deep_view(),
            r.deep_view() == available(all.take(i as int)),
        decreases n - i,
    {
        let entry = contents.entry(i);
        proof {
            assert(all.take(i + 1).drop_last() =~= all.take(i as int));
            assert(all.take(i + 1).last() == (entry.0@, entry.1.deep_view()));
        }
        match &entry.1 {
            WorkerContent::AvailableMetrics(names) => {
                let copy = names.clone();
                proof {
                    assert(copy.deep_view() =~= names.deep_view());
                }
                r.insert(entry.0.clone(), copy);
            },
            _ => {},
        }
        i = i + 1;
    }
    proof {
        assert(all.take(all.len() as int) =~= all);
    }
    r
}

/// The metrics, of those that sent any.
fn worker_metrics(contents: &TextMap<WorkerContent>) -> (r: TextMap<String>)
    ensures
        r.deep_view() == metrics(contents.deep_view()),
{
    let ghost all = contents.deep_view();
    let n = contents.len();
    let mut r: TextMap<String> = TextMap::new();
    let mut i: usize = 0;
    proof {
        assert(all.take(0) =~= Seq::empty());
        assert(r.deep_view() =~= Seq::empty());
    }
    while i < n
        invariant
            i <= n,
            n == contents.entries().len(),
            all == contents.deep_view(),
            r.deep_view() == metrics(all.take(i as int)),
        decreases n - i,
    {
        let entry = contents.entry(i);
        proof {
            assert(all.take(i + 1).drop_last() =~= all.take(i as int));
            assert(all.take(i + 1).last() == (entry.0@, entry.1.deep_view()));
        }
        match &entry.1 {
            WorkerContent::Metrics(values) => {
                r.insert(entry.0.clone(), values.clone());
            },
            _ => {},
        }
        i = i + 1;
    }
    proof {
        assert(all.take(all.len() as int) =~= all);
    }
    r
}

impl QueryCollectorModel {
    /// After an answer.
    pub open spec fn after(self, worker_id: u32, answer: WorkerResponseModel) -> (
        QueryCollectorModel,
        bool,
    ) {
        if answer.status == RequestStatus::Processing {
            (self, false)
        } else {
            let answers = self.answers.push((worker_id, answer));
            (QueryCollectorModel { answers, ..self }, answers.len() == self.expected)
        }
    }
}

impl QueryCollector {
    /// Takes in an answer. Nothing more is waited for where the result is `true`.
    pub fn receive(&mut self, worker_id: u32, answer: WorkerResponse) -> (r: bool)
        ensures
            (final(self)@, r) == old(self)@.after(worker_id, answer.deep_view()),
    {
        let ghost before = self.answers.deep_view();
        match answer.status {
            RequestStatus::Processing => {
                return false;
            },
            _ => {},
        }
        self.answers.push((worker_id, answer));
        proof {
            assert(self.answers.deep_view() =~= before.push((worker_id, answer.deep_view())));
        }
        self.answers.len() == self.expected
    }

    /// The contents of the answers by worker.
    fn contents(&self) -> (r: TextMap<WorkerContent>)
        ensures
            r.deep_view() == contents(self@.answers),
    {
        let ghost all = self.answers.deep_view();
        let mut r: TextMap<WorkerContent> = TextMap::new();
        let mut i: usize = 0;
        proof {
            assert(all.take(0) =~= Seq::empty());
            assert(r.deep_view() =~= Seq::empty());
        }
        while i < self.answers.len()
            invariant
                i <= self.answers.len(),
                all == self.answers.deep_view(),
                r.deep_view() == contents(all.take(i as int)),
            decreases self.answers.len() - i,
        {
            proof {
                assert(all.take(i + 1).drop_last() =~= all.take(i as int));
                assert(all.take(i + 1).last() == self.answers@[i as int].deep_view());
            }
            match &self.answers[i].1.content {
                Some(content) => {
                    r.insert(decimal_text(self.answers[i].0 as u64), content.clone());
                },
                None => {},
            }
            i = i + 1;
        }
        proof {
            assert(all.take(all.len() as int) =~= all);
        }
        r
    }

    /// What the client is told, where there is anything to tell. `main_answer` is the answer of the
    /// main process, and `main_metrics` are its metrics.
    pub fn finish(
        &self,
        order: &ProxyRequestOrder,
        main_answer: Option<WorkerContent>,
        main_metrics: String,
    ) -> (r: Option<Advancement>)
        requires
            needs_main(order.deep_view()) ==> main_answer is Some,
        ensures
            match (
                r,
                query_answer(
                    order.deep_view(),
                    contents(self@.answers),
                    main_answer.deep_view(),
                    main_metrics@,
                ),
            ) {
                (Some(advancement), Some(content)) => advancement.deep_view()
                    == AdvancementModel::Done(SuccessModel::Query(content)),
                (None, None) => true,
                _ => false,
            },
    {
        let mut by_worker = self.contents();
        let content = match order {
            ProxyRequestOrder::QueryClustersHashes | ProxyRequestOrder::QueryClusterById { .. }
            | ProxyRequestOrder::QueryClusterByDomain { .. } => {
                match main_answer {
                    Some(answer) => {
                        by_worker.insert("main".to_owned(), answer);
                    },
                    None => {},
                }
                ResponseContent::Query(by_worker)
            },
            ProxyRequestOrder::QueryCertificateByDomain(_)
            | ProxyRequestOrder::QueryCertificateByFingerprint(_) => ResponseContent::Query(
                by_worker,
            ),
            ProxyRequestOrder::QueryMetrics(options) => {
                if options.list {
                    let main: Vec<String> = Vec::new();
                    proof {
                        assert(main.deep_view() =~= Seq::empty());
                    }
                    ResponseContent::AvailableMetrics(
                        AvailableMetrics { main, workers: available_metrics(&by_worker) },
                    )
                } else {
                    ResponseContent::Metrics(
                        AggregatedMetrics { main: main_metrics, workers: worker_metrics(&by_worker) },
                    )
                }
            },
            _ => {
                return None;
            },
        };
        Some(Advancement::Done(Success::Query(content)))
    }
}

/// Counts the answers to a state or a configuration that was sent to workers.
#[derive(Debug, Clone, Copy, PartialEq, Eq, Structural)]
pub struct LoadCollector {
    pub good: usize,
    pub bad: usize,
}

impl LoadCollector {
    /// After an answer.
    pub open spec fn after(self, status: RequestStatus) -> LoadCollector {
        match status {
            RequestStatus::Done => LoadCollector { good: (self.good + 1) as usize, ..self },
            RequestStatus::Processing => self,
            RequestStatus::Error => LoadCollector { bad: (self.bad + 1) as usize, ..self },
        }
    }

    /// What the client is told of a state that was loaded.
    pub open spec fn loaded(self, path: Seq<char>) -> AdvancementModel {
        if self.bad == 0 {
            AdvancementModel::Done(SuccessModel::LoadState(path, self.good, 0))
        } else {
            AdvancementModel::Error(
                "Loading state failed, ok: "@ + crate::text::decimal(self.good as nat)
                    + ", error: "@ + crate::text::decimal(self.bad as nat) + ", path: "@ + path,
            )
        }
    }

    /// What the client is told of a configuration that was reloaded.
    pub open spec fn reloaded(self) -> AdvancementModel {
        if self.bad == 0 {
            AdvancementModel::Done(SuccessModel::ReloadConfiguration(self.good, 0))
        } else {
            AdvancementModel::Error(
                "Reloading configuration failed. ok: "@ + crate::text::decimal(self.good as nat)
                    + " messages, error: "@ + crate::text::decimal(self.bad as nat),
            )
        }
    }

    pub fn new() -> (r: LoadCollector)
        ensures
            r == (LoadCollector { good: 0, bad: 0 }),
    {
        LoadCollector { good: 0, bad: 0 }
    }

    /// Takes in an answer.
    pub fn receive(&mut self, status: RequestStatus)
        requires
            old(self).good < usize::MAX,
            old(self).bad < usize::MAX,
        ensures
            *final(self) == old(self).after(status),
    {
        match status {
            RequestStatus::Done => {
                self.good = self.good + 1;
            },
            RequestStatus::Processing => {},
            RequestStatus::Error => {
                self.bad = self.bad + 1;
            },
        }
    }

    /// What the client is told of a state that was loaded.
    pub fn finish_load(&self, path: &str) -> (r: Advancement)
        ensures
            r.deep_view() == self.loaded(path@),
    {
        if self.bad == 0 {
            return Advancement::Done(Success::LoadState(path.to_owned(), self.good, 0));
        }
        let mut text = "Loading state failed, ok: ".to_owned();
        text.append(decimal_text(self.good as u64).as_str());
        text.append(", error: ");
        text.append(decimal_text(self.bad as u64).as_str());
        text.append(", path: ");
        text.append(path);
        Advancement::Error(text)
    }

    /// What the client is told of a configuration that was reloaded.
    pub fn finish_reload(&self) -> (r: Advancement)
        ensures
            r.deep_view() == self.reloaded(),
    {
        if self.bad == 0 {
            return Advancement::Done(Success::ReloadConfiguration(self.good, 0));
        }
        let mut text = "Reloading configuration failed. ok: ".to_owned();
        text.append(decimal_text(self.good as u64).as_str());
        text.append(" messages, error: ");
        text.append(decimal_text(self.bad as u64).as_str());
        Advancement::Error(text)
    }
}

} // verus!
