//! Which part of the main process deals with a request, and how its result is told.
use vstd::prelude::*;
use vstd::string::*;

use crate::proxy::{MetricsConfiguration, ProxyRequestOrder, ProxyRequestOrderModel};

use super::orders::with_context;
use super::progress::Progress;
use super::server::{CommandServer, CommandServerModel};
use super::types::{
    Advancement, AdvancementModel, CommandRequest, CommandRequestModel, CommandRequestOrder,
    CommandRequestOrderModel, FrontendFilters, FrontendFiltersModel, RequestIdentifier,
    RequestIdentifierModel, RequestStatus, Response, ResponseContentModel, ResponseModel, Success,
    SuccessModel, PROTOCOL_VERSION,
};

verus! {

/// The part of the main process that deals with a request.
#[derive(Debug)]
pub enum Task {
    SaveState(String),
    DumpState,
    ListWorkers,
    ListFrontends(FrontendFilters),
    ListListeners,
    LoadState(String),
    LaunchWorker(String),
    UpgradeMain,
    UpgradeWorker(u32),
    ConfigureMetrics(MetricsConfiguration),
    Query(ProxyRequestOrder),
    SetLogging(String),
    WorkerOrder(ProxyRequestOrder, Option<u32>),
    SubscribeEvents,
    ReloadConfiguration(Option<String>),
    Status,
}

/// What a [`Task`] holds.
#[verifier::ext_equal]
pub enum TaskModel {
    SaveState(Seq<char>),
    DumpState,
    ListWorkers,
    ListFrontends(FrontendFiltersModel),
    ListListeners,
    LoadState(Seq<char>),
    LaunchWorker(Seq<char>),
    UpgradeMain,
    UpgradeWorker(u32),
    ConfigureMetrics(MetricsConfiguration),
    Query(ProxyRequestOrderModel),
    SetLogging(Seq<char>),
    WorkerOrder(ProxyRequestOrderModel, Option<u32>),
    SubscribeEvents,
    ReloadConfiguration(Option<Seq<char>>),
    Status,
}

impl View for Task {
    type V = TaskModel;

    open spec fn view(&self) -> TaskModel {
        match self {
            Task::SaveState(path) => TaskModel::SaveState(path@),
            Task::DumpState => TaskModel::DumpState,
            Task::ListWorkers => TaskModel::ListWorkers,
            Task::ListFrontends(filters) => TaskModel::ListFrontends(filters.deep_view()),
            Task::ListListeners => TaskModel::ListListeners,
            Task::LoadState(path) => TaskModel::LoadState(path@),
            Task::LaunchWorker(tag) => TaskModel::LaunchWorker(tag@),
            Task::UpgradeMain => TaskModel::UpgradeMain,
            Task::UpgradeWorker(id) => TaskModel::UpgradeWorker(*id),
            Task::ConfigureMetrics(config) => TaskModel::ConfigureMetrics(*config),
            Task::Query(order) => TaskModel::Query(order.deep_view()),
            Task::SetLogging(filter) => TaskModel::SetLogging(filter@),
            Task::WorkerOrder(order, id) => TaskModel::WorkerOrder(order.deep_view(), *id),
            Task::SubscribeEvents => TaskModel::SubscribeEvents,
            Task::ReloadConfiguration(path) => TaskModel::ReloadConfiguration(path.deep_view()),
            Task::Status => TaskModel::Status,
        }
    }
}

/// The order asks the workers for something.
pub open spec fn is_query(order: ProxyRequestOrderModel) -> bool {
    match order {
        ProxyRequestOrderModel::QueryAllCertificates => true,
        ProxyRequestOrderModel::QueryCertificateByDomain(_) => true,
        ProxyRequestOrderModel::QueryCertificateByFingerprint(_) => true,
        ProxyRequestOrderModel::QueryClusterByDomain { .. } => true,
        ProxyRequestOrderModel::QueryClusterById { .. } => true,
        ProxyRequestOrderModel::QueryClustersHashes => true,
        ProxyRequestOrderModel::QueryMetrics(_) => true,
        _ => false,
    }
}

impl CommandRequestModel {
    /// The part of the main process that deals with the request. Metrics, queries and the log level
    /// have their own; every other order for workers is passed on.
    pub open spec fn task(self) -> TaskModel {
        match self.order {
            CommandRequestOrderModel::SaveState { path } => TaskModel::SaveState(path),
            CommandRequestOrderModel::DumpState => TaskModel::DumpState,
            CommandRequestOrderModel::ListWorkers => TaskModel::ListWorkers,
            CommandRequestOrderModel::ListFrontends(filters) => TaskModel::ListFrontends(filters),
            CommandRequestOrderModel::ListListeners => TaskModel::ListListeners,
            CommandRequestOrderModel::LoadState { path } => TaskModel::LoadState(path),
            CommandRequestOrderModel::LaunchWorker(tag) => TaskModel::LaunchWorker(tag),
            CommandRequestOrderModel::UpgradeMain => TaskModel::UpgradeMain,
            CommandRequestOrderModel::UpgradeWorker(id) => TaskModel::UpgradeWorker(id),
            CommandRequestOrderModel::SubscribeEvents => TaskModel::SubscribeEvents,
            CommandRequestOrderModel::ReloadConfiguration { path } =>
            TaskModel::ReloadConfiguration(path),
            CommandRequestOrderModel::Status => TaskModel::Status,
            CommandRequestOrderModel::Proxy(order) => match order {
                ProxyRequestOrderModel::ConfigureMetrics(config) => TaskModel::ConfigureMetrics(
                    config,
                ),
                ProxyRequestOrderModel::Logging(filter) => TaskModel::SetLogging(filter),
                order => if is_query(order) {
                    TaskModel::Query(order)
                } else {
                    TaskModel::WorkerOrder(order, self.worker_id)
                },
            },
        }
    }
}

fn asks(order: &ProxyRequestOrder) -> (r: bool)
    ensures
        r == is_query(order.deep_view()),
{
    match order {
        ProxyRequestOrder::QueryAllCertificates => true,
        ProxyRequestOrder::QueryCertificateByDomain(_) => true,
        ProxyRequestOrder::QueryCertificateByFingerprint(_) => true,
        ProxyRequestOrder::QueryClusterByDomain { .. } => true,
        ProxyRequestOrder::QueryClusterById { .. } => true,
        ProxyRequestOrder::QueryClustersHashes => true,
        ProxyRequestOrder::QueryMetrics(_) => true,
        _ => false,
    }
}

/// What is known of the result of a request when its part of the main process returns.
#[derive(Debug)]
pub enum Outcome {
    /// all went well
    Done(Success),
    /// something went wrong, in words
    Failed(String),
    /// the result is told later, or was told already
    Later,
}

/// What the client is told at once of an outcome.
pub open spec fn told_at_once(outcome: Outcome) -> Option<AdvancementModel> {
    match outcome {
        Outcome::Done(success) => Some(AdvancementModel::Done(success.deep_view())),
        Outcome::Failed(text) => Some(AdvancementModel::Error(text@)),
        Outcome::Later => None,
    }
}

/// What the client is told at once of an outcome.
pub fn tell_at_once(outcome: Outcome) -> (r: Option<Advancement>)
    ensures
        match (r, told_at_once(outcome)) {
            (Some(advancement), Some(model)) => advancement.deep_view() == model,
            (None, None) => true,
            _ => false,
        },
{
    match outcome {
        Outcome::Done(success) => Some(return_success(success)),
        Outcome::Failed(text) => Some(return_error(Some(text))),
        Outcome::Later => None,
    }
}

/// Tells of an error, in the words that are known of it.
pub fn return_error(error_message: Option<String>) -> (r: Advancement)
    ensures
        r.deep_view() == AdvancementModel::Error(
            match error_message {
                Some(text) => text@,
                None => "No context provided for this error"@,
            },
        ),
{
    Advancement::Error(
        match error_message {
            Some(text) => text,
            None => "No context provided for this error".to_owned(),
        },
    )
}

/// Tells that a request is being worked on.
pub fn return_processing(progress: Progress) -> (r: Advancement)
    ensures
        r.deep_view() == AdvancementModel::Processing(progress.text()),
{
    Advancement::Processing(progress.to_text())
}

/// Tells of a success.
pub fn return_success(success: Success) -> (r: Advancement)
    ensures
        r.deep_view() == AdvancementModel::Done(success.deep_view()),
{
    Advancement::Done(success)
}

impl CommandServer {
    /// The part of the main process that deals with a request of a client, and how the request is
    /// called in what the client is told.
    pub fn handle_client_request(&self, client_id: String, request: CommandRequest) -> (r: (
        RequestIdentifier,
        Task,
    ))
        ensures
            r.0.deep_view() == (RequestIdentifierModel {
                client: client_id@,
                request: request.id@,
            }),
            r.1@ == request.deep_view().task(),
    {
        let identifier = RequestIdentifier { client: client_id, request: request.id };
        let task = match request.order {
            CommandRequestOrder::SaveState { path } => Task::SaveState(path),
            CommandRequestOrder::DumpState => Task::DumpState,
            CommandRequestOrder::ListWorkers => Task::ListWorkers,
            CommandRequestOrder::ListFrontends(filters) => Task::ListFrontends(filters),
            CommandRequestOrder::ListListeners => Task::ListListeners,
            CommandRequestOrder::LoadState { path } => Task::LoadState(path),
            CommandRequestOrder::LaunchWorker(tag) => Task::LaunchWorker(tag),
            CommandRequestOrder::UpgradeMain => Task::UpgradeMain,
            CommandRequestOrder::UpgradeWorker(id) => Task::UpgradeWorker(id),
            CommandRequestOrder::SubscribeEvents => Task::SubscribeEvents,
            CommandRequestOrder::ReloadConfiguration { path } => Task::ReloadConfiguration(path),
            CommandRequestOrder::Status => Task::Status,
            CommandRequestOrder::Proxy(order) => match *order {
                ProxyRequestOrder::ConfigureMetrics(config) => Task::ConfigureMetrics(config),
                ProxyRequestOrder::Logging(filter) => Task::SetLogging(filter),
                order => {
                    if asks(&order) {
                        Task::Query(order)
                    } else {
                        Task::WorkerOrder(order, request.worker_id)
                    }
                },
            },
        };
        (identifier, task)
    }

    /// Lets a client hear of events.
    pub fn subscribe_events(&mut self, client_id: &str) -> (r: Success)
        ensures
            r.deep_view() == SuccessModel::SubscribeEvent(client_id@),
            final(self).deep_view() == (CommandServerModel {
                event_subscribers: if old(self).deep_view().event_subscribers.contains(client_id@) {
                    old(self).deep_view().event_subscribers
                } else {
                    old(self).deep_view().event_subscribers.push(client_id@)
                },
                ..old(self).deep_view()
            }),
    {
        self.subscribe(client_id);
        Success::SubscribeEvent(client_id.to_owned())
    }
}

/// What a success brings along for the client.
pub open spec fn content_of(success: SuccessModel) -> Option<ResponseContentModel> {
    match success {
        SuccessModel::DumpState(content) => Some(content),
        SuccessModel::ListFrontends(content) => Some(content),
        SuccessModel::ListWorkers(content) => Some(content),
        SuccessModel::Query(content) => Some(content),
        SuccessModel::ListListeners(content) => Some(content),
        SuccessModel::Status(content) => Some(content),
        _ => None,
    }
}

/// The answer to a client. `success_message` is the success in words.
pub open spec fn response(
    request_id: Seq<char>,
    advancement: AdvancementModel,
    success_message: Seq<char>,
) -> ResponseModel {
    match advancement {
        AdvancementModel::Done(success) => ResponseModel {
            id: request_id,
            version: PROTOCOL_VERSION,
            status: RequestStatus::Done,
            message: success_message,
            content: content_of(success),
        },
        AdvancementModel::Processing(message) => ResponseModel {
            id: request_id,
            version: PROTOCOL_VERSION,
            status: RequestStatus::Processing,
            message,
            content: None,
        },
        AdvancementModel::Error(message) => ResponseModel {
            id: request_id,
            version: PROTOCOL_VERSION,
            status: RequestStatus::Error,
            message,
            content: None,
        },
    }
}

impl CommandServer {
    /// The answer to a client. `success_message` is the success in words.
    pub fn notify_advancement_to_client(
        &self,
        identifier: &RequestIdentifier,
        advancement: Advancement,
        success_message: String,
    ) -> (r: Response)
        ensures
            r.deep_view() == response(
                identifier.deep_view().request,
                advancement.deep_view(),
                success_message@,
            ),
    {
        let id = identifier.request.clone();
        match advancement {
            Advancement::Done(success) => {
                let content = match success {
                    Success::DumpState(content) => Some(content),
                    Success::ListFrontends(content) => Some(content),
                    Success::ListWorkers(content) => Some(content),
                    Success::Query(content) => Some(content),
                    Success::ListListeners(content) => Some(content),
                    Success::Status(content) => Some(content),
                    _ => None,
                };
                Response {
                    id,
                    version: PROTOCOL_VERSION,
                    status: RequestStatus::Done,
                    message: success_message,
                    content,
                }
            },
            Advancement::Processing(message) => Response {
                id,
                version: PROTOCOL_VERSION,
                status: RequestStatus::Processing,
                message,
                content: None,
            },
            Advancement::Error(message) => Response {
                id,
                version: PROTOCOL_VERSION,
                status: RequestStatus::Error,
                message,
                content: None,
            },
        }
    }
}

/// What came of sending an answer to its client.
#[derive(Debug)]
pub enum Delivery {
    Sent,
    /// the connection of the client does not take it, in words
    Refused(String),
    /// there is no such client
    NoClient,
}

/// What is said of an answer that was to be sent.
pub fn delivered(identifier: &RequestIdentifier, delivery: Delivery) -> (r: Result<Success, String>)
    ensures
        match (r, delivery) {
            (Ok(success), Delivery::Sent) => success.deep_view() == SuccessModel::NotifiedClient(
                identifier.deep_view().client,
            ),
            (Err(text), Delivery::Refused(cause)) => text@ == super::orders::in_context(
                "Could not notify client "@ + identifier.deep_view().client + " about request "@
                    + identifier.deep_view().request,
                cause@,
            ),
            (Err(text), Delivery::NoClient) => text@ == "Could not find client "@
                + identifier.deep_view().client,
            _ => false,
        },
{
    match delivery {
        Delivery::Sent => Ok(Success::NotifiedClient(identifier.client.clone())),
        Delivery::Refused(cause) => {
            let mut text = "Could not notify client ".to_owned();
            text.append(identifier.client.as_str());
            text.append(" about request ");
            text.append(identifier.request.as_str());
            Err(with_context(text.as_str(), cause.as_str()))
        },
        Delivery::NoClient => {
            let mut text = "Could not find client ".to_owned();
            text.append(identifier.client.as_str());
            Err(text)
        },
    }
}

/// A client is answered with the identifier of its request, and with an error exactly where
/// something went wrong.
pub proof fn law_answer_fits_the_advancement(
    request_id: Seq<char>,
    advancement: AdvancementModel,
    success_message: Seq<char>,
)
    ensures
        ({
            let answer = response(request_id, advancement, success_message);
            &&& answer.id == request_id
            &&& answer.status == RequestStatus::Error <==> advancement is Error
            &&& answer.status == RequestStatus::Done <==> advancement is Done
            &&& answer.content is Some ==> advancement is Done
        }),
{
}

} // verus!
