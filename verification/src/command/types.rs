//! What clients ask of the main process, what workers answer, and what clients are told.
use vstd::prelude::*;
use vstd::string::*;

use crate::collections::TextMap;
use crate::proxy::{
    HttpFrontend, HttpFrontendModel, HttpListenerConfig, HttpListenerConfigModel,
    HttpsListenerConfig, HttpsListenerConfigModel, MetricsConfiguration, ProxyRequestOrder,
    ProxyRequestOrderModel, TcpFrontend, TcpFrontendModel, TcpListenerConfig,
    TcpListenerConfigModel,
};

verus! {

/// The highest version of the command protocol that is understood, and the one that is spoken.
pub const PROTOCOL_VERSION: u8 = 0;

/// Which frontends a client wants to see.
#[derive(Debug, PartialEq, Eq)]
pub struct FrontendFilters {
    pub http: bool,
    pub https: bool,
    pub tcp: bool,
    pub domain: Option<String>,
}

/// What a [`FrontendFilters`] holds, as mathematical values.
#[verifier::ext_equal]
pub struct FrontendFiltersModel {
    pub http: bool,
    pub https: bool,
    pub tcp: bool,
    pub domain: Option<Seq<char>>,
}

impl DeepView for FrontendFilters {
    type V = FrontendFiltersModel;

    open spec fn deep_view(&self) -> FrontendFiltersModel {
        FrontendFiltersModel {
            http: self.http,
            https: self.https,
            tcp: self.tcp,
            domain: self.domain.deep_view(),
        }
    }
}

impl Clone for FrontendFilters {
    fn clone(&self) -> (r: Self)
        ensures
            r.deep_view() == self.deep_view(),
    {
        FrontendFilters {
            http: self.http,
            https: self.https,
            tcp: self.tcp,
            domain: self.domain.clone(),
        }
    }
}

/// What a client asks for.
#[allow(inconsistent_fields)]
#[derive(Debug, PartialEq, Eq)]
pub enum CommandRequestOrder {
    SaveState { path: String },
    LoadState { path: String },
    DumpState,
    ListWorkers,
    ListFrontends(FrontendFilters),
    ListListeners,
    LaunchWorker(String),
    UpgradeMain,
    UpgradeWorker(u32),
    SubscribeEvents,
    ReloadConfiguration { path: Option<String> },
    Status,
    Proxy(Box<ProxyRequestOrder>),
}

/// What a [`CommandRequestOrder`] holds, as mathematical values.
#[allow(inconsistent_fields)]
#[verifier::ext_equal]
pub enum CommandRequestOrderModel {
    SaveState { path: Seq<char> },
    LoadState { path: Seq<char> },
    DumpState,
    ListWorkers,
    ListFrontends(FrontendFiltersModel),
    ListListeners,
    LaunchWorker(Seq<char>),
    UpgradeMain,
    UpgradeWorker(u32),
    SubscribeEvents,
    ReloadConfiguration { path: Option<Seq<char>> },
    Status,
    Proxy(ProxyRequestOrderModel),
}

impl DeepView for CommandRequestOrder {
    type V = CommandRequestOrderModel;

    open spec fn deep_view(&self) -> CommandRequestOrderModel {
        match self {
            CommandRequestOrder::SaveState { path } => CommandRequestOrderModel::SaveState { path: path@ },
            CommandRequestOrder::LoadState { path } => CommandRequestOrderModel::LoadState { path: path@ },
            CommandRequestOrder::DumpState => CommandRequestOrderModel::DumpState,
            CommandRequestOrder::ListWorkers => CommandRequestOrderModel::ListWorkers,
            CommandRequestOrder::ListFrontends(x) => CommandRequestOrderModel::ListFrontends(x.deep_view()),
            CommandRequestOrder::ListListeners => CommandRequestOrderModel::ListListeners,
            CommandRequestOrder::LaunchWorker(x) => CommandRequestOrderModel::LaunchWorker(x@),
            CommandRequestOrder::UpgradeMain => CommandRequestOrderModel::UpgradeMain,
            CommandRequestOrder::UpgradeWorker(x) => CommandRequestOrderModel::UpgradeWorker(*x),
            CommandRequestOrder::SubscribeEvents => CommandRequestOrderModel::SubscribeEvents,
            CommandRequestOrder::ReloadConfiguration { path } => CommandRequestOrderModel::ReloadConfiguration { path: path.deep_view() },
            CommandRequestOrder::Status => CommandRequestOrderModel::Status,
            CommandRequestOrder::Proxy(x) => CommandRequestOrderModel::Proxy(x.deep_view()),
        }
    }
}

impl Clone for CommandRequestOrder {
    fn clone(&self) -> (r: Self)
        ensures
            r.deep_view() == self.deep_view(),
    {
        match self {
            CommandRequestOrder::SaveState { path } => CommandRequestOrder::SaveState { path: path.clone() },
            CommandRequestOrder::LoadState { path } => CommandRequestOrder::LoadState { path: path.clone() },
            CommandRequestOrder::DumpState => CommandRequestOrder::DumpState,
            CommandRequestOrder::ListWorkers => CommandRequestOrder::ListWorkers,
            CommandRequestOrder::ListFrontends(x) => CommandRequestOrder::ListFrontends(x.clone()),
            CommandRequestOrder::ListListeners => CommandRequestOrder::ListListeners,
            CommandRequestOrder::LaunchWorker(x) => CommandRequestOrder::LaunchWorker(x.clone()),
            CommandRequestOrder::UpgradeMain => CommandRequestOrder::UpgradeMain,
            CommandRequestOrder::UpgradeWorker(x) => CommandRequestOrder::UpgradeWorker(*x),
            CommandRequestOrder::SubscribeEvents => CommandRequestOrder::SubscribeEvents,
            CommandRequestOrder::ReloadConfiguration { path } => CommandRequestOrder::ReloadConfiguration { path: path.clone() },
            CommandRequestOrder::Status => CommandRequestOrder::Status,
            CommandRequestOrder::Proxy(x) => CommandRequestOrder::Proxy(Box::new((**x).clone())),
        }
    }
}

/// A request of a client. It may be meant for one worker.
#[derive(Debug, PartialEq, Eq)]
pub struct CommandRequest {
    pub id: String,
    pub version: u8,
    pub worker_id: Option<u32>,
    pub order: CommandRequestOrder,
}

/// What a [`CommandRequest`] holds, as mathematical values.
#[verifier::ext_equal]
pub struct CommandRequestModel {
    pub id: Seq<char>,
    pub version: u8,
    pub worker_id: Option<u32>,
    pub order: CommandRequestOrderModel,
}

impl DeepView for CommandRequest {
    type V = CommandRequestModel;

    open spec fn deep_view(&self) -> CommandRequestModel {
        CommandRequestModel {
            id: self.id@,
            version: self.version,
            worker_id: self.worker_id,
            order: self.order.deep_view(),
        }
    }
}

impl Clone for CommandRequest {
    fn clone(&self) -> (r: Self)
        ensures
            r.deep_view() == self.deep_view(),
    {
        CommandRequest {
            id: self.id.clone(),
            version: self.version,
            worker_id: self.worker_id,
            order: self.order.clone(),
        }
    }
}

/// What is known of a worker.
#[derive(Debug, Clone, Copy, PartialEq, Eq, Structural, Hash)]
pub enum RunState {
    Running,
    Stopping,
    Stopped,
    NotAnswering,
}

impl DeepView for RunState {
    type V = RunState;

    open spec fn deep_view(&self) -> RunState {
        *self
    }
}

/// How far a request is.
#[derive(Debug, Clone, Copy, PartialEq, Eq, Structural, Hash)]
pub enum RequestStatus {
    Done,
    Processing,
    Error,
}

impl DeepView for RequestStatus {
    type V = RequestStatus;

    open spec fn deep_view(&self) -> RequestStatus {
        *self
    }
}

/// A worker of the main process.
#[derive(Debug, PartialEq, Eq)]
pub struct WorkerInfo {
    pub id: u32,
    pub pid: i32,
    pub run_state: RunState,
}

/// What a [`WorkerInfo`] holds, as mathematical values.
#[verifier::ext_equal]
pub struct WorkerInfoModel {
    pub id: u32,
    pub pid: i32,
    pub run_state: RunState,
}

impl DeepView for WorkerInfo {
    type V = WorkerInfoModel;

    open spec fn deep_view(&self) -> WorkerInfoModel {
        WorkerInfoModel {
            id: self.id,
            pid: self.pid,
            run_state: self.run_state,
        }
    }
}

impl Clone for WorkerInfo {
    fn clone(&self) -> (r: Self)
        ensures
            r.deep_view() == self.deep_view(),
    {
        WorkerInfo {
            id: self.id,
            pid: self.pid,
            run_state: self.run_state,
        }
    }
}

/// Which request of which client is meant.
#[derive(Debug, PartialEq, Eq)]
pub struct RequestIdentifier {
    pub client: String,
    pub request: String,
}

/// What a [`RequestIdentifier`] holds, as mathematical values.
#[verifier::ext_equal]
pub struct RequestIdentifierModel {
    pub client: Seq<char>,
    pub request: Seq<char>,
}

impl DeepView for RequestIdentifier {
    type V = RequestIdentifierModel;

    open spec fn deep_view(&self) -> RequestIdentifierModel {
        RequestIdentifierModel {
            client: self.client@,
            request: self.request@,
        }
    }
}

impl Clone for RequestIdentifier {
    fn clone(&self) -> (r: Self)
        ensures
            r.deep_view() == self.deep_view(),
    {
        RequestIdentifier {
            client: self.client.clone(),
            request: self.request.clone(),
        }
    }
}

/// An order for a worker.
#[derive(Debug, PartialEq, Eq)]
pub struct WorkerRequest {
    pub id: String,
    pub order: ProxyRequestOrder,
}

/// What a [`WorkerRequest`] holds, as mathematical values.
#[verifier::ext_equal]
pub struct WorkerRequestModel {
    pub id: Seq<char>,
    pub order: ProxyRequestOrderModel,
}

impl DeepView for WorkerRequest {
    type V = WorkerRequestModel;

    open spec fn deep_view(&self) -> WorkerRequestModel {
        WorkerRequestModel {
            id: self.id@,
            order: self.order.deep_view(),
        }
    }
}

impl Clone for WorkerRequest {
    fn clone(&self) -> (r: Self)
        ensures
            r.deep_view() == self.deep_view(),
    {
        WorkerRequest {
            id: self.id.clone(),
            order: self.order.clone(),
        }
    }
}

/// What a worker, or the main process in its place, has to say. What is not looked into is held in its
/// serialised form.
#[derive(Debug, PartialEq, Eq)]
pub enum WorkerContent {
    AvailableMetrics(Vec<String>),
    Metrics(String),
    Clusters(String),
    ClustersHashes(String),
    Certificates(String),
}

/// What a [`WorkerContent`] holds, as mathematical values.
#[verifier::ext_equal]
pub enum WorkerContentModel {
    AvailableMetrics(Seq<Seq<char>>),
    Metrics(Seq<char>),
    Clusters(Seq<char>),
    ClustersHashes(Seq<char>),
    Certificates(Seq<char>),
}

impl DeepView for WorkerContent {
    type V = WorkerContentModel;

    open spec fn deep_view(&self) -> WorkerContentModel {
        match self {
            WorkerContent::AvailableMetrics(x) => WorkerContentModel::AvailableMetrics(x.deep_view()),
            WorkerContent::Metrics(x) => WorkerContentModel::Metrics(x@),
            WorkerContent::Clusters(x) => WorkerContentModel::Clusters(x@),
            WorkerContent::ClustersHashes(x) => WorkerContentModel::ClustersHashes(x@),
            WorkerContent::Certificates(x) => WorkerContentModel::Certificates(x@),
        }
    }
}

impl Clone for WorkerContent {
    fn clone(&self) -> (r: Self)
        ensures
            r.deep_view() == self.deep_view(),
    {
        match self {
            WorkerContent::AvailableMetrics(x) => WorkerContent::AvailableMetrics(x.clone()),
            WorkerContent::Metrics(x) => WorkerContent::Metrics(x.clone()),
            WorkerContent::Clusters(x) => WorkerContent::Clusters(x.clone()),
            WorkerContent::ClustersHashes(x) => WorkerContent::ClustersHashes(x.clone()),
            WorkerContent::Certificates(x) => WorkerContent::Certificates(x.clone()),
        }
    }
}

/// The answer of a worker to an order.
#[derive(Debug, PartialEq, Eq)]
pub struct WorkerResponse {
    pub id: String,
    pub status: RequestStatus,
    pub error: Option<String>,
    pub content: Option<WorkerContent>,
}

/// What a [`WorkerResponse`] holds, as mathematical values.
#[verifier::ext_equal]
pub struct WorkerResponseModel {
    pub id: Seq<char>,
    pub status: RequestStatus,
    pub error: Option<Seq<char>>,
    pub content: Option<WorkerContentModel>,
}

impl DeepView for WorkerResponse {
    type V = WorkerResponseModel;

    open spec fn deep_view(&self) -> WorkerResponseModel {
        WorkerResponseModel {
            id: self.id@,
            status: self.status,
            error: self.error.deep_view(),
            content: self.content.deep_view(),
        }
    }
}

impl Clone for WorkerResponse {
    fn clone(&self) -> (r: Self)
        ensures
            r.deep_view() == self.deep_view(),
    {
        WorkerResponse {
            id: self.id.clone(),
            status: self.status,
            error: self.error.clone(),
            content: self.content.clone(),
        }
    }
}

/// Frontends by kind.
#[derive(Debug, PartialEq, Eq)]
pub struct ListedFrontends {
    pub http_frontends: Vec<HttpFrontend>,
    pub https_frontends: Vec<HttpFrontend>,
    pub tcp_frontends: Vec<TcpFrontend>,
}

/// What a [`ListedFrontends`] holds, as mathematical values.
#[verifier::ext_equal]
pub struct ListedFrontendsModel {
    pub http_frontends: Seq<HttpFrontendModel>,
    pub https_frontends: Seq<HttpFrontendModel>,
    pub tcp_frontends: Seq<TcpFrontendModel>,
}

impl DeepView for ListedFrontends {
    type V = ListedFrontendsModel;

    open spec fn deep_view(&self) -> ListedFrontendsModel {
        ListedFrontendsModel {
            http_frontends: self.http_frontends.deep_view(),
            https_frontends: self.https_frontends.deep_view(),
            tcp_frontends: self.tcp_frontends.deep_view(),
        }
    }
}

/// Listeners by kind.
#[derive(Debug, PartialEq, Eq)]
pub struct ListenersList {
    pub http_listeners: Vec<HttpListenerConfig>,
    pub https_listeners: Vec<HttpsListenerConfig>,
    pub tcp_listeners: Vec<TcpListenerConfig>,
}

/// What a [`ListenersList`] holds, as mathematical values.
#[verifier::ext_equal]
pub struct ListenersListModel {
    pub http_listeners: Seq<HttpListenerConfigModel>,
    pub https_listeners: Seq<HttpsListenerConfigModel>,
    pub tcp_listeners: Seq<TcpListenerConfigModel>,
}

impl DeepView for ListenersList {
    type V = ListenersListModel;

    open spec fn deep_view(&self) -> ListenersListModel {
        ListenersListModel {
            http_listeners: self.http_listeners.deep_view(),
            https_listeners: self.https_listeners.deep_view(),
            tcp_listeners: self.tcp_listeners.deep_view(),
        }
    }
}

/// The names of the metrics of the main process and of the workers.
#[derive(Debug, PartialEq, Eq)]
pub struct AvailableMetrics {
    pub main: Vec<String>,
    pub workers: TextMap<Vec<String>>,
}

/// What a [`AvailableMetrics`] holds, as mathematical values.
#[verifier::ext_equal]
pub struct AvailableMetricsModel {
    pub main: Seq<Seq<char>>,
    pub workers: Seq<(Seq<char>, Seq<Seq<char>>)>,
}

impl DeepView for AvailableMetrics {
    type V = AvailableMetricsModel;

    open spec fn deep_view(&self) -> AvailableMetricsModel {
        AvailableMetricsModel {
            main: self.main.deep_view(),
            workers: self.workers.deep_view(),
        }
    }
}

/// The metrics of the main process and of the workers, in their serialised form.
#[derive(Debug, PartialEq, Eq)]
pub struct AggregatedMetrics {
    pub main: String,
    pub workers: TextMap<String>,
}

/// What a [`AggregatedMetrics`] holds, as mathematical values.
#[verifier::ext_equal]
pub struct AggregatedMetricsModel {
    pub main: Seq<char>,
    pub workers: Seq<(Seq<char>, Seq<char>)>,
}

impl DeepView for AggregatedMetrics {
    type V = AggregatedMetricsModel;

    open spec fn deep_view(&self) -> AggregatedMetricsModel {
        AggregatedMetricsModel {
            main: self.main@,
            workers: self.workers.deep_view(),
        }
    }
}

/// What a client gets besides a message.
#[derive(Debug, PartialEq, Eq)]
pub enum ResponseContent {
    Workers(Vec<WorkerInfo>),
    Status(Vec<WorkerInfo>),
    FrontendList(ListedFrontends),
    ListenersList(ListenersList),
    State(String),
    Query(TextMap<WorkerContent>),
    AvailableMetrics(AvailableMetrics),
    Metrics(AggregatedMetrics),
}

/// What a [`ResponseContent`] holds, as mathematical values.
#[verifier::ext_equal]
pub enum ResponseContentModel {
    Workers(Seq<WorkerInfoModel>),
    Status(Seq<WorkerInfoModel>),
    FrontendList(ListedFrontendsModel),
    ListenersList(ListenersListModel),
    State(Seq<char>),
    Query(Seq<(Seq<char>, WorkerContentModel)>),
    AvailableMetrics(AvailableMetricsModel),
    Metrics(AggregatedMetricsModel),
}

impl DeepView for ResponseContent {
    type V = ResponseContentModel;

    open spec fn deep_view(&self) -> ResponseContentModel {
        match self {
            ResponseContent::Workers(x) => ResponseContentModel::Workers(x.deep_view()),
            ResponseContent::Status(x) => ResponseContentModel::Status(x.deep_view()),
            ResponseContent::FrontendList(x) => ResponseContentModel::FrontendList(x.deep_view()),
            ResponseContent::ListenersList(x) => ResponseContentModel::ListenersList(x.deep_view()),
            ResponseContent::State(x) => ResponseContentModel::State(x@),
            ResponseContent::Query(x) => ResponseContentModel::Query(x.deep_view()),
            ResponseContent::AvailableMetrics(x) => ResponseContentModel::AvailableMetrics(x.deep_view()),
            ResponseContent::Metrics(x) => ResponseContentModel::Metrics(x.deep_view()),
        }
    }
}

/// What went well.
#[derive(Debug, PartialEq, Eq)]
pub enum Success {
    SaveState(usize, String),
    DumpState(ResponseContent),
    ListFrontends(ResponseContent),
    ListListeners(ResponseContent),
    ListWorkers(ResponseContent),
    LoadState(String, usize, usize),
    WorkerLaunched(u32),
    UpgradeMain(i32),
    UpgradeWorker(u32),
    ReloadConfiguration(usize, usize),
    Status(ResponseContent),
    Metrics(MetricsConfiguration),
    Query(ResponseContent),
    Logging(String),
    WorkerOrder(Option<u32>),
    SubscribeEvent(String),
    NotifiedClient(String),
    HandledClientRequest,
}

/// What a [`Success`] holds, as mathematical values.
#[verifier::ext_equal]
pub enum SuccessModel {
    SaveState(usize, Seq<char>),
    DumpState(ResponseContentModel),
    ListFrontends(ResponseContentModel),
    ListListeners(ResponseContentModel),
    ListWorkers(ResponseContentModel),
    LoadState(Seq<char>, usize, usize),
    WorkerLaunched(u32),
    UpgradeMain(i32),
    UpgradeWorker(u32),
    ReloadConfiguration(usize, usize),
    Status(ResponseContentModel),
    Metrics(MetricsConfiguration),
    Query(ResponseContentModel),
    Logging(Seq<char>),
    WorkerOrder(Option<u32>),
    SubscribeEvent(Seq<char>),
    NotifiedClient(Seq<char>),
    HandledClientRequest,
}

impl DeepView for Success {
    type V = SuccessModel;

    open spec fn deep_view(&self) -> SuccessModel {
        match self {
            Success::SaveState(x, y) => SuccessModel::SaveState(*x, y@),
            Success::DumpState(x) => SuccessModel::DumpState(x.deep_view()),
            Success::ListFrontends(x) => SuccessModel::ListFrontends(x.deep_view()),
            Success::ListListeners(x) => SuccessModel::ListListeners(x.deep_view()),
            Success::ListWorkers(x) => SuccessModel::ListWorkers(x.deep_view()),
            Success::LoadState(x, y, z) => SuccessModel::LoadState(x@, *y, *z),
            Success::WorkerLaunched(x) => SuccessModel::WorkerLaunched(*x),
            Success::UpgradeMain(x) => SuccessModel::UpgradeMain(*x),
            Success::UpgradeWorker(x) => SuccessModel::UpgradeWorker(*x),
            Success::ReloadConfiguration(x, y) => SuccessModel::ReloadConfiguration(*x, *y),
            Success::Status(x) => SuccessModel::Status(x.deep_view()),
            Success::Metrics(x) => SuccessModel::Metrics(*x),
            Success::Query(x) => SuccessModel::Query(x.deep_view()),
            Success::Logging(x) => SuccessModel::Logging(x@),
            Success::WorkerOrder(x) => SuccessModel::WorkerOrder(*x),
            Success::SubscribeEvent(x) => SuccessModel::SubscribeEvent(x@),
            Success::NotifiedClient(x) => SuccessModel::NotifiedClient(x@),
            Success::HandledClientRequest => SuccessModel::HandledClientRequest,
        }
    }
}

/// How far a request of a client is.
#[derive(Debug, PartialEq, Eq)]
pub enum Advancement {
    Done(Success),
    Processing(String),
    Error(String),
}

/// What a [`Advancement`] holds, as mathematical values.
#[verifier::ext_equal]
pub enum AdvancementModel {
    Done(SuccessModel),
    Processing(Seq<char>),
    Error(Seq<char>),
}

impl DeepView for Advancement {
    type V = AdvancementModel;

    open spec fn deep_view(&self) -> AdvancementModel {
        match self {
            Advancement::Done(x) => AdvancementModel::Done(x.deep_view()),
            Advancement::Processing(x) => AdvancementModel::Processing(x@),
            Advancement::Error(x) => AdvancementModel::Error(x@),
        }
    }
}

/// The answer to a client.
#[derive(Debug, PartialEq, Eq)]
pub struct Response {
    pub id: String,
    pub version: u8,
    pub status: RequestStatus,
    pub message: String,
    pub content: Option<ResponseContent>,
}

/// What a [`Response`] holds, as mathematical values.
#[verifier::ext_equal]
pub struct ResponseModel {
    pub id: Seq<char>,
    pub version: u8,
    pub status: RequestStatus,
    pub message: Seq<char>,
    pub content: Option<ResponseContentModel>,
}

impl DeepView for Response {
    type V = ResponseModel;

    open spec fn deep_view(&self) -> ResponseModel {
        ResponseModel {
            id: self.id@,
            version: self.version,
            status: self.status,
            message: self.message@,
            content: self.content.deep_view(),
        }
    }
}

} // verus!
