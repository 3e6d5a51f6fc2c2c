//! Why a configuration is refused.
use vstd::prelude::*;
use vstd::string::*;

use crate::address::SocketAddress;

verus! {

/// What was being done when an error came up.
#[derive(Debug, PartialEq, Eq)]
pub enum ErrorContext {
    Answers,
    HttpFrontend,
    InvalidListener,
    ToTls,
    ToHttp,
    ToTcp,
    Cluster(String),
    LoadingFile,
    ParsingFile,
    SavedState,
}

/// What a [`ErrorContext`] holds, as mathematical values.
#[verifier::ext_equal]
pub enum ErrorContextModel {
    Answers,
    HttpFrontend,
    InvalidListener,
    ToTls,
    ToHttp,
    ToTcp,
    Cluster(Seq<char>),
    LoadingFile,
    ParsingFile,
    SavedState,
}

impl DeepView for ErrorContext {
    type V = ErrorContextModel;

    open spec fn deep_view(&self) -> ErrorContextModel {
        match self {
            ErrorContext::Answers => ErrorContextModel::Answers,
            ErrorContext::HttpFrontend => ErrorContextModel::HttpFrontend,
            ErrorContext::InvalidListener => ErrorContextModel::InvalidListener,
            ErrorContext::ToTls => ErrorContextModel::ToTls,
            ErrorContext::ToHttp => ErrorContextModel::ToHttp,
            ErrorContext::ToTcp => ErrorContextModel::ToTcp,
            ErrorContext::Cluster(x) => ErrorContextModel::Cluster(x@),
            ErrorContext::LoadingFile => ErrorContextModel::LoadingFile,
            ErrorContext::ParsingFile => ErrorContextModel::ParsingFile,
            ErrorContext::SavedState => ErrorContextModel::SavedState,
        }
    }
}

impl ErrorContextModel {
    /// The context in words.
    pub open spec fn text(self) -> Seq<char> {
        match self {
            ErrorContextModel::Answers => "Could not get 404 and 503 answers from file system"@,
            ErrorContextModel::HttpFrontend => "Could not convert frontend config to http frontend"@,
            ErrorContextModel::InvalidListener => "invalid listener"@,
            ErrorContextModel::ToTls => "Cannot convert listener to TLS"@,
            ErrorContextModel::ToHttp => "Cannot convert listener to HTTP"@,
            ErrorContextModel::ToTcp => "Cannot convert listener to TCP"@,
            ErrorContextModel::Cluster(x) => "error parsing cluster configuration for cluster "@ + x,
            ErrorContextModel::LoadingFile => "Could not load the config file"@,
            ErrorContextModel::ParsingFile => "Could not parse config from file"@,
            ErrorContextModel::SavedState => "Invalid saved_state in the config. Check your config file"@,
        }
    }
}

impl ErrorContext {
    /// The context in words.
    pub fn to_text(&self) -> (r: String)
        ensures
            r@ == self.deep_view().text(),
    {
        match self {
            ErrorContext::Answers => "Could not get 404 and 503 answers from file system".to_owned(),
            ErrorContext::HttpFrontend => "Could not convert frontend config to http frontend".to_owned(),
            ErrorContext::InvalidListener => "invalid listener".to_owned(),
            ErrorContext::ToTls => "Cannot convert listener to TLS".to_owned(),
            ErrorContext::ToHttp => "Cannot convert listener to HTTP".to_owned(),
            ErrorContext::ToTcp => "Cannot convert listener to TCP".to_owned(),
            ErrorContext::Cluster(x) => {
                let mut r = "error parsing cluster configuration for cluster ".to_owned();
                r.append(x.as_str());
                r
            },
            ErrorContext::LoadingFile => "Could not load the config file".to_owned(),
            ErrorContext::ParsingFile => "Could not parse config from file".to_owned(),
            ErrorContext::SavedState => "Invalid saved_state in the config. Check your config file".to_owned(),
        }
    }
}

/// The reason of an error.
#[derive(Debug, PartialEq, Eq)]
pub enum ErrorCause {
    NotHttp,
    NotHttps,
    Open404 { path: String, current_dir: String, cause: String },
    Read404 { path: String, current_dir: String, cause: String },
    Open503 { path: String, cause: String },
    Read503 { path: String, cause: String },
    TcpHostname,
    TcpPath,
    TcpCertificate,
    TcpCertificateChain,
    MissingHostname,
    LoadKey { path: String, cause: String },
    LoadCertificate { path: String, cause: String },
    LoadCertificateChain { path: String, cause: String },
    MixedExpectProxy { cluster_id: String },
    DuplicateListener(SocketAddress),
    IncompatibleListener(SocketAddress),
    HttpFrontendOnTcpListener,
    HttpsFrontendOnHttpListener,
    HttpFrontendOnHttpsListener,
    TcpFrontendOnHttpListener,
    NoCurrentDir,
    InvalidSocketPath,
    AutomaticSaveWithoutPath,
    AddressAlreadyUsed(SocketAddress),
    NoConfigFolder,
    SocketFolder { shown: String, cause: String },
    NoSocketFileName,
    SocketPathNotUnicode,
    SavedStatePath { shown: String, cause: String },
    Decoding(String),
    Unreadable(String),
}

/// What a [`ErrorCause`] holds, as mathematical values.
#[verifier::ext_equal]
pub enum ErrorCauseModel {
    NotHttp,
    NotHttps,
    Open404 { path: Seq<char>, current_dir: Seq<char>, cause: Seq<char> },
    Read404 { path: Seq<char>, current_dir: Seq<char>, cause: Seq<char> },
    Open503 { path: Seq<char>, cause: Seq<char> },
    Read503 { path: Seq<char>, cause: Seq<char> },
    TcpHostname,
    TcpPath,
    TcpCertificate,
    TcpCertificateChain,
    MissingHostname,
    LoadKey { path: Seq<char>, cause: Seq<char> },
    LoadCertificate { path: Seq<char>, cause: Seq<char> },
    LoadCertificateChain { path: Seq<char>, cause: Seq<char> },
    MixedExpectProxy { cluster_id: Seq<char> },
    DuplicateListener(SocketAddress),
    IncompatibleListener(SocketAddress),
    HttpFrontendOnTcpListener,
    HttpsFrontendOnHttpListener,
    HttpFrontendOnHttpsListener,
    TcpFrontendOnHttpListener,
    NoCurrentDir,
    InvalidSocketPath,
    AutomaticSaveWithoutPath,
    AddressAlreadyUsed(SocketAddress),
    NoConfigFolder,
    SocketFolder { shown: Seq<char>, cause: Seq<char> },
    NoSocketFileName,
    SocketPathNotUnicode,
    SavedStatePath { shown: Seq<char>, cause: Seq<char> },
    Decoding(Seq<char>),
    Unreadable(Seq<char>),
}

impl DeepView for ErrorCause {
    type V = ErrorCauseModel;

    open spec fn deep_view(&self) -> ErrorCauseModel {
        match self {
            ErrorCause::NotHttp => ErrorCauseModel::NotHttp,
            ErrorCause::NotHttps => ErrorCauseModel::NotHttps,
            ErrorCause::Open404 { path, current_dir, cause } => ErrorCauseModel::Open404 { path: path@, current_dir: current_dir@, cause: cause@ },
            ErrorCause::Read404 { path, current_dir, cause } => ErrorCauseModel::Read404 { path: path@, current_dir: current_dir@, cause: cause@ },
            ErrorCause::Open503 { path, cause } => ErrorCauseModel::Open503 { path: path@, cause: cause@ },
            ErrorCause::Read503 { path, cause } => ErrorCauseModel::Read503 { path: path@, cause: cause@ },
            ErrorCause::TcpHostname => ErrorCauseModel::TcpHostname,
            ErrorCause::TcpPath => ErrorCauseModel::TcpPath,
            ErrorCause::TcpCertificate => ErrorCauseModel::TcpCertificate,
            ErrorCause::TcpCertificateChain => ErrorCauseModel::TcpCertificateChain,
            ErrorCause::MissingHostname => ErrorCauseModel::MissingHostname,
            ErrorCause::LoadKey { path, cause } => ErrorCauseModel::LoadKey { path: path@, cause: cause@ },
            ErrorCause::LoadCertificate { path, cause } => ErrorCauseModel::LoadCertificate { path: path@, cause: cause@ },
            ErrorCause::LoadCertificateChain { path, cause } => ErrorCauseModel::LoadCertificateChain { path: path@, cause: cause@ },
            ErrorCause::MixedExpectProxy { cluster_id } => ErrorCauseModel::MixedExpectProxy { cluster_id: cluster_id@ },
            ErrorCause::DuplicateListener(x) => ErrorCauseModel::DuplicateListener(*x),
            ErrorCause::IncompatibleListener(x) => ErrorCauseModel::IncompatibleListener(*x),
            ErrorCause::HttpFrontendOnTcpListener => ErrorCauseModel::HttpFrontendOnTcpListener,
            ErrorCause::HttpsFrontendOnHttpListener => ErrorCauseModel::HttpsFrontendOnHttpListener,
            ErrorCause::HttpFrontendOnHttpsListener => ErrorCauseModel::HttpFrontendOnHttpsListener,
            ErrorCause::TcpFrontendOnHttpListener => ErrorCauseModel::TcpFrontendOnHttpListener,
            ErrorCause::NoCurrentDir => ErrorCauseModel::NoCurrentDir,
            ErrorCause::InvalidSocketPath => ErrorCauseModel::InvalidSocketPath,
            ErrorCause::AutomaticSaveWithoutPath => ErrorCauseModel::AutomaticSaveWithoutPath,
            ErrorCause::AddressAlreadyUsed(x) => ErrorCauseModel::AddressAlreadyUsed(*x),
            ErrorCause::NoConfigFolder => ErrorCauseModel::NoConfigFolder,
            ErrorCause::SocketFolder { shown, cause } => ErrorCauseModel::SocketFolder { shown: shown@, cause: cause@ },
            ErrorCause::NoSocketFileName => ErrorCauseModel::NoSocketFileName,
            ErrorCause::SocketPathNotUnicode => ErrorCauseModel::SocketPathNotUnicode,
            ErrorCause::SavedStatePath { shown, cause } => ErrorCauseModel::SavedStatePath { shown: shown@, cause: cause@ },
            ErrorCause::Decoding(x) => ErrorCauseModel::Decoding(x@),
            ErrorCause::Unreadable(x) => ErrorCauseModel::Unreadable(x@),
        }
    }
}

impl ErrorCauseModel {
    /// The reason in words.
    pub open spec fn text(self) -> Seq<char> {
        match self {
            ErrorCauseModel::NotHttp => "cannot convert listener to HTTP"@,
            ErrorCauseModel::NotHttps => "cannot convert listener to HTTPS"@,
            ErrorCauseModel::Open404 { path, current_dir, cause } => "Could not open 404 answer file on path "@ + path + ", current dir "@ + current_dir + ": "@ + cause,
            ErrorCauseModel::Read404 { path, current_dir, cause } => "Could not read 404 answer file on path "@ + path + ", current dir "@ + current_dir + ": "@ + cause,
            ErrorCauseModel::Open503 { path, cause } => "Could not open 503 answer file on path "@ + path + ": "@ + cause,
            ErrorCauseModel::Read503 { path, cause } => "Could not read 503 answer file on path "@ + path + ": "@ + cause,
            ErrorCauseModel::TcpHostname => "invalid 'hostname' field for TCP frontend"@,
            ErrorCauseModel::TcpPath => "invalid 'path_prefix' field for TCP frontend"@,
            ErrorCauseModel::TcpCertificate => "invalid 'certificate' field for TCP frontend"@,
            ErrorCauseModel::TcpCertificateChain => "invalid 'certificate_chain' field for TCP frontend"@,
            ErrorCauseModel::MissingHostname => "HTTP frontend should have a 'hostname' field"@,
            ErrorCauseModel::LoadKey { path, cause } => "cannot load key at path '"@ + path + "': "@ + cause,
            ErrorCauseModel::LoadCertificate { path, cause } => "cannot load certificate at path '"@ + path + "': "@ + cause,
            ErrorCauseModel::LoadCertificateChain { path, cause } => "cannot load certificate chain at path "@ + path + ": "@ + cause,
            ErrorCauseModel::MixedExpectProxy { cluster_id } => "all the listeners for cluster "@ + cluster_id + " should have the same expect_proxy option"@,
            ErrorCauseModel::DuplicateListener(x) => "there's already a listener for address "@ + x.text(),
            ErrorCauseModel::IncompatibleListener(x) => "the listener on "@ + x.text() + " has incompatible options: it cannot use the expect proxy protocol and have a public_address field at the same time"@,
            ErrorCauseModel::HttpFrontendOnTcpListener => "cannot set up a HTTP or HTTPS frontend on a TCP listener"@,
            ErrorCauseModel::HttpsFrontendOnHttpListener => "cannot set up a HTTPS frontend on a HTTP listener"@,
            ErrorCauseModel::HttpFrontendOnHttpsListener => "cannot set up a HTTP frontend on a HTTPS listener"@,
            ErrorCauseModel::TcpFrontendOnHttpListener => "cannot set up a TCP frontend on a HTTP listener"@,
            ErrorCauseModel::NoCurrentDir => "env path not found"@,
            ErrorCauseModel::InvalidSocketPath => "command socket path not valid"@,
            ErrorCauseModel::AutomaticSaveWithoutPath => "cannot activate automatic state save if the 'saved_state` option is not set"@,
            ErrorCauseModel::AddressAlreadyUsed(x) => "listening address "@ + x.text() + " is already used in the configuration"@,
            ErrorCauseModel::NoConfigFolder => "could not get parent folder of configuration file"@,
            ErrorCauseModel::SocketFolder { shown, cause } => "could not get command socket folder path: "@ + shown + ": "@ + cause,
            ErrorCauseModel::NoSocketFileName => "could not get command socket file name"@,
            ErrorCauseModel::SocketPathNotUnicode => "could not parse command socket path"@,
            ErrorCauseModel::SavedStatePath { shown, cause } => "could not get saved state path from config file input "@ + shown + ": "@ + cause,
            ErrorCauseModel::Decoding(x) => "decoding error: "@ + x,
            ErrorCauseModel::Unreadable(x) => x,
        }
    }
}

impl ErrorCause {
    /// The reason in words.
    pub fn to_text(&self) -> (r: String)
        ensures
            r@ == self.deep_view().text(),
    {
        match self {
            ErrorCause::NotHttp => "cannot convert listener to HTTP".to_owned(),
            ErrorCause::NotHttps => "cannot convert listener to HTTPS".to_owned(),
            ErrorCause::Open404 { path, current_dir, cause } => {
                let mut r = "Could not open 404 answer file on path ".to_owned();
                r.append(path.as_str());
                r.append(", current dir ");
                r.append(current_dir.as_str());
                r.append(": ");
                r.append(cause.as_str());
                r
            },
            ErrorCause::Read404 { path, current_dir, cause } => {
                let mut r = "Could not read 404 answer file on path ".to_owned();
                r.append(path.as_str());
                r.append(", current dir ");
                r.append(current_dir.as_str());
                r.append(": ");
                r.append(cause.as_str());
                r
            },
            ErrorCause::Open503 { path, cause } => {
                let mut r = "Could not open 503 answer file on path ".to_owned();
                r.append(path.as_str());
                r.append(": ");
                r.append(cause.as_str());
                r
            },
            ErrorCause::Read503 { path, cause } => {
                let mut r = "Could not read 503 answer file on path ".to_owned();
                r.append(path.as_str());
                r.append(": ");
                r.append(cause.as_str());
                r
            },
            ErrorCause::TcpHostname => "invalid 'hostname' field for TCP frontend".to_owned(),
            ErrorCause::TcpPath => "invalid 'path_prefix' field for TCP frontend".to_owned(),
            ErrorCause::TcpCertificate => "invalid 'certificate' field for TCP frontend".to_owned(),
            ErrorCause::TcpCertificateChain => "invalid 'certificate_chain' field for TCP frontend".to_owned(),
            ErrorCause::MissingHostname => "HTTP frontend should have a 'hostname' field".to_owned(),
            ErrorCause::LoadKey { path, cause } => {
                let mut r = "cannot load key at path '".to_owned();
                r.append(path.as_str());
                r.append("': ");
                r.append(cause.as_str());
                r
            },
            ErrorCause::LoadCertificate { path, cause } => {
                let mut r = "cannot load certificate at path '".to_owned();
                r.append(path.as_str());
                r.append("': ");
                r.append(cause.as_str());
                r
            },
            ErrorCause::LoadCertificateChain { path, cause } => {
                let mut r = "cannot load certificate chain at path ".to_owned();
                r.append(path.as_str());
                r.append(": ");
                r.append(cause.as_str());
                r
            },
            ErrorCause::MixedExpectProxy { cluster_id } => {
                let mut r = "all the listeners for cluster ".to_owned();
                r.append(cluster_id.as_str());
                r.append(" should have the same expect_proxy option");
                r
            },
            ErrorCause::DuplicateListener(x) => {
                let mut r = "there's already a listener for address ".to_owned();
                r.append(x.to_text().as_str());
                r
            },
            ErrorCause::IncompatibleListener(x) => {
                let mut r = "the listener on ".to_owned();
                r.append(x.to_text().as_str());
                r.append(" has incompatible options: it cannot use the expect proxy protocol and have a public_address field at the same time");
                r
            },
            ErrorCause::HttpFrontendOnTcpListener => "cannot set up a HTTP or HTTPS frontend on a TCP listener".to_owned(),
            ErrorCause::HttpsFrontendOnHttpListener => "cannot set up a HTTPS frontend on a HTTP listener".to_owned(),
            ErrorCause::HttpFrontendOnHttpsListener => "cannot set up a HTTP frontend on a HTTPS listener".to_owned(),
            ErrorCause::TcpFrontendOnHttpListener => "cannot set up a TCP frontend on a HTTP listener".to_owned(),
            ErrorCause::NoCurrentDir => "env path not found".to_owned(),
            ErrorCause::InvalidSocketPath => "command socket path not valid".to_owned(),
            ErrorCause::AutomaticSaveWithoutPath => "cannot activate automatic state save if the 'saved_state` option is not set".to_owned(),
            ErrorCause::AddressAlreadyUsed(x) => {
                let mut r = "listening address ".to_owned();
                r.append(x.to_text().as_str());
                r.append(" is already used in the configuration");
                r
            },
            ErrorCause::NoConfigFolder => "could not get parent folder of configuration file".to_owned(),
            ErrorCause::SocketFolder { shown, cause } => {
                let mut r = "could not get command socket folder path: ".to_owned();
                r.append(shown.as_str());
                r.append(": ");
                r.append(cause.as_str());
                r
            },
            ErrorCause::NoSocketFileName => "could not get command socket file name".to_owned(),
            ErrorCause::SocketPathNotUnicode => "could not parse command socket path".to_owned(),
            ErrorCause::SavedStatePath { shown, cause } => {
                let mut r = "could not get saved state path from config file input ".to_owned();
                r.append(shown.as_str());
                r.append(": ");
                r.append(cause.as_str());
                r
            },
            ErrorCause::Decoding(x) => {
                let mut r = "decoding error: ".to_owned();
                r.append(x.as_str());
                r
            },
            ErrorCause::Unreadable(x) => {
                let mut r = x.clone();
                r
            },
        }
    }
}

/// Why a configuration is refused.
#[derive(Debug, PartialEq, Eq)]
pub struct ConfigError {
    /// what was being done, the innermost context first
    pub context: Vec<ErrorContext>,
    pub cause: ErrorCause,
}

/// What a [`ConfigError`] holds, as mathematical values.
#[verifier::ext_equal]
pub struct ConfigErrorModel {
    pub context: Seq<ErrorContextModel>,
    pub cause: ErrorCauseModel,
}

impl DeepView for ConfigError {
    type V = ConfigErrorModel;

    open spec fn deep_view(&self) -> ConfigErrorModel {
        ConfigErrorModel {
            context: self.context.deep_view(),
            cause: self.cause.deep_view(),
        }
    }
}

/// The contexts from the outermost one to the innermost one and then the cause, with `: ` behind
/// each context.
pub open spec fn chain_text(context: Seq<ErrorContextModel>, cause: Seq<char>) -> Seq<char>
    decreases context.len(),
{
    if context.len() == 0 {
        cause
    } else {
        context.last().text() + ": "@ + chain_text(context.drop_last(), cause)
    }
}

impl ConfigErrorModel {
    /// An error without context.
    pub open spec fn bare(cause: ErrorCauseModel) -> ConfigErrorModel {
        ConfigErrorModel { context: Seq::empty(), cause }
    }

    /// The same error within one more context.
    pub open spec fn within(self, context: ErrorContextModel) -> ConfigErrorModel {
        ConfigErrorModel { context: self.context.push(context), cause: self.cause }
    }

    /// The error in words.
    pub open spec fn text(self) -> Seq<char> {
        chain_text(self.context, self.cause.text())
    }
}

impl ConfigError {
    /// An error without context.
    pub fn new(cause: ErrorCause) -> (r: Self)
        ensures
            r.deep_view() == ConfigErrorModel::bare(cause.deep_view()),
    {
        let r = ConfigError { context: Vec::new(), cause };
        proof {
            assert(r.context.deep_view() =~= Seq::empty());
        }
        r
    }

    /// The same error within one more context.
    pub fn with_context(self, context: ErrorContext) -> (r: Self)
        ensures
            r.deep_view() == self.deep_view().within(context.deep_view()),
    {
        let ghost before = self.context.deep_view();
        let mut contexts = self.context;
        contexts.push(context);
        proof {
            assert(contexts.deep_view() =~= before.push(context.deep_view()));
        }
        ConfigError { context: contexts, cause: self.cause }
    }

    /// The error in words: the contexts, the outermost one first, and then the cause.
    pub fn to_text(&self) -> (r: String)
        ensures
            r@ == self.deep_view().text(),
    {
        let mut r = self.cause.to_text();
        let mut i: usize = 0;
        let ghost contexts = self.context.deep_view();
        proof {
            assert(contexts.take(0) =~= Seq::empty());
        }
        while i < self.context.len()
            invariant
                i <= self.context.len(),
                contexts == self.context.deep_view(),
                r@ == chain_text(contexts.take(i as int), self.cause.deep_view().text()),
            decreases self.context.len() - i,
        {
            let mut outer = self.context[i].to_text();
            outer.append(": ");
            outer.append(r.as_str());
            r = outer;
            proof {
                assert(contexts.take(i + 1).drop_last() =~= contexts.take(i as int));
                assert(contexts.take(i + 1).last() == self.context[i as int].deep_view());
            }
            i = i + 1;
        }
        proof {
            assert(contexts.take(contexts.len() as int) =~= contexts);
        }
        r
    }
}

} // verus!
