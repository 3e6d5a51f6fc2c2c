//! The paths of the command socket and of the saved state, which are relative to the folder of the
//! configuration file.
use vstd::prelude::*;
use vstd::string::*;

use crate::path::{file_name, join_path, parent, show_path};
use crate::text::quoted_text;

use super::error::{
    ConfigError, ConfigErrorModel, ErrorCause, ErrorCauseModel, ErrorContext, ErrorContextModel,
};
use super::types::{Config, ConfigModel};

verus! {

/// What came of resolving the links in the path of a folder. A failure holds the cause in words.
#[derive(Debug, PartialEq, Eq)]
pub enum ResolvedFolder {
    Failed(String),
    NotUnicode,
    Known(String),
}

/// The folder of the configuration file.
pub open spec fn config_folder(config_path: Seq<char>) -> Result<Seq<char>, ConfigErrorModel> {
    match crate::path::parent_of(config_path) {
        None => Err(ConfigErrorModel::bare(ErrorCauseModel::NoConfigFolder)),
        Some(folder) => Ok(folder),
    }
}

/// The file name of the command socket inside of `folder`.
pub open spec fn socket_in(folder: Seq<char>, command_socket: Seq<char>) -> Result<
    Seq<char>,
    ConfigErrorModel,
> {
    match crate::path::file_name_of(command_socket) {
        None => Err(ConfigErrorModel::bare(ErrorCauseModel::NoSocketFileName)),
        Some(name) => Ok(crate::path::inside(folder, name)),
    }
}

impl ConfigModel {
    /// The folder of the command socket, where the path of the socket names one.
    pub open spec fn socket_folder(self) -> Result<Option<Seq<char>>, ConfigErrorModel> {
        match config_folder(self.config_path) {
            Err(e) => Err(e),
            Ok(folder) => match crate::path::parent_of(self.command_socket) {
                None => Ok(None),
                Some(parent) => Ok(Some(crate::path::inside(folder, parent))),
            },
        }
    }

    /// The path of the command socket. `resolved` is what the folder of the socket resolves to.
    pub open spec fn command_socket_path(self, resolved: ResolvedFolder) -> Result<
        Seq<char>,
        ConfigErrorModel,
    > {
        match config_folder(self.config_path) {
            Err(e) => Err(e),
            Ok(folder) => match crate::path::parent_of(self.command_socket) {
                None => socket_in(folder, self.command_socket),
                Some(parent) => match resolved {
                    ResolvedFolder::Failed(cause) => Err(
                        ConfigErrorModel::bare(
                            ErrorCauseModel::SocketFolder {
                                shown: crate::path::shown_path(parent),
                                cause: cause@,
                            },
                        ),
                    ),
                    ResolvedFolder::NotUnicode => if crate::path::file_name_of(
                        self.command_socket,
                    ) is None {
                        Err(ConfigErrorModel::bare(ErrorCauseModel::NoSocketFileName))
                    } else {
                        Err(ConfigErrorModel::bare(ErrorCauseModel::SocketPathNotUnicode))
                    },
                    ResolvedFolder::Known(folder) => socket_in(folder@, self.command_socket),
                },
            },
        }
    }

    /// The path of the saved state before it is known whether something is there.
    pub open spec fn saved_state_file(self) -> Result<Option<Seq<char>>, ConfigErrorModel> {
        match self.saved_state {
            None => Ok(None),
            Some(path) => match config_folder(self.config_path) {
                Err(e) => Err(e),
                Ok(folder) => Ok(Some(crate::path::inside(folder, path))),
            },
        }
    }

    /// The path of the saved state. `failure` is the reason why nothing was found there.
    pub open spec fn saved_state_path(self, failure: Option<Seq<char>>) -> Result<
        Option<Seq<char>>,
        ConfigErrorModel,
    > {
        match (self.saved_state_file(), failure) {
            (Ok(Some(_)), Some(cause)) => Err(
                ConfigErrorModel::bare(
                    ErrorCauseModel::SavedStatePath {
                        shown: crate::text::quoted(self.saved_state->0),
                        cause,
                    },
                ),
            ),
            (path, _) => path,
        }
    }

    /// The configuration with the verified path of the saved state.
    pub open spec fn with_verified_state(self, failure: Option<Seq<char>>) -> Result<
        ConfigModel,
        ConfigErrorModel,
    > {
        match self.saved_state_path(failure) {
            Err(e) => Err(e.within(ErrorContextModel::SavedState)),
            Ok(saved_state) => Ok(ConfigModel { saved_state, ..self }),
        }
    }
}

impl Config {
    /// The folder of the configuration file.
    fn config_folder(&self) -> (r: Result<String, ConfigError>)
        ensures
            crate::config::listener::outcome(r) == config_folder(self.config_path@),
    {
        match parent(self.config_path.as_str()) {
            None => Err(ConfigError::new(ErrorCause::NoConfigFolder)),
            Some(folder) => Ok(folder),
        }
    }

    /// The command socket inside of `folder`.
    fn socket_in(&self, folder: &str) -> (r: Result<String, ConfigError>)
        ensures
            crate::config::listener::outcome(r) == socket_in(folder@, self.command_socket@),
    {
        match file_name(self.command_socket.as_str()) {
            None => Err(ConfigError::new(ErrorCause::NoSocketFileName)),
            Some(name) => Ok(join_path(folder, name.as_str())),
        }
    }

    /// The folder whose links have to be resolved before the path of the command socket is known.
    pub fn socket_folder(&self) -> (r: Result<Option<String>, ConfigError>)
        ensures
            crate::config::listener::outcome(r) == self.deep_view().socket_folder(),
    {
        match self.config_folder() {
            Err(e) => Err(e),
            Ok(folder) => match parent(self.command_socket.as_str()) {
                None => Ok(None),
                Some(parent) => Ok(Some(join_path(folder.as_str(), parent.as_str()))),
            },
        }
    }

    /// The path of the command socket. `resolved` is what the folder of the socket resolves to,
    /// where there is one.
    pub fn command_socket_path(&self, resolved: &ResolvedFolder) -> (r: Result<String, ConfigError>)
        ensures
            crate::config::listener::outcome(r) == self.deep_view().command_socket_path(*resolved),
    {
        match self.config_folder() {
            Err(e) => Err(e),
            Ok(folder) => match parent(self.command_socket.as_str()) {
                None => self.socket_in(folder.as_str()),
                Some(parent) => match resolved {
                    ResolvedFolder::Failed(cause) => Err(
                        ConfigError::new(
                            ErrorCause::SocketFolder {
                                shown: show_path(parent.as_str()),
                                cause: cause.clone(),
                            },
                        ),
                    ),
                    ResolvedFolder::NotUnicode => match file_name(self.command_socket.as_str()) {
                        None => Err(ConfigError::new(ErrorCause::NoSocketFileName)),
                        Some(_) => Err(ConfigError::new(ErrorCause::SocketPathNotUnicode)),
                    },
                    ResolvedFolder::Known(folder) => self.socket_in(folder.as_str()),
                },
            },
        }
    }

    /// The path where the saved state has to be.
    pub fn saved_state_file(&self) -> (r: Result<Option<String>, ConfigError>)
        ensures
            crate::config::listener::outcome(r) == self.deep_view().saved_state_file(),
    {
        match &self.saved_state {
            None => Ok(None),
            Some(path) => match self.config_folder() {
                Err(e) => Err(e),
                Ok(folder) => Ok(Some(join_path(folder.as_str(), path.as_str()))),
            },
        }
    }

    /// The path of the saved state. `failure` is the reason why nothing was found there.
    pub fn saved_state_path(&self, failure: Option<String>) -> (r: Result<
        Option<String>,
        ConfigError,
    >)
        ensures
            crate::config::listener::outcome(r) == self.deep_view().saved_state_path(
                failure.deep_view(),
            ),
    {
        match (self.saved_state_file(), failure, &self.saved_state) {
            (Ok(Some(_)), Some(cause), Some(path)) => Err(
                ConfigError::new(
                    ErrorCause::SavedStatePath { shown: quoted_text(path.as_str()), cause },
                ),
            ),
            (path, _, _) => path,
        }
    }

    /// Replaces the path of the saved state by the verified one.
    pub fn with_verified_state(self, failure: Option<String>) -> (r: Result<Config, ConfigError>)
        ensures
            crate::config::listener::outcome(r) == self.deep_view().with_verified_state(
                failure.deep_view(),
            ),
    {
        match self.saved_state_path(failure) {
            Err(e) => Err(e.with_context(ErrorContext::SavedState)),
            Ok(saved_state) => Ok(Config { saved_state, ..self }),
        }
    }
}

} // verus!
