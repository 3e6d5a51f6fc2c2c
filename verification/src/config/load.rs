//! From what was read of the configuration file to the configuration, with everything that can go
//! wrong on the way.
use vstd::prelude::*;
use vstd::string::*;

use crate::path::{join_path, parent};

use super::environment::{Environment, EnvironmentModel};
use super::error::{
    ConfigError, ConfigErrorModel, ErrorCause, ErrorCauseModel, ErrorContext, ErrorContextModel,
};
use super::types::{Config, ConfigModel, FileConfig, FileConfigModel};

verus! {

/// What came of reading and decoding the configuration file.
#[derive(Debug)]
pub enum ParsedFile {
    /// the file could not be read, in words
    Unreadable(String),
    /// the file is no configuration, in words
    Malformed(String),
    Parsed(FileConfig),
}

impl ParsedFile {
    /// The file, unless it cannot be used.
    pub open spec fn loaded(self) -> Result<FileConfigModel, ConfigErrorModel> {
        match self {
            ParsedFile::Unreadable(cause) => Err(
                ConfigErrorModel::bare(ErrorCauseModel::Unreadable(cause@)),
            ),
            ParsedFile::Malformed(cause) => Err(
                ConfigErrorModel::bare(ErrorCauseModel::Decoding(cause@)),
            ),
            ParsedFile::Parsed(file) => file.deep_view().checked(),
        }
    }
}

/// Where the saved state of a configuration file at `config_path` has to be.
pub open spec fn state_file(config_path: Seq<char>, saved_state: Option<Seq<char>>) -> Option<
    Seq<char>,
> {
    match (saved_state, crate::path::parent_of(config_path)) {
        (Some(path), Some(folder)) => Some(crate::path::inside(folder, path)),
        _ => None,
    }
}

/// The configuration of the file at `path`, whose saved state has to be there. `state_failure` is the
/// reason why nothing was found in its place.
pub open spec fn config_of(
    file: Result<FileConfigModel, ConfigErrorModel>,
    path: Seq<char>,
    env: EnvironmentModel,
    state_failure: Option<Seq<char>>,
) -> Result<ConfigModel, ConfigErrorModel> {
    match file {
        Err(e) => Err(e.within(ErrorContextModel::LoadingFile)),
        Ok(file) => match file.as_config(path, env) {
            Err(e) => Err(e.within(ErrorContextModel::ParsingFile)),
            Ok(config) => config.with_verified_state(state_failure),
        },
    }
}

impl FileConfig {
    /// The configuration file, unless it cannot be read or decoded, or describes two listeners on
    /// one address.
    pub fn load_from_path(parsed: ParsedFile) -> (r: Result<FileConfig, ConfigError>)
        ensures
            crate::config::listener::outcome(r) == parsed.loaded(),
    {
        match parsed {
            ParsedFile::Unreadable(cause) => Err(ConfigError::new(ErrorCause::Unreadable(cause))),
            ParsedFile::Malformed(cause) => Err(ConfigError::new(ErrorCause::Decoding(cause))),
            ParsedFile::Parsed(file) => file.checked(),
        }
    }

    /// Where the saved state has to be, where the file names one.
    pub fn state_file(&self, config_path: &str) -> (r: Option<String>)
        ensures
            r.deep_view() == state_file(config_path@, self.deep_view().saved_state),
    {
        match (&self.saved_state, parent(config_path)) {
            (Some(path), Some(folder)) => Some(join_path(folder.as_str(), path.as_str())),
            _ => None,
        }
    }
}

impl Config {
    /// The configuration of the file at `path`. `state_failure` is the reason why nothing was found
    /// in the place of the saved state.
    pub fn load_from_path(
        file: Result<FileConfig, ConfigError>,
        path: &str,
        env: &Environment,
        state_failure: Option<String>,
    ) -> (r: Result<Config, ConfigError>)
        requires
            file matches Ok(file) ==> file.deep_view().as_config(path@, env.deep_view()) is Ok
                ==> crate::config::assembly::or_default(file.command_buffer_size, 1_000_000) * 2
                <= usize::MAX,
        ensures
            crate::config::listener::outcome(r) == config_of(
                crate::config::listener::outcome(file),
                path@,
                env.deep_view(),
                state_failure.deep_view(),
            ),
    {
        match file {
            Err(e) => Err(e.with_context(ErrorContext::LoadingFile)),
            Ok(file) => match file.into(path, env) {
                Err(e) => Err(e.with_context(ErrorContext::ParsingFile)),
                Ok(config) => config.with_verified_state(state_failure),
            },
        }
    }
}

/// The saved state of an accepted configuration is where the file says that it has to be.
pub proof fn law_saved_state_is_where_the_file_says(
    file: FileConfigModel,
    path: Seq<char>,
    env: EnvironmentModel,
    state_failure: Option<Seq<char>>,
)
    ensures
        config_of(Ok(file), path, env, state_failure) matches Ok(config) ==> config.saved_state
            == state_file(path, file.saved_state),
{
}

} // verus!
