//! An interactive command shell's core: a parser that turns a command line
//! into a tree of commands, the rules by which a pipeline of commands is run,
//! the search for executables along a path, and the table of builtin commands.

pub mod command;
pub mod console;
pub mod error;
pub mod parser;
pub mod path_resolver;
pub mod pipeline;
pub mod repository;
pub mod settings;

pub use command::{BuiltinCommand, Command, CommandScope, ExecuteCommand, PipeCommand, ProcessLaunch};
pub use console::{DefaultContextGenerator, Ecma48CommandInterface};
pub use error::CommandError;
pub use pipeline::{PipelineAction, PipelineRun};
pub use parser::{CommandParser, CommandParserError, JshCommandParser, JshCommandParserError};
pub use path_resolver::{split_vec, WindowsPathResolver};
pub use settings::{
    ConfigReadingError, CwdSetting, FileUserSettingProvider, UserSettingProvider, WindowsCwdHandling,
};
pub use repository::{BuiltinCommandRepository, JshCommandRepository};
