//! Verified decision core of a supervisor for a single long-running child
//! process: command-line scanning, environment parsing, launch planning,
//! lifecycle tracking and the output-drain protocol.

pub mod drain;
pub mod environment;
pub mod launch;
pub mod port;
pub mod rotator;
pub mod supervisor;
pub mod text;

pub use drain::{Diagnostic, Drain, DrainAction, DrainEnd, DrainEvent, DrainState};
pub use environment::{parse_env, EnvError, Environment};
pub use launch::{LaunchDescriptor, ProcessOption, StreamRoute};
pub use port::{parse_port, parse_ports};
pub use rotator::{LogAction, LogHandle, LogRotator};
pub use supervisor::{CodeChainProcess, ExitStatus, ProcessState};
