//! Planning the launch: from the options, the argument string and the
//! environment string to the command that starts the child.

use vstd::prelude::*;
use vstd::string::StringExecFns;
use crate::environment::{env_of_tokens, parse_env, EnvError, Environment};
use crate::port::{parse_ports, ports_of};
use crate::text::{split_whitespace, token_views, tokens};

verus! {

/// Where the child lives and where its output goes.
#[derive(Debug, Clone)]
pub struct ProcessOption {
    /// Directory of the CodeChain checkout; the child runs in it.
    pub codechain_dir: String,
    /// File that collects the child's output.
    pub log_file_path: String,
}

/// How a standard stream of the child is connected.
#[derive(Debug, Clone, Copy, PartialEq, Eq, Structural)]
pub enum StreamRoute {
    /// Through a pipe, back to the supervisor.
    Pipe,
    /// Into the child's other output stream.
    Merge,
}

/// A launch descriptor as plain text.
pub ghost struct LaunchPlan {
    pub program: Seq<char>,
    pub working_dir: Seq<char>,
    pub arguments: Seq<Seq<char>>,
    pub environment: Map<Seq<char>, Seq<char>>,
    pub log_file_path: Seq<char>,
    pub stdout: StreamRoute,
    pub stderr: StreamRoute,
    pub p2p_port: u16,
    pub rpc_port: u16,
}

/// The program to start: the prebuilt binary where there is one, else the
/// build tool.
pub open spec fn planned_program(binary_present: bool) -> Seq<char> {
    if binary_present {
        "./codechain"@
    } else {
        "cargo"@
    }
}

/// The program's arguments: the caller's tokens, behind `run --` where the
/// build tool starts the child.
pub open spec fn planned_arguments(binary_present: bool, toks: Seq<Seq<char>>) -> Seq<Seq<char>> {
    if binary_present {
        toks
    } else {
        seq!["run"@, "--"@] + toks
    }
}

/// The plan for the given inputs, or the fault in the environment string.
pub open spec fn planned(
    env: Seq<char>,
    args: Seq<char>,
    option: ProcessOption,
    binary_present: bool,
) -> Result<LaunchPlan, EnvError> {
    match env_of_tokens(tokens(env)) {
        Ok(environment) => Ok(
            LaunchPlan {
                program: planned_program(binary_present),
                working_dir: option.codechain_dir@,
                arguments: planned_arguments(binary_present, tokens(args)),
                environment,
                log_file_path: option.log_file_path@,
                stdout: StreamRoute::Pipe,
                stderr: StreamRoute::Merge,
                p2p_port: ports_of(tokens(args)).0,
                rpc_port: ports_of(tokens(args)).1,
            },
        ),
        Err(e) => Err(e),
    }
}

/// Everything needed to start the child once: program, working directory,
/// arguments in order, environment, log file. Fixed when built.
#[derive(Debug)]
pub struct LaunchDescriptor {
    program: String,
    working_dir: String,
    arguments: Vec<String>,
    environment: Environment,
    log_file_path: String,
    stdout: StreamRoute,
    stderr: StreamRoute,
    p2p_port: u16,
    rpc_port: u16,
}

impl View for LaunchDescriptor {
    type V = LaunchPlan;

    closed spec fn view(&self) -> LaunchPlan {
        LaunchPlan {
            program: self.program@,
            working_dir: self.working_dir@,
            arguments: token_views(self.arguments@),
            environment: self.environment@,
            log_file_path: self.log_file_path@,
            stdout: self.stdout,
            stderr: self.stderr,
            p2p_port: self.p2p_port,
            rpc_port: self.rpc_port,
        }
    }
}

/// The outcome of planning as a value of the model.
pub open spec fn plan_view(r: Result<LaunchDescriptor, EnvError>) -> Result<LaunchPlan, EnvError> {
    match r {
        Ok(descriptor) => Ok(descriptor@),
        Err(e) => Err(e),
    }
}

impl LaunchDescriptor {
    /// Plans the launch. `args` is split at white space into the child's
    /// arguments and `env` is parsed into its environment; a malformed
    /// environment string yields its fault and no descriptor. With
    /// `binary_present` the child is `./codechain`, else `cargo run --`,
    /// either way in `option.codechain_dir`, with its standard output
    /// piped back and its standard error merged into it.
    pub fn new(env: &str, args: &str, option: &ProcessOption, binary_present: bool) -> (r: Result<
        LaunchDescriptor,
        EnvError,
    >)
        ensures
            plan_view(r) == planned(env@, args@, *option, binary_present),
    {
        let user_args = split_whitespace(args);
        let (p2p_port, rpc_port) = parse_ports(user_args.as_slice());
        let environment = match parse_env(env) {
            Ok(environment) => environment,
            Err(e) => {
                return Err(e);
            },
        };
        let ghost toks = token_views(user_args@);
        let mut arguments: Vec<String> = Vec::new();
        let program = if binary_present {
            String::from_str("./codechain")
        } else {
            arguments.push(String::from_str("run"));
            arguments.push(String::from_str("--"));
            String::from_str("cargo")
        };
        let mut i: usize = 0;
        while i < user_args.len()
            invariant
                i <= user_args.len(),
                toks == token_views(user_args@),
                token_views(arguments@) == planned_arguments(binary_present, toks.take(i as int)),
            decreases user_args.len() - i,
        {
            proof {
                let word = user_args@[i as int];
                assert(token_views(arguments@.push(word)) == token_views(arguments@).push(word@));
            }
            arguments.push(user_args[i].clone());
            i += 1;
        }
        assert(toks.take(i as int) == toks);
        Ok(
            LaunchDescriptor {
                program,
                working_dir: option.codechain_dir.clone(),
                arguments,
                environment,
                log_file_path: option.log_file_path.clone(),
                stdout: StreamRoute::Pipe,
                stderr: StreamRoute::Merge,
                p2p_port,
                rpc_port,
            },
        )
    }

    /// The program to start.
    pub fn program(&self) -> (r: &str)
        ensures
            r@ == self@.program,
    {
        self.program.as_str()
    }

    /// The directory in which the child runs.
    pub fn working_dir(&self) -> (r: &str)
        ensures
            r@ == self@.working_dir,
    {
        self.working_dir.as_str()
    }

    /// The program's arguments, in order.
    pub fn arguments(&self) -> (r: &Vec<String>)
        ensures
            token_views(r@) == self@.arguments,
    {
        &self.arguments
    }

    /// The variables added to the child's environment.
    pub fn environment(&self) -> (r: &Environment)
        ensures
            r@ == self@.environment,
    {
        &self.environment
    }

    /// The file that collects the child's output.
    pub fn log_file_path(&self) -> (r: &str)
        ensures
            r@ == self@.log_file_path,
    {
        self.log_file_path.as_str()
    }

    /// Where the child's standard output goes.
    pub fn stdout(&self) -> (r: StreamRoute)
        ensures
            r == self@.stdout,
    {
        self.stdout
    }

    /// Where the child's standard error goes.
    pub fn stderr(&self) -> (r: StreamRoute)
        ensures
            r == self@.stderr,
    {
        self.stderr
    }

    /// The peer-to-peer port the arguments ask for, or the default.
    pub fn p2p_port(&self) -> (r: u16)
        ensures
            r == self@.p2p_port,
    {
        self.p2p_port
    }

    /// The RPC port the arguments ask for, or the default.
    pub fn rpc_port(&self) -> (r: u16)
        ensures
            r == self@.rpc_port,
    {
        self.rpc_port
    }
}

} // verus!
