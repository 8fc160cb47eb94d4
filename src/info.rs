//! The persisted record of a spawned server, and the logger configuration
//! held by the orchestrator.
use vstd::prelude::*;
use vstd::string::*;

verus! {

/// A spawned server: written at spawn time, replaced whole on restart.
pub struct ServerInfo {
    pid: i32,
    port: u16,
    scheme: String,
    name: String,
    command: String,
    args: Vec<String>,
}

impl ServerInfo {
    /// A record of all its parts.
    pub fn new(pid: i32, port: u16, scheme: String, name: String, command: String, args: Vec<String>) -> (r: ServerInfo)
        ensures
            r.pid_spec() == pid,
            r.port_spec() == port,
            r.scheme_spec() == scheme@,
            r.name_spec() == name@,
            r.command_spec() == command@,
            r.args_spec() == args@,
    {
        ServerInfo { pid, port, scheme, name, command, args }
    }

    pub closed spec fn pid_spec(&self) -> i32 {
        self.pid
    }

    pub closed spec fn port_spec(&self) -> u16 {
        self.port
    }

    pub closed spec fn scheme_spec(&self) -> Seq<char> {
        self.scheme@
    }

    pub closed spec fn name_spec(&self) -> Seq<char> {
        self.name@
    }

    pub closed spec fn command_spec(&self) -> Seq<char> {
        self.command@
    }

    pub closed spec fn args_spec(&self) -> Seq<String> {
        self.args@
    }

    /// The server's display name.
    pub fn name(&self) -> (r: String)
        ensures
            r@ == self.name_spec(),
    {
        self.name.clone()
    }

    /// The command that launched the server.
    pub fn command(&self) -> (r: String)
        ensures
            r@ == self.command_spec(),
    {
        self.command.clone()
    }

    /// The arguments of that command.
    pub fn args(&self) -> (r: &Vec<String>)
        ensures
            r@ == self.args_spec(),
    {
        &self.args
    }

    /// The server's PID.
    pub fn pid(&self) -> (r: i32)
        ensures
            r == self.pid_spec(),
    {
        self.pid
    }

    /// The server's port.
    pub fn port(&self) -> (r: u16)
        ensures
            r == self.port_spec(),
    {
        self.port
    }

    /// The server's scheme (`http` or `https`).
    pub fn scheme(&self) -> (r: String)
        ensures
            r@ == self.scheme_spec(),
    {
        self.scheme.clone()
    }
}

/// The level filter and the width of the module column of log lines. The
/// width only grows: it is the widest module name printed so far.
pub struct LoggerConfig {
    pub verbosity: u8,
    pub quiet: bool,
    pub max_width: usize,
}

impl LoggerConfig {
    /// A configuration for the given `-v` count and `--quiet` switch.
    pub fn new(verbosity: u8, quiet: bool) -> (r: LoggerConfig)
        ensures
            r.verbosity == verbosity,
            r.quiet == quiet,
            r.width() == 0,
    {
        LoggerConfig { verbosity, quiet, max_width: 0 }
    }

    pub open spec fn width(&self) -> nat {
        self.max_width as nat
    }

    /// The level filter: `OFF` when quiet, `DEBUG` for one `-v`, `TRACE`
    /// for more, else the default level.
    pub fn level<'a>(&self, default_level: &'a str) -> (r: &'a str)
        ensures
            self.quiet ==> r@ == "OFF"@,
            !self.quiet && self.verbosity == 1 ==> r@ == "DEBUG"@,
            !self.quiet && self.verbosity >= 2 ==> r@ == "TRACE"@,
            !self.quiet && self.verbosity == 0 ==> r@ == default_level@,
    {
        if self.quiet {
            "OFF"
        } else if self.verbosity == 1 {
            "DEBUG"
        } else if self.verbosity >= 2 {
            "TRACE"
        } else {
            default_level
        }
    }

    /// Whether module names are printed (from three `-v` on).
    pub fn shows_targets(&self) -> (r: bool)
        ensures
            r == (self.verbosity > 2),
    {
        self.verbosity > 2
    }

    /// The width of the module column once a module name of `target_len`
    /// bytes is printed: the widest so far.
    pub fn max_target_width(&mut self, target_len: usize) -> (r: usize)
        ensures
            r == if old(self).width() < target_len { target_len as nat } else { old(self).width() },
            final(self).width() == r,
            final(self).verbosity == old(self).verbosity,
            final(self).quiet == old(self).quiet,
    {
        if self.max_width < target_len {
            self.max_width = target_len;
        }
        self.max_width
    }
}

} // verus!
