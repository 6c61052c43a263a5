//! Command-line options and what each command resolves to.
//!
//! Parsing the actual command line, opening files and running the server
//! are I/O and live outside the library; here each command reduces to the
//! plan it stands for, so that precedence and defaults are pinned down.

use vstd::prelude::*;

verus! {

/// Options shared by the commands that serve the journal.
pub struct OpenOpts {
    /// Path of the database file.
    pub sqlite_file: String,
    /// Do not open a browser onto the served journal.
    pub no_browser: bool,
    /// TCP port to serve on.
    pub port: u16,
}

/// Serve the journal, opening a browser by default.
pub struct OpenCommand {
    pub opts: OpenOpts,
}

/// Serve the journal without opening a browser.
pub struct ServeCommand {
    pub opts: OpenOpts,
}

/// Create a new journal database.
pub struct InitCommand {
    pub sqlite_file: String,
}

/// The subcommands the tool accepts.
pub enum MainCommands {
    Open(OpenCommand),
    Serve(ServeCommand),
    Init(InitCommand),
}

/// The full command line: global options and the chosen subcommand.
pub struct VaultOpts {
    /// Verbosity; above zero the server logs requests.
    pub verbose: u8,
    pub command: MainCommands,
}

/// What a command line resolves to: serve an existing journal database,
/// or initialize a new one at a path.
pub enum Plan {
    Serve(OpenOpts),
    Init(String),
}

impl OpenOpts {
    /// An identical copy of these options.
    pub fn duplicate(&self) -> (r: OpenOpts)
        ensures
            r == *self,
    {
        OpenOpts {
            sqlite_file: self.sqlite_file.clone(),
            no_browser: self.no_browser,
            port: self.port,
        }
    }
}

impl OpenCommand {
    /// Opening serves the database exactly as the options say.
    pub fn run(&self) -> (r: Plan)
        ensures
            r == Plan::Serve(self.opts),
    {
        Plan::Serve(self.opts.duplicate())
    }
}

impl ServeCommand {
    /// Serving is opening with the browser forced off.
    pub fn run(&self) -> (r: Plan)
        ensures
            r matches Plan::Serve(o) && o.sqlite_file == self.opts.sqlite_file && o.port
                == self.opts.port && o.no_browser,
    {
        let mut opts = self.opts.duplicate();
        opts.no_browser = true;
        Plan::Serve(opts)
    }
}

impl InitCommand {
    /// Initializing creates a database at the given path.
    pub fn run(&self) -> (r: Plan)
        ensures
            r == Plan::Init(self.sqlite_file),
    {
        Plan::Init(self.sqlite_file.clone())
    }
}

impl VaultOpts {
    /// Dispatches to the chosen subcommand's plan.
    pub fn run(&self) -> (r: Plan)
        ensures
            match self.command {
                MainCommands::Open(c) => r == Plan::Serve(c.opts),
                MainCommands::Serve(c) => r matches Plan::Serve(o) && o.sqlite_file
                    == c.opts.sqlite_file && o.port == c.opts.port && o.no_browser,
                MainCommands::Init(c) => r == Plan::Init(c.sqlite_file),
            },
    {
        match &self.command {
            MainCommands::Open(c) => c.run(),
            MainCommands::Serve(c) => c.run(),
            MainCommands::Init(c) => c.run(),
        }
    }
}

} // verus!
