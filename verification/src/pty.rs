//! One child process under a pseudo-terminal.
//!
//! The handles around the master, writer, reader and child are opaque: they
//! wrap the boxed trait objects that `portable_pty` hands out, which cannot
//! be declared as outside types.  Every call into `portable_pty`, `nix` and
//! `std::io` goes through one trusted wrapper each; the composition of those
//! calls — defaulting, ordering, and error classification — is verified.

use vstd::prelude::*;

use crate::errors::VtError;

verus! {

/// Terminal geometry; both dimensions are at least one cell and pixel
/// dimensions are always zero.
#[derive(Debug, Clone, Copy, PartialEq, Eq, Structural)]
pub struct PtyGeometry {
    pub cols: u16,
    pub rows: u16,
}

impl PtyGeometry {
    /// Both dimensions are at least one cell.
    pub open spec fn wf(&self) -> bool {
        self.cols >= 1 && self.rows >= 1
    }
}

/// Configuration for creating a PTY session, immutable at creation.
#[derive(Debug, Clone)]
pub struct PtyConfig {
    /// Program to run; the platform shell when absent.
    pub shell: Option<String>,
    /// Arguments handed to the program.
    pub args: Vec<String>,
    /// Environment entries applied to the child; keys are unique.
    pub env: Vec<(String, String)>,
    /// Working directory of the child, when given.
    pub cwd: Option<String>,
    /// Initial number of columns.
    pub cols: u16,
    /// Initial number of rows.
    pub rows: u16,
}

impl Default for PtyConfig {
    /// No shell, no arguments, no environment, no working directory,
    /// 80 columns by 24 rows.
    fn default() -> (c: Self)
        ensures
            c.shell is None,
            c.args@.len() == 0,
            c.env@.len() == 0,
            c.cwd is None,
            c.cols == 80,
            c.rows == 24,
    {
        PtyConfig {
            shell: None,
            args: Vec::new(),
            env: Vec::new(),
            cwd: None,
            cols: 80,
            rows: 24,
        }
    }
}

/// The program run when no shell is configured.
pub open spec fn spec_effective_shell(shell: Option<String>) -> Seq<char> {
    match shell {
        Some(s) => s@,
        None => "/bin/bash"@,
    }
}

/// The configured shell, or the platform default when none is configured.
pub fn effective_shell(shell: &Option<String>) -> (r: &str)
    ensures
        r@ == spec_effective_shell(*shell),
{
    match shell {
        Some(s) => s.as_str(),
        None => "/bin/bash",
    }
}

/// The signals a caller may ask `kill` to deliver.
#[derive(Debug, Clone, Copy, PartialEq, Eq, Structural)]
pub enum KillSignal {
    Term,
    Kill,
    Int,
}

/// The signal chosen for a named request: `SIGKILL` and `SIGINT` by name,
/// `SIGTERM` for every other name and for no name at all.
pub open spec fn spec_signal_from_name(name: Option<Seq<char>>) -> KillSignal {
    match name {
        Some(s) => if s == "SIGKILL"@ {
            KillSignal::Kill
        } else if s == "SIGINT"@ {
            KillSignal::Int
        } else {
            KillSignal::Term
        },
        None => KillSignal::Term,
    }
}

/// Map an optional signal name onto the signal to deliver.
pub fn signal_from_name(name: &Option<String>) -> (r: KillSignal)
    ensures
        r == spec_signal_from_name(match *name {
            Some(ref s) => Some(s@),
            None => None,
        }),
{
    match name {
        Some(s) => {
            if *s == "SIGKILL".to_owned() {
                KillSignal::Kill
            } else if *s == "SIGINT".to_owned() {
                KillSignal::Int
            } else {
                KillSignal::Term
            }
        },
        None => KillSignal::Term,
    }
}

/// Opaque handle on the platform PTY system.
#[verifier::external_body]
pub struct PtySystemHandle {
    inner: Box<dyn portable_pty::PtySystem + Send>,
}

/// Opaque handle on the master end of a PTY.
#[verifier::external_body]
pub struct PtyMaster {
    inner: Box<dyn portable_pty::MasterPty + Send>,
}

/// Opaque handle on the slave end of a PTY.
#[verifier::external_body]
pub struct PtySlave {
    inner: Box<dyn portable_pty::SlavePty + Send>,
}

/// Opaque handle on the exclusive writer of a master PTY.
#[verifier::external_body]
pub struct PtyWriter {
    inner: Box<dyn std::io::Write + Send>,
}

/// Opaque handle on a cloned reader of a master PTY.
#[verifier::external_body]
pub struct PtyReader {
    inner: Box<dyn std::io::Read + Send>,
}

/// Opaque handle on a child process spawned into a PTY.
#[verifier::external_body]
pub struct PtyChild {
    inner: Box<dyn portable_pty::Child + Send + Sync>,
}

#[verifier::external_type_specification]
#[verifier::external_body]
pub struct ExCommandBuilder(portable_pty::CommandBuilder);

/// Relies on `portable_pty::native_pty_system`: yields the platform PTY
/// implementation.
#[verifier::external_body]
fn native_system() -> PtySystemHandle {
    PtySystemHandle { inner: portable_pty::native_pty_system() }
}

/// Relies on `portable_pty::PtySystem::openpty`: opens a master/slave pair
/// sized to the given geometry, with zero pixel dimensions.
#[verifier::external_body]
fn open_pair(sys: &PtySystemHandle, cols: u16, rows: u16) -> (r: Result<
    (PtyMaster, PtySlave),
    String,
>) {
    match sys.inner.openpty(
        portable_pty::PtySize { rows, cols, pixel_width: 0, pixel_height: 0 },
    ) {
        Ok(pair) => Ok((PtyMaster { inner: pair.master }, PtySlave { inner: pair.slave })),
        Err(e) => Err(format!("{}", e)),
    }
}

/// Relies on `portable_pty::CommandBuilder::new`.
#[verifier::external_body]
fn command_new(program: &str) -> portable_pty::CommandBuilder {
    portable_pty::CommandBuilder::new(program)
}

/// Relies on `portable_pty::CommandBuilder::arg`.
#[verifier::external_body]
fn command_arg(cmd: &mut portable_pty::CommandBuilder, arg: &String) {
    cmd.arg(arg);
}

/// Relies on `portable_pty::CommandBuilder::env`.
#[verifier::external_body]
fn command_env(cmd: &mut portable_pty::CommandBuilder, key: &String, value: &String) {
    cmd.env(key, value);
}

/// Relies on `portable_pty::CommandBuilder::cwd`.
#[verifier::external_body]
fn command_cwd(cmd: &mut portable_pty::CommandBuilder, dir: &String) {
    cmd.cwd(dir);
}

/// Relies on `portable_pty::SlavePty::spawn_command`: starts the command on
/// the slave side of the PTY.
#[verifier::external_body]
fn spawn_on_slave(slave: &PtySlave, cmd: portable_pty::CommandBuilder) -> (r: Result<
    PtyChild,
    String,
>) {
    match slave.inner.spawn_command(cmd) {
        Ok(child) => Ok(PtyChild { inner: child }),
        Err(e) => Err(format!("{}", e)),
    }
}

/// Relies on `portable_pty::MasterPty::take_writer`: the exclusive writable
/// handle towards the slave; taking it twice fails.
#[verifier::external_body]
fn take_writer(master: &PtyMaster) -> (r: Result<PtyWriter, String>) {
    match master.inner.take_writer() {
        Ok(w) => Ok(PtyWriter { inner: w }),
        Err(e) => Err(format!("{}", e)),
    }
}

/// Relies on `portable_pty::MasterPty::try_clone_reader`: a readable handle
/// carrying the output of the slave side.
#[verifier::external_body]
fn clone_reader(master: &PtyMaster) -> (r: Result<PtyReader, String>) {
    match master.inner.try_clone_reader() {
        Ok(rd) => Ok(PtyReader { inner: rd }),
        Err(e) => Err(format!("{}", e)),
    }
}

/// Relies on `portable_pty::MasterPty::resize`: updates the kernel geometry
/// atomically and signals the child.
#[verifier::external_body]
fn master_resize(master: &PtyMaster, cols: u16, rows: u16) -> (r: Result<(), String>) {
    match master.inner.resize(
        portable_pty::PtySize { rows, cols, pixel_width: 0, pixel_height: 0 },
    ) {
        Ok(()) => Ok(()),
        Err(e) => Err(format!("{}", e)),
    }
}

/// Relies on `nix::sys::signal::kill` delivering the signal to the process.
/// A no-such-process outcome counts as success: killing a child that has
/// already exited and been reaped is not an error.
#[verifier::external_body]
pub(crate) fn send_signal(pid: u32, signal: KillSignal) -> (r: Result<(), String>) {
    let sig = match signal {
        KillSignal::Term => nix::sys::signal::Signal::SIGTERM,
        KillSignal::Kill => nix::sys::signal::Signal::SIGKILL,
        KillSignal::Int => nix::sys::signal::Signal::SIGINT,
    };
    match nix::sys::signal::kill(nix::unistd::Pid::from_raw(pid as i32), sig) {
        Ok(()) => Ok(()),
        Err(nix::errno::Errno::ESRCH) => Ok(()),
        Err(e) => Err(format!("{}", e)),
    }
}

/// One attempt of the reader worker to pull bytes off the PTY.
pub enum ReadOutcome {
    /// Between 1 and 4096 bytes arrived.
    Data(Vec<u8>),
    /// The slave side closed; no more bytes will come.
    Eof,
    /// No bytes are available right now.
    WouldBlock,
    /// The read failed for another reason.
    Failed,
}

impl PtyReader {
    /// Relies on `std::io::Read::read`: returns 0 only at end of stream and
    /// otherwise at most the buffer's length (4096) bytes.
    #[verifier::external_body]
    pub fn read_chunk(&mut self) -> (r: ReadOutcome)
        ensures
            r matches ReadOutcome::Data(d) ==> 1 <= d@.len() <= 4096,
    {
        let mut buf = vec![0u8; 4096];
        match self.inner.read(&mut buf) {
            Ok(0) => ReadOutcome::Eof,
            Ok(n) => {
                buf.truncate(n);
                ReadOutcome::Data(buf)
            },
            Err(e) if e.kind() == std::io::ErrorKind::WouldBlock => ReadOutcome::WouldBlock,
            Err(_) => ReadOutcome::Failed,
        }
    }
}

impl PtyWriter {
    /// Relies on `std::io::Write::write_all`: on success the whole buffer
    /// was handed to the PTY, in order, before any later write through this
    /// writer.
    #[verifier::external_body]
    pub(crate) fn write_all_bytes(&mut self, data: &[u8]) -> (r: Result<(), String>) {
        self.inner.write_all(data).map_err(|e| format!("{}", e))
    }

    /// Relies on `std::io::Write::flush`.
    #[verifier::external_body]
    pub(crate) fn flush_bytes(&mut self) -> (r: Result<(), String>) {
        self.inner.flush().map_err(|e| format!("{}", e))
    }
}

/// One non-blocking poll of the child's state.
pub enum ExitPoll {
    /// The child exited with this code.
    Exited(i32),
    /// The child is still running.
    Running,
    /// The poll itself failed.
    Failed(String),
}

impl PtyChild {
    /// Relies on `portable_pty::Child::try_wait`: non-blocking; yields the
    /// exit status once the child has terminated and nothing before.
    #[verifier::external_body]
    pub(crate) fn poll_exit(&mut self) -> ExitPoll {
        match self.inner.try_wait() {
            Ok(Some(status)) => ExitPoll::Exited(status.exit_code() as i32),
            Ok(None) => ExitPoll::Running,
            Err(e) => ExitPoll::Failed(format!("{}", e)),
        }
    }

    /// Relies on `portable_pty::ChildKiller::kill`: force-terminates the
    /// child.
    #[verifier::external_body]
    pub(crate) fn force_kill(&mut self) -> (r: Result<(), String>) {
        self.inner.kill().map_err(|e| format!("{}", e))
    }

    /// Relies on `portable_pty::Child::wait`: blocks until the child is
    /// fully reaped, yielding its exit code.
    #[verifier::external_body]
    pub(crate) fn wait_reap(&mut self) -> (r: Result<i32, String>) {
        match self.inner.wait() {
            Ok(status) => Ok(status.exit_code() as i32),
            Err(e) => Err(format!("{}", e)),
        }
    }

    /// Relies on `portable_pty::Child::process_id`.
    #[verifier::external_body]
    pub(crate) fn process_id(&self) -> Option<u32> {
        self.inner.process_id()
    }
}

/// Handle to a freshly created PTY with separated reader and writer.
pub struct PtyHandle {
    pub master: PtyMaster,
    pub writer: PtyWriter,
    pub reader: PtyReader,
    pub child: PtyChild,
    pub pid: u32,
}

/// Open a PTY at the configured geometry, spawn the configured command on
/// its slave side, and take the exclusive writer and a cloned reader.
///
/// Any failure is a creation failure: opening or spawning yields
/// `SpawnFailed` (as does a child without a process id), the writer
/// `WriterUnavailable`, the reader `ReaderUnavailable`.
pub fn create_pty(config: &PtyConfig) -> (r: Result<PtyHandle, VtError>)
    requires
        config.cols >= 1,
        config.rows >= 1,
    ensures
        r matches Err(e) ==> (e matches VtError::SpawnFailed(_) || e
            matches VtError::WriterUnavailable(_) || e matches VtError::ReaderUnavailable(_)),
{
    let sys = native_system();
    let (master, slave) = match open_pair(&sys, config.cols, config.rows) {
        Ok(pair) => pair,
        Err(m) => {
            return Err(VtError::SpawnFailed(m));
        },
    };
    let mut cmd = command_new(effective_shell(&config.shell));
    let mut i: usize = 0;
    while i < config.args.len()
        decreases config.args@.len() - i,
    {
        command_arg(&mut cmd, &config.args[i]);
        i = i + 1;
    }
    match &config.cwd {
        Some(dir) => command_cwd(&mut cmd, dir),
        None => (),
    }
    let mut j: usize = 0;
    while j < config.env.len()
        decreases config.env@.len() - j,
    {
        let entry = &config.env[j];
        command_env(&mut cmd, &entry.0, &entry.1);
        j = j + 1;
    }
    let child = match spawn_on_slave(&slave, cmd) {
        Ok(c) => c,
        Err(m) => {
            return Err(VtError::SpawnFailed(m));
        },
    };
    let pid = match child.process_id() {
        Some(p) => p,
        None => {
            return Err(VtError::SpawnFailed("the child has no process id".to_owned()));
        },
    };
    let writer = match take_writer(&master) {
        Ok(w) => w,
        Err(m) => {
            return Err(VtError::WriterUnavailable(m));
        },
    };
    let reader = match clone_reader(&master) {
        Ok(rd) => rd,
        Err(m) => {
            return Err(VtError::ReaderUnavailable(m));
        },
    };
    Ok(PtyHandle { master, writer, reader, child, pid })
}

/// Update the kernel geometry of the PTY; failures surface as `IoFailed`.
pub fn resize_pty(master: &PtyMaster, cols: u16, rows: u16) -> (r: Result<(), VtError>)
    requires
        cols >= 1,
        rows >= 1,
    ensures
        r matches Err(e) ==> e matches VtError::IoFailed(_),
{
    match master_resize(master, cols, rows) {
        Ok(()) => Ok(()),
        Err(m) => Err(VtError::IoFailed(m)),
    }
}

} // verus!
