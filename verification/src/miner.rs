use vstd::prelude::*;

verus! {

/// How the miner reaches the node's RPC interface.
#[derive(Debug)]
pub struct Rpc {
    pub tcp: bool,
    pub host: String,
    pub port: u8,
    pub socket_path: String,
}

/// Miner configuration.
#[derive(Debug)]
pub struct Config {
    pub rpc: Rpc,
}

/// A miner that talks to the node over an IPC socket.
#[derive(Debug)]
pub struct Miner {
    pub threads: i8,
    pub config: Config,
}

/// What `start` does first.
#[derive(Debug, Clone, Copy, PartialEq, Eq, Structural)]
pub enum StartAction {
    /// The thread setting is refused: report "--threads must be a positive integer or -1."
    /// and stop.
    RejectThreads,
    /// Connect the client to the node.
    Connect,
}

/// What the connection loop of `start` does after a connection attempt.
#[derive(Debug, Clone, Copy, PartialEq, Eq, Structural)]
pub enum ConnectionAction {
    /// Not connected: report it and try again after 5 seconds.
    RetryLater,
    /// Connected: report the end of the run.
    Report,
}

impl Miner {
    /// A miner with the given thread setting that reaches the node over IPC at `socket_path`.
    pub fn new(threads: i8, socket_path: String) -> (m: Self)
        ensures
            m.threads == threads,
            m.config.rpc.socket_path@ == socket_path@,
            !m.config.rpc.tcp,
            m.config.rpc.host@ == Seq::<char>::empty(),
            m.config.rpc.port == 0,
    {
        Miner {
            threads: threads,
            config: Config {
                rpc: Rpc { tcp: false, host: String::new(), port: 0, socket_path: socket_path },
            },
        }
    }

    /// A thread setting is accepted when it is positive or -1.
    pub open spec fn threads_accepted(&self) -> bool {
        !(self.threads == 0 || self.threads < -1)
    }

    /// The first step of `start`: refuse a thread setting of 0 or below -1, else connect.
    pub fn start_action(&self) -> (a: StartAction)
        ensures
            a == (if self.threads_accepted() { StartAction::Connect } else { StartAction::RejectThreads }),
    {
        if self.threads == 0 || self.threads < -1 {
            StartAction::RejectThreads
        } else {
            StartAction::Connect
        }
    }
}

/// A thread setting is refused exactly when it is 0 or below -1: every positive setting
/// and -1 (use all CPUs) lead to connecting.
pub proof fn lemma_thread_setting_accepted(m: Miner)
    ensures
        m.threads_accepted() <==> (m.threads >= 1 || m.threads == -1),
        m.threads == -1 ==> m.threads_accepted(),
        m.threads == 0 ==> !m.threads_accepted(),
        m.threads <= -2 ==> !m.threads_accepted(),
{
}

/// The step of the connection loop of `start` after a connection attempt.
pub fn connection_action(connected: bool) -> (a: ConnectionAction)
    ensures
        a == (if connected { ConnectionAction::Report } else { ConnectionAction::RetryLater }),
{
    if !connected {
        ConnectionAction::RetryLater
    } else {
        ConnectionAction::Report
    }
}

} // verus!
