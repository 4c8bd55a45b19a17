use vstd::prelude::*;
use crate::config::{available_cpus, resolve_thread_count, spec_thread_count};

verus! {

/// The file name of the node's IPC socket inside the data directory.
pub open spec fn ipc_file_name() -> Seq<char> {
    seq!['i', 'r', 'o', 'n', 'f', 'i', 's', 'h', '.', 'i', 'p', 'c']
}

/// The path of the IPC socket: the file name joined to the data directory, with a `/`
/// between them unless the directory is empty or already ends with one.
pub open spec fn spec_ipc_path(data_dir: Seq<char>) -> Seq<char> {
    if data_dir.len() == 0 || data_dir.last() == '/' {
        data_dir + ipc_file_name()
    } else {
        data_dir + seq!['/'] + ipc_file_name()
    }
}

/// The IPC path keeps the data directory as it is and ends with the file name; between
/// them it puts at most one character, and never a second `/` after one that ends the
/// directory. Whenever the directory is nonempty, the character just before the file
/// name is `/`: removing the file name gives back the directory, up to one trailing `/`.
pub proof fn lemma_ipc_path_joins_directory_and_name(data_dir: Seq<char>)
    ensures
        spec_ipc_path(data_dir).len() <= data_dir.len() + 1 + ipc_file_name().len(),
        spec_ipc_path(data_dir).len() >= data_dir.len() + ipc_file_name().len(),
        spec_ipc_path(data_dir).take(data_dir.len() as int) == data_dir,
        spec_ipc_path(data_dir).skip(spec_ipc_path(data_dir).len() - ipc_file_name().len()) == ipc_file_name(),
        data_dir.len() > 0 ==> spec_ipc_path(data_dir)[spec_ipc_path(data_dir).len() - ipc_file_name().len() - 1] == '/',
        data_dir.len() > 0 && data_dir[data_dir.len() - 1] == '/' ==> spec_ipc_path(data_dir).len()
            == data_dir.len() + ipc_file_name().len(),
        data_dir.len() == 0 ==> spec_ipc_path(data_dir) == ipc_file_name(),
{
    let p = spec_ipc_path(data_dir);
    let name = ipc_file_name();
    assert(p.take(data_dir.len() as int) =~= data_dir);
    assert(p.skip(p.len() - name.len()) =~= name);
    if data_dir.len() == 0 {
        assert(p =~= name);
    }
}

/// Command-line settings of the miner.
pub struct Cli {
    /// Path to data
    pub data_dir: String,
    /// Number of threads
    pub threads: isize,
    /// Batch size
    pub batch_size: usize,
}

/// The last character of a string, if any.
fn last_char(s: &str) -> (r: Option<char>)
    ensures
        r == (if s@.len() == 0 { None } else { Some(s@.last()) }),
{
    let mut last: Option<char> = None;
    for c in it: s.chars()
        invariant
            it.seq() == s@,
            last == (if it.index() == 0 { None } else { Some(it.seq()[it.index() - 1]) }),
    {
        last = Some(c);
    }
    last
}

impl Cli {
    /// The IPC socket path inside the data directory.
    pub fn ipc_path(&self) -> (path: String)
        ensures
            path@ == spec_ipc_path(self.data_dir@),
    {
        let mut path = self.data_dir.clone();
        let needs_separator = match last_char(self.data_dir.as_str()) {
            None => false,
            Some(c) => c != '/',
        };
        if needs_separator {
            path.append("/");
            proof {
                reveal_strlit("/");
            }
        }
        path.append("ironfish.ipc");
        proof {
            reveal_strlit("ironfish.ipc");
            assert(path@ =~= spec_ipc_path(self.data_dir@));
        }
        path
    }

    /// Number of worker threads: the `threads` setting when positive, else the number of
    /// available CPUs.
    pub fn num_threads(&self) -> (n: usize)
        ensures
            self.threads > 0 ==> n == self.threads,
            self.threads <= 0 ==> n >= 1,
            exists|cpus: nat| cpus >= 1 && n == spec_thread_count(self.threads as int, cpus),
    {
        if self.threads > 0 {
            resolve_thread_count(self.threads, 1)
        } else {
            resolve_thread_count(self.threads, available_cpus())
        }
    }
}

} // verus!
