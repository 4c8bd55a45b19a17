use vstd::prelude::*;
use crate::decimal::{parse_isize, signed_decimal};

verus! {

/// Number of worker threads when no `-t` flag is given.
pub const DEFAULT_NUM_THREADS: usize = 1;
/// Batch size when no `-b` flag with a positive value is given.
pub const DEFAULT_BATCH_SIZE: usize = 1_000_000;

/// `num_cpus::get`: the number of CPUs that the process may use, which its
/// documentation promises to be at least 1. What the number is depends on the machine.
#[verifier::external_body]
pub(crate) fn available_cpus() -> (n: usize)
    ensures
        n >= 1,
{
    num_cpus::get()
}

/// The thread count for a requested value: the value itself when positive, else the
/// number of available CPUs.
pub open spec fn spec_thread_count(requested: int, available: nat) -> nat {
    if requested > 0 { requested as nat } else { available }
}

/// The thread count for a requested value: the value itself when positive, else the
/// number of available CPUs.
pub fn resolve_thread_count(requested: isize, available: usize) -> (n: usize)
    ensures
        n == spec_thread_count(requested as int, available as nat),
{
    if requested > 0 {
        requested as usize
    } else {
        available
    }
}

/// The threads flag.
pub open spec fn threads_flag() -> Seq<char> {
    seq!['-', 't']
}

/// The batch size flag.
pub open spec fn batch_flag() -> Seq<char> {
    seq!['-', 'b']
}

/// Whether each `-t` or `-b` in the arguments is followed by an argument that parses as
/// an `isize`.
pub open spec fn args_well_formed(args: Seq<Seq<char>>) -> bool {
    forall|i: int|
        0 <= i < args.len() && (#[trigger] args[i] == threads_flag() || args[i] == batch_flag()) ==> {
            &&& i + 1 < args.len()
            &&& signed_decimal(args[i + 1]) is Some
        }
}

/// The (threads, batch size) pair after reading the first `n` arguments: every `-t`
/// sets the threads to its value when positive and to `available` otherwise; every `-b`
/// with a positive value sets the batch size, and one with another value is ignored.
/// Every argument is looked at, values included.
pub open spec fn config_after(args: Seq<Seq<char>>, n: int, available: nat) -> (nat, nat)
    decreases n,
{
    if n <= 0 {
        (DEFAULT_NUM_THREADS as nat, DEFAULT_BATCH_SIZE as nat)
    } else {
        let (threads, batch) = config_after(args, n - 1, available);
        let key = args[n - 1];
        if key == threads_flag() {
            (spec_thread_count(signed_decimal(args[n]).unwrap(), available), batch)
        } else if key == batch_flag() {
            let v = signed_decimal(args[n]).unwrap();
            (threads, if v > 0 { v as nat } else { batch })
        } else {
            (threads, batch)
        }
    }
}

/// Whether argument `i` is a `-b` flag followed by a positive value.
pub open spec fn sets_batch(args: Seq<Seq<char>>, i: int) -> bool {
    &&& args[i] == batch_flag()
    &&& i + 1 < args.len()
    &&& signed_decimal(args[i + 1]) is Some
    &&& signed_decimal(args[i + 1]).unwrap() > 0
}

/// The batch size is that of the last `-b` flag with a positive value among the first
/// `n` arguments, or 1 000 000 if there is none; `-t` flags, wherever they stand, play
/// no part. The witness returned is the position of that flag, or -1.
pub proof fn lemma_batch_size_is_last_positive_batch_flag(args: Seq<Seq<char>>, n: int, available: nat) -> (i: int)
    requires
        args_well_formed(args),
        0 <= n <= args.len(),
    ensures
        i == -1 ==> {
            &&& config_after(args, n, available).1 == 1_000_000
            &&& forall|j: int| 0 <= j < n ==> !sets_batch(args, j)
        },
        i != -1 ==> {
            &&& 0 <= i < n
            &&& sets_batch(args, i)
            &&& signed_decimal(args[i + 1]) == Some(config_after(args, n, available).1 as int)
            &&& forall|j: int| i < j < n ==> !sets_batch(args, j)
        },
    decreases n,
{
    if n == 0 {
        -1
    } else {
        let prev = lemma_batch_size_is_last_positive_batch_flag(args, n - 1, available);
        let key = args[n - 1];
        if key == batch_flag() {
            assert(n - 1 + 1 < args.len() && signed_decimal(args[n]) is Some);
        }
        if sets_batch(args, n - 1) {
            n - 1
        } else {
            assert(config_after(args, n, available).1 == config_after(args, n - 1, available).1);
            prev
        }
    }
}

/// Whether argument `i` is a `-t` flag.
pub open spec fn sets_threads(args: Seq<Seq<char>>, i: int) -> bool {
    args[i] == threads_flag()
}

/// The thread count is set by the last `-t` flag among the first `n` arguments (its
/// value when positive, else the available CPUs), or is 1 if there is none; `-b` flags,
/// wherever they stand, play no part. The witness returned is the position of that
/// flag, or -1.
pub proof fn lemma_threads_is_last_threads_flag(args: Seq<Seq<char>>, n: int, available: nat) -> (i: int)
    requires
        args_well_formed(args),
        0 <= n <= args.len(),
    ensures
        i == -1 ==> {
            &&& config_after(args, n, available).0 == 1
            &&& forall|j: int| 0 <= j < n ==> !sets_threads(args, j)
        },
        i != -1 ==> {
            &&& 0 <= i < n
            &&& sets_threads(args, i)
            &&& signed_decimal(args[i + 1]) is Some
            &&& config_after(args, n, available).0 == (if signed_decimal(args[i + 1]).unwrap() > 0 {
                signed_decimal(args[i + 1]).unwrap() as nat
            } else {
                available
            })
            &&& forall|j: int| i < j < n ==> !sets_threads(args, j)
        },
    decreases n,
{
    if n == 0 {
        -1
    } else {
        let prev = lemma_threads_is_last_threads_flag(args, n - 1, available);
        if sets_threads(args, n - 1) {
            assert(n - 1 + 1 < args.len() && signed_decimal(args[n]) is Some);
            n - 1
        } else {
            assert(config_after(args, n, available).0 == config_after(args, n - 1, available).0);
            prev
        }
    }
}

/// The views of a list of strings.
pub open spec fn arg_views(args: Seq<String>) -> Seq<Seq<char>> {
    args.map_values(|s: String| s@)
}

/// Whether each `-t` or `-b` among the arguments is followed by an argument that parses
/// as an `isize`: the arguments that `Config::new` accepts.
pub fn args_are_well_formed(args: &[String]) -> (b: bool)
    ensures
        b == args_well_formed(arg_views(args@)),
{
    let ghost views = arg_views(args@);
    let t_flag = String::from_str("-t");
    let b_flag = String::from_str("-b");
    proof {
        reveal_strlit("-t");
        reveal_strlit("-b");
        assert(t_flag@ =~= threads_flag());
        assert(b_flag@ =~= batch_flag());
    }
    let n = args.len();
    let mut idx: usize = 0;
    while idx < n
        invariant
            n == args@.len(),
            views == arg_views(args@),
            views.len() == n,
            t_flag@ == threads_flag(),
            b_flag@ == batch_flag(),
            idx <= n,
            forall|i: int|
                0 <= i < idx && (#[trigger] views[i] == threads_flag() || views[i] == batch_flag()) ==> {
                    &&& i + 1 < views.len()
                    &&& signed_decimal(views[i + 1]) is Some
                },
        decreases n - idx,
    {
        assert(views[idx as int] == args@[idx as int]@);
        if args[idx] == t_flag || args[idx] == b_flag {
            if idx + 1 >= n {
                return false;
            }
            assert(views[idx + 1] == args@[idx + 1]@);
            if parse_isize(args[idx + 1].as_str()).is_none() {
                return false;
            }
        }
        idx = idx + 1;
    }
    true
}

/// Miner settings read from command-line arguments.
pub struct Config {
    pub num_threads: usize,
    pub batch_size: usize,
}

impl Config {
    /// Reads `-t <threads>` and `-b <batch size>` from the arguments; the number of
    /// available CPUs stands in for a `-t` value that is not positive.
    pub fn new(args: &[String]) -> (c: Config)
        requires
            args_well_formed(arg_views(args@)),
        ensures
            exists|cpus: nat|
                cpus >= 1 && (c.num_threads as nat, c.batch_size as nat) == config_after(
                    arg_views(args@),
                    args@.len() as int,
                    cpus,
                ),
    {
        let cpus = available_cpus();
        let c = Config::with_available_cpus(args, cpus);
        assert((c.num_threads as nat, c.batch_size as nat) == config_after(
            arg_views(args@), args@.len() as int, cpus as nat));
        c
    }

    /// As `new`, with the number of available CPUs given.
    pub fn with_available_cpus(args: &[String], cpus: usize) -> (c: Config)
        requires
            args_well_formed(arg_views(args@)),
        ensures
            (c.num_threads as nat, c.batch_size as nat) == config_after(
                arg_views(args@),
                args@.len() as int,
                cpus as nat,
            ),
    {
        let ghost views = arg_views(args@);
        let t_flag = String::from_str("-t");
        let b_flag = String::from_str("-b");
        proof {
            reveal_strlit("-t");
            reveal_strlit("-b");
            assert(t_flag@ =~= threads_flag());
            assert(b_flag@ =~= batch_flag());
        }
        let mut num_threads = DEFAULT_NUM_THREADS;
        let mut batch_size = DEFAULT_BATCH_SIZE;
        let n = args.len();
        let mut idx: usize = 0;
        while idx < n
            invariant
                n == args@.len(),
                views == arg_views(args@),
                views.len() == n,
                args_well_formed(views),
                t_flag@ == threads_flag(),
                b_flag@ == batch_flag(),
                idx <= n,
                (num_threads as nat, batch_size as nat) == config_after(views, idx as int, cpus as nat),
            decreases n - idx,
        {
            let key = &args[idx];
            assert(views[idx as int] == key@);
            if *key == t_flag {
                assert(views[idx as int] == threads_flag());
                let v = parse_isize(args[idx + 1].as_str());
                assert(views[idx + 1] == args@[idx + 1]@);
                let val = match v {
                    Some(val) => val,
                    None => {
                        assert(false);
                        0
                    },
                };
                num_threads = resolve_thread_count(val, cpus);
            } else if *key == b_flag {
                assert(views[idx as int] == batch_flag());
                let v = parse_isize(args[idx + 1].as_str());
                assert(views[idx + 1] == args@[idx + 1]@);
                let val = match v {
                    Some(val) => val,
                    None => {
                        assert(false);
                        0
                    },
                };
                if val > 0 {
                    batch_size = val as usize;
                }
            }
            idx = idx + 1;
        }
        Config { num_threads: num_threads, batch_size: batch_size }
    }
}

} // verus!
