use ironfish_miner::cli::Cli;
use ironfish_miner::config::{args_are_well_formed, resolve_thread_count, Config};

fn args(a: &[&str]) -> Vec<String> {
    a.iter().map(|s| s.to_string()).collect()
}

#[test]
fn defaults_without_flags() {
    let c = Config::with_available_cpus(&args(&["miner"]), 8);
    assert_eq!(c.num_threads, 1);
    assert_eq!(c.batch_size, 1_000_000);
}

#[test]
fn positive_flags_are_taken() {
    let c = Config::with_available_cpus(&args(&["miner", "-t", "4", "-b", "500"]), 8);
    assert_eq!(c.num_threads, 4);
    assert_eq!(c.batch_size, 500);
    let c = Config::with_available_cpus(&args(&["-t", "+3"]), 8);
    assert_eq!(c.num_threads, 3);
}

#[test]
fn non_positive_threads_use_available_cpus() {
    let c = Config::with_available_cpus(&args(&["-t", "0"]), 8);
    assert_eq!(c.num_threads, 8);
    let c = Config::with_available_cpus(&args(&["-t", "-1"]), 6);
    assert_eq!(c.num_threads, 6);
}

#[test]
fn non_positive_batch_is_ignored() {
    let c = Config::with_available_cpus(&args(&["-b", "100", "-b", "0"]), 8);
    assert_eq!(c.batch_size, 100);
    let c = Config::with_available_cpus(&args(&["-b", "-5"]), 8);
    assert_eq!(c.batch_size, 1_000_000);
}

#[test]
fn last_flag_wins() {
    let c = Config::with_available_cpus(&args(&["-t", "2", "-t", "5", "-b", "7", "-b", "9"]), 8);
    assert_eq!(c.num_threads, 5);
    assert_eq!(c.batch_size, 9);
}

#[test]
fn new_reads_flags_with_machine_cpus() {
    let c = Config::new(&args(&["-t", "3", "-b", "12"]));
    assert_eq!(c.num_threads, 3);
    assert_eq!(c.batch_size, 12);
    let c = Config::new(&args(&["-t", "0"]));
    assert!(c.num_threads >= 1);
}

#[test]
fn well_formed_arguments() {
    assert!(args_are_well_formed(&args(&["miner", "-t", "4"])));
    assert!(args_are_well_formed(&args(&[])));
    assert!(!args_are_well_formed(&args(&["-t"])));
    assert!(!args_are_well_formed(&args(&["-b", "x"])));
    assert!(!args_are_well_formed(&args(&["-t", "-b", "4"])));
    assert!(!args_are_well_formed(&args(&["-t", "99999999999999999999"])));
}

#[test]
fn thread_count_resolution() {
    assert_eq!(resolve_thread_count(5, 2), 5);
    assert_eq!(resolve_thread_count(0, 2), 2);
    assert_eq!(resolve_thread_count(-1, 3), 3);
}

fn cli(dir: &str, threads: isize) -> Cli {
    Cli { data_dir: dir.to_string(), threads, batch_size: 1_000_000 }
}

#[test]
fn ipc_path_joins_the_socket_name() {
    assert_eq!(cli(".ironfish", -1).ipc_path(), ".ironfish/ironfish.ipc");
    assert_eq!(cli("/var/data/", -1).ipc_path(), "/var/data/ironfish.ipc");
    assert_eq!(cli("", -1).ipc_path(), "ironfish.ipc");
}

#[test]
fn cli_thread_count() {
    assert_eq!(cli(".ironfish", 6).num_threads(), 6);
    assert!(cli(".ironfish", -1).num_threads() >= 1);
}
