use http_core::env::ProgramEnv;
use itertools::Itertools;

fn args(args: &[&str]) -> Vec<String> {
    args.iter().map(|arg| arg.to_string()).collect()
}

fn dir(given: &[&str]) -> Option<String> {
    ProgramEnv::from_args(args(given)).files_dir
}

#[test]
fn directory_flag_names_the_directory() {
    assert_eq!(dir(&["server", "--directory", "/tmp/data"]), Some("/tmp/data".to_string()));
    assert_eq!(
        ProgramEnv::from_args(args(&["server", "--directory", "/tmp/data"])),
        ProgramEnv { files_dir: Some("/tmp/data".to_string()) }
    );
}

#[test]
fn no_flag_no_directory() {
    assert_eq!(dir(&[]), None);
    assert_eq!(dir(&["server"]), None);
    assert_eq!(dir(&["server", "--verbose", "yes"]), None);
    assert_eq!(dir(&["--directory", "/tmp/data"]), None);
}

#[test]
fn flag_without_value_is_left_out() {
    assert_eq!(dir(&["server", "--directory"]), None);
    assert_eq!(dir(&["server", "a", "b", "--directory"]), None);
}

#[test]
fn flag_counts_only_at_the_head_of_a_pair() {
    assert_eq!(dir(&["server", "x", "--directory", "/tmp/data"]), None);
    assert_eq!(dir(&["server", "x", "y", "--directory", "/tmp/data"]), Some("/tmp/data".to_string()));
    assert_eq!(dir(&["server", "x", "--directory", "/a", "b"]), None);
}

#[test]
fn last_flag_wins() {
    assert_eq!(
        dir(&["server", "--directory", "/first", "--directory", "/second"]),
        Some("/second".to_string())
    );
    assert_eq!(
        dir(&["server", "--directory", "/first", "--other", "/second"]),
        Some("/first".to_string())
    );
    assert_eq!(
        dir(&["server", "--directory", "--directory", "--directory", "/d"]),
        Some("/d".to_string())
    );
}

#[test]
fn directory_is_taken_as_written() {
    assert_eq!(dir(&["server", "--directory", ""]), Some(String::new()));
    assert_eq!(dir(&["server", "--directory", "rel/dir/"]), Some("rel/dir/".to_string()));
}

#[test]
fn from_args_agrees_with_a_walk_over_the_pairs() {
    let lines = [
        vec![],
        vec!["p"],
        vec!["p", "--directory"],
        vec!["p", "--directory", "a"],
        vec!["p", "a", "--directory", "b"],
        vec!["p", "a", "b", "--directory", "c", "d"],
        vec!["p", "--directory", "a", "--directory", "b", "--directory"],
    ];
    for line in lines {
        let mut expected = None;
        for (current, next) in line.iter().skip(1).tuples() {
            if *current == "--directory" {
                expected = Some(next.to_string());
            }
        }
        assert_eq!(dir(&line), expected, "{:?}", line);
    }
}
