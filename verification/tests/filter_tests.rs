use repo_synthesizer::args::Args;
use repo_synthesizer::config::Config;
use repo_synthesizer::entry::Entry;
use repo_synthesizer::pipeline::filter_entries;
use repo_synthesizer::validator::is_valid_extension;
use repo_synthesizer::validator::is_valid_file;
use repo_synthesizer::validator::is_valid_folder;

fn strings(v: &[&str]) -> Vec<String> {
    v.iter().map(|s| s.to_string()).collect()
}

fn entry(components: &[&str], is_file: bool) -> Entry {
    Entry { components: strings(components), is_file }
}

fn config(folders: &[&str], files: &[&str], exts: &[&str]) -> Config {
    Config {
        ignored_folders: strings(folders),
        ignored_files: strings(files),
        ignored_extensions: strings(exts),
    }
}

fn no_filter_args() -> Args {
    Args { directory: None, output_file: None, extensions: None, ignore: None }
}

#[test]
fn test_folder_filter_excludes_descendants_at_any_depth() {
    let c = config(&["node_modules"], &[], &[]);
    assert!(!is_valid_folder(&entry(&["root", "node_modules", "x.txt"], true), &c));
    assert!(!is_valid_folder(&entry(&["root", "a", "node_modules", "b", "c.rs"], true), &c));
    assert!(!is_valid_folder(&entry(&["root", "node_modules"], false), &c));
    assert!(is_valid_folder(&entry(&["root", "a", "c.rs"], true), &c));
}

#[test]
fn test_folder_filter_is_exact_match() {
    let c = config(&["node_modules"], &[], &[]);
    assert!(is_valid_folder(&entry(&["root", "node_modules_bak", "x.txt"], true), &c));
}

#[test]
fn test_file_filter_excludes_matching_file() {
    let c = config(&[], &["secret.txt"], &[]);
    assert!(!is_valid_file(&entry(&["root", "secret.txt"], true), &c));
    assert!(is_valid_file(&entry(&["root", "other.txt"], true), &c));
}

#[test]
fn test_file_filter_does_not_exclude_directory_of_same_name() {
    let c = config(&[], &["secret.txt"], &[]);
    assert!(is_valid_file(&entry(&["root", "secret.txt"], false), &c));
}

#[test]
fn test_extension_filter_no_extension_always_passes() {
    let args = Args {
        directory: None,
        output_file: None,
        extensions: Some(strings(&["rs"])),
        ignore: None,
    };
    assert!(is_valid_extension(&entry(&["root", "Makefile"], true), &args));
    assert!(!is_valid_extension(&entry(&["root", "notes.txt"], true), &args));
    assert!(is_valid_extension(&entry(&["root", "main.rs"], true), &args));
}

#[test]
fn test_filter_entries_keeps_only_passing_files_in_order() {
    let c = config(&["node_modules"], &["ignored.rs"], &[]);
    let args = no_filter_args();
    let entries = vec![
        entry(&["root"], false),
        entry(&["root", "a.txt"], true),
        entry(&["root", "ignored.rs"], true),
        entry(&["root", "node_modules"], false),
        entry(&["root", "node_modules", "x.txt"], true),
        entry(&["root", "b.log"], true),
    ];
    let kept = filter_entries(entries, &c, &args);
    let names: Vec<Vec<String>> = kept.into_iter().map(|e| e.components).collect();
    assert_eq!(
        names,
        vec![strings(&["root", "a.txt"]), strings(&["root", "b.log"])]
    );
}

#[test]
fn test_filter_entries_drops_directories() {
    let c = config(&[], &[], &[]);
    let args = no_filter_args();
    let entries = vec![entry(&["root"], false), entry(&["root", "sub"], false)];
    let kept = filter_entries(entries, &c, &args);
    assert!(kept.is_empty());
}

#[test]
fn test_filter_entries_deny_list_from_config() {
    let c = config(&[], &[], &["log"]);
    let args = Args::parse(None, None, None, None, &c).unwrap();
    let entries = vec![
        entry(&["root", "a.txt"], true),
        entry(&["root", "b.log"], true),
    ];
    let kept = filter_entries(entries, &c, &args);
    let names: Vec<Vec<String>> = kept.into_iter().map(|e| e.components).collect();
    assert_eq!(names, vec![strings(&["root", "a.txt"])]);
}
