use repo_synthesizer::args::Args;
use repo_synthesizer::args::ArgsError;
use repo_synthesizer::config::Config;

fn strings(v: &[&str]) -> Vec<String> {
    v.iter().map(|s| s.to_string()).collect()
}

fn config_with_extensions(exts: &[&str]) -> Config {
    Config {
        ignored_folders: Vec::new(),
        ignored_files: Vec::new(),
        ignored_extensions: strings(exts),
    }
}

#[test]
fn test_args_parsing() {
    let config = config_with_extensions(&["log"]);
    let args = Args::parse(None, None, None, None, &config).unwrap();
    assert!(args.directory.is_none());
    assert!(args.output_file.is_none());
    assert!(args.extensions.is_none());
    assert_eq!(args.ignore, Some(strings(&["log"])));
}

#[test]
fn test_parse_merges_ignore_with_config() {
    let config = config_with_extensions(&["log", "bin"]);
    let args = Args::parse(
        Some("dir".to_string()),
        Some("out.txt".to_string()),
        None,
        Some(strings(&["tmp"])),
        &config,
    )
    .unwrap();
    assert_eq!(args.directory, Some("dir".to_string()));
    assert_eq!(args.output_file, Some("out.txt".to_string()));
    assert_eq!(args.ignore, Some(strings(&["tmp", "log", "bin"])));
}

#[test]
fn test_parse_conflict_errors() {
    let config = config_with_extensions(&[]);
    let r = Args::parse(None, None, Some(strings(&["rs"])), Some(strings(&["rs"])), &config);
    assert!(matches!(r, Err(ArgsError::ExtensionConflict)));
}

#[test]
fn test_parse_conflict_message() {
    let config = config_with_extensions(&[]);
    let r = Args::parse(None, None, Some(strings(&["rs"])), Some(strings(&["rs"])), &config);
    let e = r.err().unwrap();
    assert_eq!(e.message(), "The extensions and ignore list must not overlap");
}

#[test]
fn test_parse_conflict_with_config_extensions() {
    let config = config_with_extensions(&["log"]);
    let r = Args::parse(None, None, Some(strings(&["log"])), None, &config);
    assert!(r.is_err());
}

#[test]
fn test_parse_without_allow_list_never_conflicts() {
    let config = config_with_extensions(&["rs"]);
    let r = Args::parse(None, None, None, Some(strings(&["rs"])), &config);
    assert!(r.is_ok());
}

#[test]
fn test_is_valid_extension_allow_list_takes_precedence() {
    let args = Args {
        directory: None,
        output_file: None,
        extensions: Some(strings(&["rs", "toml"])),
        ignore: Some(strings(&["rs", "txt"])),
    };
    assert!(args.is_valid_extension("rs"));
    assert!(args.is_valid_extension("toml"));
    assert!(!args.is_valid_extension("txt"));
    assert!(!args.is_valid_extension("md"));
}

#[test]
fn test_is_valid_extension_deny_list() {
    let args = Args {
        directory: None,
        output_file: None,
        extensions: None,
        ignore: Some(strings(&["log"])),
    };
    assert!(!args.is_valid_extension("log"));
    assert!(args.is_valid_extension("rs"));
}

#[test]
fn test_is_valid_extension_no_lists() {
    let args = Args { directory: None, output_file: None, extensions: None, ignore: None };
    assert!(args.is_valid_extension("anything"));
}

#[test]
fn test_add_output_file_to_ignored_files() {
    let mut config = config_with_extensions(&[]);
    config.add_output_file_to_ignored_files("out.txt");
    assert_eq!(config.ignored_files, vec!["out.txt".to_string()]);
    assert!(config.ignored_folders.is_empty());
    assert!(config.ignored_extensions.is_empty());
}
