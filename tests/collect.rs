use repo2prompt::collector::is_default_excluded_name;
use repo2prompt::paths::{file_name, is_clean_relative, relative_path};
use repo2prompt::{build_glob_set, Collector, Config, OutputFormat, RepoError};

fn config(included: &[&str], excluded: &[&str], excluded_dirs: &[&str], max: u64) -> Config {
    Config {
        directory: "/repo".to_string(),
        output_file: None,
        format: OutputFormat::Json,
        include_patterns: included.iter().map(|s| s.to_string()).collect(),
        exclude_patterns: excluded.iter().map(|s| s.to_string()).collect(),
        exclude_dir_patterns: excluded_dirs.iter().map(|s| s.to_string()).collect(),
        max_file_size: max,
        pretty_print: false,
    }
}

fn collector(included: &[&str], excluded: &[&str], excluded_dirs: &[&str], max: u64) -> Collector {
    Collector::new(&config(included, excluded, excluded_dirs, max), "/repo".to_string()).unwrap()
}

#[test]
fn scenario_python_and_markdown_collected() {
    let mut c = collector(&["*.py", "*.md"], &[], &["node_modules"], 1_000_000);
    assert!(c.admits_dir("/repo"));
    assert!(!c.admits_dir("/repo/node_modules"));
    let py = "def hello():\n    print('Hello, world!')\n";
    let md = "# Test Project\n\nThis is a test project.\n";
    assert!(c.add_file("/repo/test.py", py.len() as u64, py.to_string()));
    assert!(c.add_file("/repo/README.md", md.len() as u64, md.to_string()));
    assert!(!c.admits_file("/repo/excluded.log", 14));
    assert!(!c.add_file("/repo/excluded.log", 14, "Some log data\n".to_string()));
    let files_map = c.into_files();
    assert_eq!(files_map.len(), 2);
    assert!(files_map.contains_key("test.py"));
    assert!(files_map.contains_key("README.md"));
    assert!(!files_map.contains_key("excluded.log"));
    assert!(!files_map.contains_key("node_modules/package.json"));
    assert_eq!(files_map.get("test.py").unwrap(), py);
}

#[test]
fn default_excluded_dirs_never_admitted() {
    let c = collector(&["*"], &[], &[], 1_000_000);
    for name in [".git", "target", "node_modules", "__pycache__", "venv", ".venv", "env", ".env"] {
        assert!(is_default_excluded_name(name));
        assert!(!c.admits_dir(&format!("/repo/{}", name)));
        assert!(!c.admits_dir(&format!("/repo/sub/{}", name)));
    }
    assert!(c.admits_dir("/repo/src"));
    assert!(c.admits_dir("/repo/targets"));
    assert!(c.admits_dir("/repo/.github"));
    assert!(!is_default_excluded_name("environment"));
}

#[test]
fn exclude_dir_pattern_matches_full_path() {
    let c = collector(&["*"], &[], &["*/build"], 1_000_000);
    assert!(!c.admits_dir("/repo/build"));
    assert!(!c.admits_dir("/repo/a/build"));
    assert!(c.admits_dir("/repo/builder"));
}

#[test]
fn oversized_file_never_collected() {
    let mut c = collector(&["*.py"], &[], &[], 10);
    assert!(c.admits_file("/repo/a.py", 10));
    assert!(!c.admits_file("/repo/a.py", 11));
    assert!(!c.add_file("/repo/a.py", 11, "x".to_string()));
    assert_eq!(c.files_map().len(), 0);
    assert!(c.add_file("/repo/a.py", 10, "x".to_string()));
    assert_eq!(c.files_map().len(), 1);
}

#[test]
fn empty_include_list_collects_nothing() {
    let mut c = collector(&[], &[], &[], 1_000_000);
    for path in ["/repo/a.py", "/repo/README.md", "/repo/x/y.txt", "/repo/noext"] {
        assert!(!c.admits_file(path, 1));
        assert!(!c.add_file(path, 1, "content".to_string()));
    }
    assert_eq!(c.into_files().len(), 0);
}

#[test]
fn exclude_pattern_wins_over_include() {
    let c = collector(&["*.rs"], &["*test*"], &[], 1_000_000);
    assert!(c.admits_file("/repo/src/lib.rs", 5));
    assert!(!c.admits_file("/repo/src/test_util.rs", 5));
    assert!(!c.admits_file("/repo/src/lib.py", 5));
}

#[test]
fn matcher_matches_if_any_pattern_does() {
    let c = collector(&["*.py", "*.md", "docs/?.txt"], &[], &[], 1_000_000);
    assert!(c.admits_file("/repo/a.py", 1));
    assert!(c.admits_file("/repo/a.md", 1));
    assert!(c.admits_file("docs/a.txt", 1));
    assert!(!c.admits_file("docs/ab.txt", 1));
    assert!(!c.admits_file("/repo/a.js", 1));
}

#[test]
fn same_events_give_same_files() {
    let events = [
        ("/repo/a.py", "print(1)\n"),
        ("/repo/b/c.md", "# c\n"),
        ("/repo/d.bin", "zz"),
    ];
    let mut first = collector(&["*.py", "*.md"], &[], &[], 1_000_000);
    let mut second = collector(&["*.py", "*.md"], &[], &[], 1_000_000);
    for (path, content) in events {
        first.add_file(path, content.len() as u64, content.to_string());
        second.add_file(path, content.len() as u64, content.to_string());
    }
    let a = repo2prompt::files_map_to_vec(first.files_map());
    let b = repo2prompt::files_map_to_vec(second.files_map());
    assert_eq!(a.len(), 2);
    assert_eq!(a.len(), b.len());
    for (x, y) in a.iter().zip(b.iter()) {
        assert_eq!(x.path, y.path);
        assert_eq!(x.content, y.content);
    }
    // offering a file again leaves the map as it was
    first.add_file("/repo/a.py", 9, "print(1)\n".to_string());
    assert_eq!(first.files_map().len(), 2);
    assert_eq!(first.files_map().get("a.py").unwrap(), "print(1)\n");
}

#[test]
fn file_outside_root_is_skipped() {
    let mut c = collector(&["*.py"], &[], &[], 1_000_000);
    assert!(c.admits_file("/other/a.py", 1));
    assert!(!c.add_file("/other/a.py", 1, "x".to_string()));
    assert!(!c.add_file("/repository/a.py", 1, "x".to_string()));
    assert_eq!(c.files_map().len(), 0);
}

#[test]
fn invalid_pattern_is_reported() {
    let r = Collector::new(&config(&["*.py"], &["a[b"], &[], 10), "/repo".to_string());
    match r {
        Err(RepoError::InvalidPattern(p)) => assert_eq!(p, "a[b"),
        _ => panic!("expected an invalid pattern error"),
    }
    match build_glob_set(&vec!["ok*".to_string(), "{a".to_string(), "[".to_string()]) {
        Err(RepoError::InvalidPattern(p)) => assert_eq!(p, "{a"),
        _ => panic!("expected an invalid pattern error"),
    }
    assert!(build_glob_set(&Vec::new()).is_ok());
}

#[test]
fn relative_paths() {
    assert_eq!(relative_path("/repo", "/repo/a/b.rs").unwrap(), "a/b.rs");
    assert_eq!(relative_path("/", "/a.rs").unwrap(), "a.rs");
    assert_eq!(relative_path("/repo", "/repo").unwrap(), "");
    assert!(relative_path("/repo", "/repository/a.rs").is_none());
    assert!(relative_path("/repo", "/other/a.rs").is_none());
}

#[test]
fn file_names() {
    assert_eq!(file_name("/repo/node_modules"), "node_modules");
    assert_eq!(file_name("plain"), "plain");
    assert_eq!(file_name("/repo/ü.txt"), "ü.txt");
    assert_eq!(file_name("/"), "");
}

#[test]
fn default_config() {
    let c = Config::default();
    assert_eq!(c.directory, ".");
    assert!(c.output_file.is_none());
    assert_eq!(c.format, OutputFormat::Xml);
    assert_eq!(c.include_patterns, vec!["*.py", "*.js", "*.rs", "*.md", "*.txt", "*.ini"]);
    assert!(c.exclude_patterns.is_empty());
    assert!(c.exclude_dir_patterns.is_empty());
    assert_eq!(c.max_file_size, 1_000_000);
    assert!(!c.pretty_print);
}

#[test]
fn only_plain_relative_keys_collected() {
    let mut c = collector(&["*"], &[], &[], 1_000_000);
    assert!(!c.add_file("/repo//a.py", 1, "x".to_string()));
    assert!(!c.add_file("/repo/../a.py", 1, "x".to_string()));
    assert!(!c.add_file("/repo/./a.py", 1, "x".to_string()));
    assert!(!c.add_file("/repo/a//b.py", 1, "x".to_string()));
    assert!(!c.add_file("/repo", 1, "x".to_string()));
    assert!(c.add_file("/repo/.hidden/..x/a.py", 1, "x".to_string()));
    assert_eq!(c.files_map().len(), 1);
    assert!(c.files_map().contains_key(".hidden/..x/a.py"));
}

#[test]
fn clean_relative_paths() {
    assert!(is_clean_relative("a/b.rs"));
    assert!(is_clean_relative(".env.example"));
    assert!(is_clean_relative("a/...b"));
    assert!(!is_clean_relative(""));
    assert!(!is_clean_relative("/a"));
    assert!(!is_clean_relative("a/"));
    assert!(!is_clean_relative("a//b"));
    assert!(!is_clean_relative("./a"));
    assert!(!is_clean_relative("a/.."));
    assert!(!is_clean_relative("a/../b"));
}

#[test]
fn empty_lists_compile_to_empty_sets() {
    let c = Collector::new(&config(&[], &[], &[], 5), "/repo".to_string());
    assert!(c.is_ok());
    let c = c.unwrap();
    assert!(c.admits_dir("/repo/x"));
    assert!(!c.admits_file("/repo/x.py", 1));
}
