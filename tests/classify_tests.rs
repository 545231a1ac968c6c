//! Classification of working trees from their file names.

use repo_analytics::classify::{classify_files, file_extension, CodeDetectionRules};

fn names(list: &[&str]) -> Vec<String> {
    list.iter().map(|s| s.to_string()).collect()
}

fn rules(num: u64, den: u64) -> CodeDetectionRules {
    CodeDetectionRules::new(num, den, 10)
}

fn ten_files_two_source() -> Vec<String> {
    names(&[
        "main.rs", "build.gradle", "README.md", "a.txt", "b.txt", "c.md", "d.png", "e.jpg",
        "LICENSE", "f.html",
    ])
}

#[test]
fn share_at_threshold_is_source() {
    let analysis = classify_files(&ten_files_two_source(), &rules(1, 10));
    assert_eq!(analysis.total_files, 10);
    assert_eq!(analysis.source_files, 2);
    assert!(analysis.is_source_code_repo);
}

#[test]
fn share_below_threshold_is_not_source() {
    let analysis = classify_files(&ten_files_two_source(), &rules(3, 10));
    assert_eq!(analysis.source_files, 2);
    assert!(!analysis.is_source_code_repo);
}

#[test]
fn share_exactly_equal_is_source() {
    let analysis = classify_files(&ten_files_two_source(), &rules(2, 10));
    assert!(analysis.is_source_code_repo);
}

#[test]
fn empty_tree_is_not_source() {
    let analysis = classify_files(&Vec::new(), &rules(0, 1));
    assert_eq!(analysis.total_files, 0);
    assert_eq!(analysis.source_files, 0);
    assert!(!analysis.is_source_code_repo);
    assert!(analysis.file_extensions.is_empty());
}

#[test]
fn tree_without_source_files_is_not_source_even_at_zero_threshold() {
    let analysis = classify_files(&names(&["a.md", "b.txt"]), &rules(0, 1));
    assert_eq!(analysis.source_files, 0);
    assert!(!analysis.is_source_code_repo);
}

#[test]
fn extensions_are_lowercased_and_listed_once() {
    let analysis = classify_files(&names(&["Main.RS", "lib.rs", "notes.MD", "Makefile", ".gitignore"]), &rules(1, 2));
    assert_eq!(analysis.total_files, 5);
    assert_eq!(analysis.source_files, 2);
    assert_eq!(analysis.file_extensions, names(&["rs", "md"]));
    assert!(!analysis.is_source_code_repo);
}

#[test]
fn default_rules_list_build_files() {
    let rules = CodeDetectionRules::default();
    assert_eq!(rules.min_ratio_num, 1);
    assert_eq!(rules.min_ratio_den, 20);
    assert_eq!(rules.max_depth, 10);
    assert_eq!(rules.source_extensions.len(), 26);
    assert!(rules.source_extensions.contains(&"toml".to_string()));
    assert!(rules.source_extensions.contains(&"c++".to_string()));
}

#[test]
fn file_extension_follows_the_last_dot() {
    assert_eq!(file_extension("archive.tar.gz"), Some("gz".to_string()));
    assert_eq!(file_extension("trailing."), Some(String::new()));
    assert_eq!(file_extension(".bashrc"), None);
    assert_eq!(file_extension("README"), None);
    assert_eq!(file_extension("..x"), Some("x".to_string()));
}
