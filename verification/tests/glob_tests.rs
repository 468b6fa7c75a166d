use qutility::collector::{split_patterns, FileCollector};

#[test]
fn test_glob_match() {
    assert!(FileCollector::glob_match("*.res", "test.res"));
    assert!(FileCollector::glob_match("*.res", "TiC-123.res"));
    assert!(!FileCollector::glob_match("*.res", "test.cell"));
    assert!(FileCollector::glob_match("POSCAR*", "POSCAR"));
    assert!(FileCollector::glob_match("POSCAR*", "POSCAR_001"));
    assert!(FileCollector::glob_match("test?.res", "test1.res"));
    assert!(!FileCollector::glob_match("test?.res", "test12.res"));
}

#[test]
fn test_glob_match_edge_cases() {
    assert!(FileCollector::glob_match("", ""));
    assert!(!FileCollector::glob_match("", "a"));
    assert!(FileCollector::glob_match("*", ""));
    assert!(FileCollector::glob_match("**", "anything.at.all"));
    assert!(FileCollector::glob_match("a*b*c", "axxbyyc"));
    assert!(!FileCollector::glob_match("a*b*c", "axxbyy"));
    assert!(!FileCollector::glob_match("?", ""));
}

#[test]
fn test_split_patterns() {
    let parts = split_patterns("*.res, *.cell");
    assert_eq!(parts, vec!["*.res".to_string(), "*.cell".to_string()]);
    let empty = split_patterns(" , ,");
    assert!(empty.is_empty());
    let one = split_patterns("  POSCAR*  ");
    assert_eq!(one, vec!["POSCAR*".to_string()]);
}

#[test]
fn test_collector_path_kinds() {
    let c = FileCollector::new(std::path::PathBuf::from("."));
    assert!(c.is_directory());
    assert!(!c.is_single_file());
}

#[test]
fn test_collector_patterns() {
    let c = FileCollector::new(std::path::PathBuf::from(".")).with_pattern("*.res, POSCAR*");
    assert!(c.matches_patterns("a.res"));
    assert!(c.matches_patterns("POSCAR_001"));
    assert!(!c.matches_patterns("b.cell"));
    let d = FileCollector::new(std::path::PathBuf::from(".")).with_pattern("  ,  ");
    assert!(d.matches_patterns("anything"));
}
