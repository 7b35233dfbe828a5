use dirsize::ignore::{gitignore_patterns, parse_gitignore, IgnoreSet};
use dirsize::walk::{total_size, FsEntry, FsNode};

fn patterns_of(text: &str) -> Vec<Vec<u8>> {
    parse_gitignore(&text.as_bytes().to_vec())
}

fn as_strings(pats: &[Vec<u8>]) -> Vec<String> {
    pats.iter().map(|p| String::from_utf8(p.clone()).unwrap()).collect()
}

#[test]
fn comment_negation_and_blank_lines_are_skipped() {
    let pats = patterns_of("# a comment\n!negated\n\ntarget\n");
    assert_eq!(as_strings(&pats), vec!["target".to_string()]);
}

#[test]
fn leading_slash_is_stripped() {
    let pats = patterns_of("/build\nsrc\n");
    assert_eq!(as_strings(&pats), vec!["build".to_string(), "src".to_string()]);
}

#[test]
fn crlf_line_endings_are_handled() {
    let pats = patterns_of("alpha\r\n# note\r\nbeta\r\n");
    assert_eq!(as_strings(&pats), vec!["alpha".to_string(), "beta".to_string()]);
}

#[test]
fn last_line_without_newline_counts() {
    let pats = patterns_of("alpha\nbeta");
    assert_eq!(as_strings(&pats), vec!["alpha".to_string(), "beta".to_string()]);
}

#[test]
fn empty_text_gives_no_patterns() {
    assert!(patterns_of("").is_empty());
    assert!(patterns_of("\n\n").is_empty());
    assert!(patterns_of("# only\n!lines\n").is_empty());
}

#[test]
fn missing_gitignore_behaves_like_disabled() {
    // No gitignore file: no patterns, exactly as when the flag is unset.
    let from_missing = gitignore_patterns(None);
    assert!(from_missing.is_empty());

    let root = FsNode::Dir {
        entries: vec![
            FsEntry { path: b"/r/a".to_vec(), node: FsNode::File { size: 500 } },
            FsEntry { path: b"/r/b".to_vec(), node: FsNode::File { size: 600 } },
        ],
    };
    let with_missing = IgnoreSet::from_paths(from_missing);
    let disabled = IgnoreSet::empty();
    assert_eq!(total_size(&root, &with_missing), total_size(&root, &disabled));
    assert_eq!(total_size(&root, &disabled), Some(1100));
}

#[test]
fn present_gitignore_is_read_through_the_same_entry_point() {
    let text = b"kept\n".to_vec();
    let pats = gitignore_patterns(Some(&text));
    assert_eq!(as_strings(&pats), vec!["kept".to_string()]);
}

#[test]
fn only_the_matched_subdir_is_excluded() {
    // A gitignore with a comment, a negation, and one real pattern. After
    // the pattern is resolved against the root, only that subdirectory's
    // bytes disappear from the total.
    let pats = patterns_of("# build artifacts\n!keepme\ntarget\n");
    assert_eq!(as_strings(&pats), vec!["target".to_string()]);
    let resolved: Vec<Vec<u8>> = pats
        .iter()
        .map(|p| {
            let mut abs = b"/r/".to_vec();
            abs.extend_from_slice(p);
            abs
        })
        .collect();
    let ig = IgnoreSet::from_paths(resolved);

    let root = FsNode::Dir {
        entries: vec![
            FsEntry { path: b"/r/keepme".to_vec(), node: FsNode::File { size: 11 } },
            FsEntry {
                path: b"/r/target".to_vec(),
                node: FsNode::Dir {
                    entries: vec![FsEntry {
                        path: b"/r/target/bin".to_vec(),
                        node: FsNode::File { size: 4096 },
                    }],
                },
            },
            FsEntry { path: b"/r/src".to_vec(), node: FsNode::File { size: 100 } },
        ],
    };
    assert_eq!(total_size(&root, &ig), Some(111));
    assert_eq!(total_size(&root, &IgnoreSet::empty()), Some(4207));
}

#[test]
fn join_path_inserts_separator() {
    let joined = dirsize::ignore::join_path(&b"/r".to_vec(), &b"target".to_vec());
    assert_eq!(joined, b"/r/target".to_vec());
}

#[test]
fn join_path_keeps_existing_separator() {
    let joined = dirsize::ignore::join_path(&b"/r/".to_vec(), &b"target".to_vec());
    assert_eq!(joined, b"/r/target".to_vec());
}

#[test]
fn join_path_absolute_pattern_stands_alone() {
    let joined = dirsize::ignore::join_path(&b"/r".to_vec(), &b"/etc/x".to_vec());
    assert_eq!(joined, b"/etc/x".to_vec());
}

#[test]
fn round_trip_scenario_two_files() {
    // Two files of 500 and 600 bytes, no gitignore: 1100 bytes, shown as
    // 1.07 KB.
    let root = FsNode::Dir {
        entries: vec![
            FsEntry { path: b"/r/one".to_vec(), node: FsNode::File { size: 500 } },
            FsEntry { path: b"/r/two".to_vec(), node: FsNode::File { size: 600 } },
        ],
    };
    let total = total_size(&root, &IgnoreSet::empty()).unwrap();
    assert_eq!(total, 1100);
    assert_eq!(dirsize::units::format_size(total), "1.07 KB");
}
