use samview::scan::{scan_assemble, Entry};
use samview::table::build_table;

fn e(path: &str, is_dir: bool) -> Entry {
    Entry { path: path.to_string(), is_dir }
}

fn paths(v: &[Entry]) -> Vec<String> {
    v.iter().map(|x| x.path.clone()).collect()
}

#[test]
fn scan_parent_first_dirs_before_files() {
    let children = vec![
        e("/data/a.sam", false),
        e("/data/b.bam", false),
        e("/data/notes.txt", false),
        e("/data/sub", true),
    ];
    let r = scan_assemble(Some("/".to_string()), children);
    assert_eq!(
        paths(&r),
        vec!["/", "/data/sub", "/data/a.sam", "/data/b.bam"]
    );
    assert!(r[0].is_dir);
}

#[test]
fn scan_case_insensitive_within_kind() {
    let children = vec![e("/d/B.sam", false), e("/d/a.sam", false)];
    let r = scan_assemble(None, children);
    assert_eq!(paths(&r), vec!["/d/a.sam", "/d/B.sam"]);
}

#[test]
fn scan_without_parent_can_be_empty() {
    let r = scan_assemble(None, Vec::new());
    assert!(r.is_empty());
}

#[test]
fn scan_unreadable_directory_degrades_to_parent_only() {
    let r = scan_assemble(Some("/up".to_string()), Vec::new());
    assert_eq!(paths(&r), vec!["/up"]);
}

#[test]
fn scan_suffix_matching_is_exact() {
    let children = vec![
        e("/d/.sam", false),
        e("/d/x.SAM", false),
        e("/d/y.samx", false),
        e("/d/ok.sam", false),
        e("/d/ok.bam", false),
        e("/d/noext", false),
    ];
    let r = scan_assemble(None, children);
    assert_eq!(paths(&r), vec!["/d/ok.bam", "/d/ok.sam"]);
}

#[test]
fn scan_keeps_directories_whatever_their_name() {
    let children = vec![e("/d/notes.txt", true), e("/d/z.sam", false)];
    let r = scan_assemble(None, children);
    assert_eq!(paths(&r), vec!["/d/notes.txt", "/d/z.sam"]);
}

#[test]
fn load_drops_comment_and_short_line() {
    let lines = vec![
        "@CO comment".to_string(),
        "read1\tfl\tref\t1\t0\tcigar\t*\t0\t0\tACGT\t****".to_string(),
        "bad\tline".to_string(),
    ];
    let t = build_table(&lines);
    assert_eq!(t.len(), 1);
    assert_eq!(t[0].len(), 11);
    assert_eq!(t[0][0], "read1");
    assert_eq!(t[0][10], "****");
}

#[test]
fn load_keeps_only_rows_with_enough_fields() {
    let ten = vec!["f"; 10].join("\t");
    let eleven = vec!["f"; 11].join("\t");
    let twelve = vec!["f"; 12].join("\t");
    let lines = vec![ten, eleven.clone(), twelve.clone(), String::new()];
    let t = build_table(&lines);
    assert_eq!(t.len(), 2);
    assert_eq!(t[0].len(), 11);
    assert_eq!(t[1].len(), 12);
    for row in &t {
        assert!(row.len() >= 11);
        assert!(!row[0].starts_with('@'));
    }
}

#[test]
fn load_of_empty_input_is_empty() {
    let t = build_table(&Vec::new());
    assert!(t.is_empty());
}

#[test]
fn load_skips_every_comment_line() {
    let eleven = vec!["@x"; 11].join("\t");
    let lines = vec![eleven, "@HD\tVN:1.6".to_string()];
    let t = build_table(&lines);
    assert!(t.is_empty());
}

#[test]
fn scan_parent_stands_first_even_unrecognized() {
    let children = vec![e("/a/x/sub", true)];
    let r = scan_assemble(Some("/a/x/notes.txt".to_string()), children);
    assert_eq!(paths(&r), vec!["/a/x/notes.txt", "/a/x/sub"]);
}
