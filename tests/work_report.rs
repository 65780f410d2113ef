use std::collections::HashMap;

use work_report::{
    digests_differ, file_name_of, generate_partial_path_for_archive_dir, is_dated_report_name,
    join_path, listed, stamp_of, updated, ArchiveError, FsOp, WorkReportGenerator,
};

/// An in-memory directory tree: path to text.
type Files = HashMap<String, String>;

fn perform(fs: &mut Files, ops: &[FsOp]) {
    for op in ops {
        match op {
            FsOp::CreateDirAll { .. } => {}
            FsOp::Write { path, content } => {
                fs.insert(path.clone(), content.clone());
            }
            FsOp::Copy { from, to } => {
                let text = fs.get(from).expect("copy of a missing file").clone();
                fs.insert(to.clone(), text);
            }
        }
    }
}

fn listing(fs: &Files) -> Vec<String> {
    let mut v: Vec<String> = fs.keys().cloned().collect();
    v.sort();
    v
}

fn create(g: &WorkReportGenerator, fs: &mut Files, date: &str) {
    let ops = g.create_new(date, &listing(fs));
    perform(fs, &ops);
}

fn archive(g: &WorkReportGenerator, fs: &mut Files, src: &str) {
    let dst = g.archive_destination(src).unwrap();
    let seen = fs
        .get(&dst)
        .map(|kept| (fs.get(src).unwrap().clone(), kept.clone()));
    let ops = g.archive(src, seen).unwrap();
    perform(fs, &ops);
}

fn archive_all(g: &WorkReportGenerator, fs: &mut Files) {
    for p in g.archive_all(&listing(fs)) {
        archive(g, fs, &p);
    }
}

const TEMPLATE: &str = "<Today's task>\n-\n-\n\n<TODO>\n-\n-\n";

fn before_after(input: &str, expected_output: String) {
    println!("{} -> {}", input, expected_output);
    assert_eq!(generate_partial_path_for_archive_dir(input), Ok(expected_output));
}

#[test]
fn test_generate_partial_path_for_archive_dir() {
    before_after("20200826.txt", "Archive/2020/08".to_string());
}

#[test]
fn partial_path_takes_positions_only() {
    before_after("20201399.txt", "Archive/2020/13".to_string());
    before_after("20200826-notes.txt", "Archive/2020/08".to_string());
}

#[test]
fn partial_path_rejects_other_names() {
    for name in ["notes.txt", "2020082.txt", "2020a826.txt", "20200826.md", ""] {
        assert_eq!(
            generate_partial_path_for_archive_dir(name),
            Err(ArchiveError::BadFileName)
        );
    }
}

#[test]
fn dated_report_names() {
    assert!(is_dated_report_name("20200826.txt"));
    assert!(!is_dated_report_name("notes.txt"));
    assert!(!is_dated_report_name("202008.txt"));
    assert!(!is_dated_report_name("202008261.txt"));
    assert!(!is_dated_report_name("20200826.TXT"));
    assert!(!is_dated_report_name("Template.txt"));
}

#[test]
fn paths_and_file_names() {
    assert_eq!(join_path("/r", "a.txt"), "/r/a.txt");
    assert_eq!(file_name_of("/r/x/20200826.txt"), "20200826.txt");
    assert_eq!(file_name_of("20200826.txt"), "20200826.txt");
    assert_eq!(file_name_of("/r/x/"), "");
    let v = vec!["/r/a".to_string(), "/r/b".to_string()];
    assert!(listed(&v, &"/r/b".to_string()));
    assert!(!listed(&v, &"/r/c".to_string()));
}

#[test]
fn digests() {
    assert!(!updated("A", "A"));
    assert!(updated("A", "B"));
    assert!(updated("", "x"));
    assert!(!digests_differ(&vec![1, 2], &vec![1, 2]));
    assert!(digests_differ(&vec![1, 2], &vec![1, 3]));
    assert!(digests_differ(&vec![1, 2], &vec![1]));
}

#[test]
fn generator_paths() {
    let g = WorkReportGenerator::new("/r");
    assert_eq!(g.dir(), "/r");
    assert_eq!(g.template_path(), "/r/Template.txt");
    assert_eq!(g.report_path("20200101"), "/r/20200101.txt");
    assert_eq!(WorkReportGenerator::template_content(), TEMPLATE);
    assert_eq!(
        g.archive_destination("/r/20200826.txt"),
        Ok("/r/Archive/2020/08/20200826.txt".to_string())
    );
    assert_eq!(g.archive_destination("/r/notes.txt"), Err(ArchiveError::BadFileName));
}

#[test]
fn template_generated_when_missing() {
    let g = WorkReportGenerator::new("/r");
    let mut fs = Files::new();
    let ops = g.create_new("20200101", &listing(&fs));
    assert_eq!(
        ops,
        vec![
            FsOp::Write { path: "/r/Template.txt".to_string(), content: TEMPLATE.to_string() },
            FsOp::Copy { from: "/r/Template.txt".to_string(), to: "/r/20200101.txt".to_string() },
        ]
    );
    perform(&mut fs, &ops);
    assert_eq!(fs["/r/Template.txt"], TEMPLATE);
    assert_eq!(fs["/r/20200101.txt"], fs["/r/Template.txt"]);
}

#[test]
fn existing_template_is_copied() {
    let g = WorkReportGenerator::new("/r");
    let mut fs = Files::new();
    fs.insert("/r/Template.txt".to_string(), "mine".to_string());
    create(&g, &mut fs, "20200101");
    assert_eq!(fs["/r/Template.txt"], "mine");
    assert_eq!(fs["/r/20200101.txt"], "mine");
}

#[test]
fn creating_twice_changes_nothing() {
    let g = WorkReportGenerator::new("/r");
    let mut fs = Files::new();
    create(&g, &mut fs, "20200101");
    fs.insert("/r/20200101.txt".to_string(), "written".to_string());
    let before = fs.clone();
    let ops = g.create_new("20200101", &listing(&fs));
    assert!(ops.is_empty());
    create(&g, &mut fs, "20200101");
    assert_eq!(fs, before);
}

#[test]
fn today_report_is_planned() {
    let g = WorkReportGenerator::new("/r");
    let ops = g.create_for_today(2020, 2, 15, &vec!["/r/Template.txt".to_string()]);
    assert_eq!(
        ops,
        Some(vec![FsOp::Copy {
            from: "/r/Template.txt".to_string(),
            to: "/r/20200215.txt".to_string()
        }])
    );
    assert_eq!(g.create_for_today(2020, 13, 1, &Vec::new()), None);
    assert_eq!(g.create_for_today(10000, 1, 1, &Vec::new()), None);
    assert_eq!(g.create_for_today(2020, 1, 0, &Vec::new()), None);
}

#[test]
fn date_stamps() {
    assert_eq!(stamp_of(2020, 8, 26), Some("20200826".to_string()));
    assert_eq!(stamp_of(2020, 12, 31), Some("20201231".to_string()));
    assert_eq!(stamp_of(7, 1, 1), Some("00070101".to_string()));
    assert_eq!(stamp_of(9999, 2, 5), Some("99990205".to_string()));
    assert_eq!(stamp_of(-1, 1, 1), None);
    assert_eq!(stamp_of(2020, 0, 1), None);
    assert_eq!(stamp_of(2020, 1, 32), None);
}

#[test]
fn archive_all_keeps_dated_names_only() {
    let g = WorkReportGenerator::new("/r");
    let paths: Vec<String> = [
        "/r/notes.txt",
        "/r/20200826.txt",
        "/r/202008.txt",
        "/r/202008261.txt",
        "/r/Template.txt",
        "/r/20200101.txt",
    ]
    .iter()
    .map(|s| s.to_string())
    .collect();
    assert_eq!(
        g.archive_all(&paths),
        vec!["/r/20200826.txt".to_string(), "/r/20200101.txt".to_string()]
    );
    assert!(g.archive_all(&Vec::new()).is_empty());
}

#[test]
fn archive_bad_name_fails() {
    let g = WorkReportGenerator::new("/r");
    assert_eq!(g.archive("/r/notes.txt", None), Err(ArchiveError::BadFileName));
}

#[test]
fn rearchive_only_when_changed() {
    let g = WorkReportGenerator::new("/r");
    let src = "/r/20200826.txt";
    let dst = "/r/Archive/2020/08/20200826.txt";
    let mut fs = Files::new();
    fs.insert(src.to_string(), "first".to_string());
    archive(&g, &mut fs, src);
    assert_eq!(fs[dst], "first");

    let again = g.archive(src, Some(("first".to_string(), "first".to_string()))).unwrap();
    assert_eq!(
        again,
        vec![FsOp::CreateDirAll { path: "/r/Archive/2020/08".to_string() }]
    );
    let before = fs.clone();
    archive(&g, &mut fs, src);
    assert_eq!(fs, before);

    fs.insert(src.to_string(), "second".to_string());
    archive(&g, &mut fs, src);
    assert_eq!(fs[dst], "second");
}

#[test]
fn end_to_end() {
    let g = WorkReportGenerator::new("/r");
    let mut fs = Files::new();
    fs.insert("/r/20200101.txt".to_string(), "A".to_string());
    fs.insert("/r/20200102.txt".to_string(), "B".to_string());
    fs.insert("/r/random.txt".to_string(), "R".to_string());
    archive_all(&g, &mut fs);
    assert_eq!(fs["/r/Archive/2020/01/20200101.txt"], "A");
    assert_eq!(fs["/r/Archive/2020/01/20200102.txt"], "B");
    assert_eq!(fs["/r/random.txt"], "R");
    assert_eq!(fs.len(), 5);

    let ops = g.create_for_today(2020, 2, 15, &listing(&fs)).unwrap();
    perform(&mut fs, &ops);
    assert_eq!(fs["/r/20200215.txt"], fs["/r/Template.txt"]);
    assert_eq!(fs["/r/Template.txt"], TEMPLATE);
}

#[test]
fn other_text_files_are_not_archived() {
    let g = WorkReportGenerator::new("/r");
    let mut fs = Files::new();
    for name in ["notes.txt", "202008.txt", "202008261.txt", "Template.txt"] {
        fs.insert(format!("/r/{}", name), name.to_string());
    }
    fs.insert("/r/20200826.txt".to_string(), "D".to_string());
    let before = fs.clone();
    archive_all(&g, &mut fs);
    assert_eq!(fs.len(), before.len() + 1);
    assert_eq!(fs["/r/Archive/2020/08/20200826.txt"], "D");
    for (path, text) in &before {
        assert_eq!(&fs[path], text);
    }
}
