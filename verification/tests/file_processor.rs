use paper_sage::file_processor::extension;
use paper_sage::file_processor::normalize;
use paper_sage::file_processor::Extractor;
use paper_sage::file_processor::FileProcessor;
use paper_sage::file_processor::IngestError;
use paper_sage::file_processor::ScannedFile;
use paper_sage::text::chars_of;
use paper_sage::text::string_of;

fn scanned(path: &str, content: Option<&str>) -> ScannedFile {
    ScannedFile { path: path.to_string(), content: content.map(|c| c.to_string()) }
}

#[test]
fn files_are_grouped_by_student_in_the_order_of_discovery() {
    let processor = FileProcessor::new();
    let files = vec![
        scanned("alice/main.py", Some("print(1)")),
        scanned("alice/notes.txt", Some("hello")),
        scanned("bob/main.py", Some("print(2)")),
    ];
    let submissions = processor.process_directory("root", &files);
    assert_eq!(submissions.len(), 2);
    let alice = &submissions[0];
    let bob = &submissions[1];
    assert_eq!(alice.student_name, "alice");
    assert_eq!(bob.student_name, "bob");
    assert_eq!(alice.files.len(), 2);
    assert_eq!(alice.files[0].filename, "alice/main.py");
    assert_eq!(alice.files[1].filename, "alice/notes.txt");
    assert!(alice.merged_content.contains("=== FILE: alice/main.py ==="));
    assert!(alice.merged_content.contains("=== FILE: alice/notes.txt ==="));
    assert_eq!(bob.files.len(), 1);
    assert_eq!(bob.merged_content, "=== FILE: bob/main.py ===\nType: py\nContent:\nprint(2)\n\n");
}

#[test]
fn files_of_a_student_need_not_follow_each_other() {
    let processor = FileProcessor::new();
    let files = vec![
        scanned("bob/a.py", Some("1")),
        scanned("alice/a.py", Some("2")),
        scanned("bob/deep/er/b.py", Some("3")),
        scanned("alice/b.py", Some("4")),
    ];
    let submissions = processor.process_directory("root", &files);
    assert_eq!(submissions.len(), 2);
    assert_eq!(submissions[0].student_name, "bob");
    assert_eq!(submissions[0].files.len(), 2);
    assert_eq!(submissions[0].files[1].filename, "bob/deep/er/b.py");
    assert_eq!(submissions[1].student_name, "alice");
    assert_eq!(submissions[1].files[0].content, "2");
    assert_eq!(submissions[1].files[1].content, "4");
}

#[test]
fn unsupported_and_unreadable_files_are_left_out() {
    let processor = FileProcessor::new();
    let files = vec![
        scanned("alice/photo.png", Some("binary")),
        scanned("alice/Makefile", Some("all:")),
        scanned("alice/.gitignore", Some("target")),
        scanned("alice/broken.pdf", None),
        scanned("bob/only.exe", Some("MZ")),
        scanned("carol/ok.rs", Some("fn main() {}")),
    ];
    let submissions = processor.process_directory("root", &files);
    assert_eq!(submissions.len(), 1);
    assert_eq!(submissions[0].student_name, "carol");
}

#[test]
fn nothing_scanned_gives_no_submission() {
    assert!(FileProcessor::new().process_directory("root", &Vec::new()).is_empty());
}

#[test]
fn files_in_the_root_belong_to_the_submission_of_the_root() {
    let processor = FileProcessor::new();
    let files = vec![scanned("main.py", Some("1")), scanned("util.py", Some("2"))];
    let submissions = processor.process_directory("homework", &files);
    assert_eq!(submissions.len(), 1);
    assert_eq!(submissions[0].student_name, "homework");
    assert_eq!(submissions[0].files.len(), 2);
    assert_eq!(submissions[0].files[0].filename, "main.py");
}

#[test]
fn student_is_the_first_part_of_the_path() {
    let processor = FileProcessor::default();
    assert_eq!(processor.extract_student_name("alice/src/main.py", "root"), "alice");
    assert_eq!(processor.extract_student_name("main.py", "root"), "root");
    assert_eq!(processor.extract_student_name("", "root"), "root");
    assert_eq!(processor.extract_student_name("/main.py", "root"), "");
}

#[test]
fn extension_is_taken_in_lower_case_and_backslashes_become_slashes() {
    let processor = FileProcessor::new();
    let file = processor.read_file(&scanned("alice\\src\\Main.PY", Some("x"))).unwrap();
    assert_eq!(file.filename, "alice/src/Main.PY");
    assert_eq!(file.file_type, "py");
    assert_eq!(file.content, "x");
    let submissions = processor.process_directory("root", &vec![scanned("alice\\Main.PY", Some("x"))]);
    assert_eq!(submissions[0].student_name, "alice");
}

#[test]
fn files_that_do_not_count_say_why() {
    let processor = FileProcessor::new();
    assert_eq!(processor.read_file(&scanned("a/b.png", Some("x"))).unwrap_err(), IngestError::UnsupportedFormat);
    assert_eq!(processor.read_file(&scanned("a/b", Some("x"))).unwrap_err(), IngestError::UnsupportedFormat);
    assert_eq!(processor.read_file(&scanned("a/b.", Some("x"))).unwrap_err(), IngestError::UnsupportedFormat);
    assert_eq!(processor.read_file(&scanned("a.py/b", Some("x"))).unwrap_err(), IngestError::UnsupportedFormat);
    assert_eq!(processor.read_file(&scanned("a/b.png", None)).unwrap_err(), IngestError::UnsupportedFormat);
    assert_eq!(processor.read_file(&scanned("a/b.pdf", None)).unwrap_err(), IngestError::ExtractionFailed);
}

#[test]
fn extractor_goes_by_the_extension() {
    let processor = FileProcessor::new();
    assert_eq!(processor.extractor_for("a/report.PDF"), Some(Extractor::Pdf));
    assert_eq!(processor.extractor_for("a/essay.docx"), Some(Extractor::Docx));
    assert_eq!(processor.extractor_for("a/essay.doc"), Some(Extractor::Docx));
    assert_eq!(processor.extractor_for("a/essay.rtf"), Some(Extractor::Docx));
    assert_eq!(processor.extractor_for("a/main.rs"), Some(Extractor::Text));
    assert_eq!(processor.extractor_for("a/data.csv"), Some(Extractor::Text));
    assert_eq!(processor.extractor_for("a/archive.tar.gz"), None);
    assert_eq!(processor.extractor_for("a/.hidden"), None);
    assert_eq!(processor.extractor_for("a/noext"), None);
}

#[test]
fn extension_follows_the_last_dot_of_the_file_name() {
    let of = |path: &str| extension(&chars_of(path)).map(|e| string_of(&e));
    assert_eq!(of("a/b.tar.gz"), Some("gz".to_string()));
    assert_eq!(of("a.b/c"), None);
    assert_eq!(of(".bashrc"), None);
    assert_eq!(of("a/.bashrc"), None);
    assert_eq!(of("a/.config.yml"), Some("yml".to_string()));
    assert_eq!(of("a/b."), Some(String::new()));
    assert_eq!(of(""), None);
    assert_eq!(string_of(&normalize("a\\b/c\\d")), "a/b/c/d");
}
