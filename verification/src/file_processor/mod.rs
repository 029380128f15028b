//! Ingestion: from the files of a submission tree to one submission per student.
//!
//! The caller walks the tree and reads the files; this module decides which
//! files count, names each one, and groups them. A path is given relative to
//! the root of the tree. Its parts are separated by `/`; a `\` counts as a `/`.
//! The student of a file is the first part of its path, or the name of the
//! root where the file lies in the root itself. Students come out in the
//! order in which their first file was found, and so do the files of each.

pub mod docx_processor;
pub mod supported_formats;

use crate::file_processor::supported_formats::is_supported_extension;
use crate::models::merged_content_of;
use crate::models::views_of;
use crate::models::FileContent;
use crate::models::FileContentView;
use crate::models::StudentSubmission;
use crate::models::StudentSubmissionView;
use crate::text::chars_of;
use crate::text::find_char;
use crate::text::first_index_of;
use crate::text::last_index_of;
use crate::text::rfind_char;
use crate::text::same_text;
use crate::text::slice_of;
use crate::text::string_of;
use vstd::prelude::*;

pub use crate::file_processor::supported_formats::SupportedFormats;

verus! {

/// `text` in lower case, as `str::to_lowercase` gives it.
pub uninterp spec fn lowercase_of(text: Seq<char>) -> Seq<char>;

/// `str::to_lowercase` returns the lowercase equivalent of the string, by the
/// Unicode rules that the standard library follows. The result depends on the
/// string alone.
pub assume_specification[ str::to_lowercase ](text: &str) -> (r: String)
    ensures
        r@ == lowercase_of(text@),
;

/// `path` with `/` in place of every `\`.
pub open spec fn normalized(path: Seq<char>) -> Seq<char> {
    path.map_values(
        |c: char|
            if c == '\\' {
                '/'
            } else {
                c
            },
    )
}

/// The last part of a normalized path: what follows its last `/`.
pub open spec fn file_name_of(path: Seq<char>) -> Seq<char> {
    match last_index_of(path, '/') {
        Some(at) => path.skip(at + 1),
        None => path,
    }
}

/// The extension of a normalized path: what follows the last `.` of its file
/// name. A file name without a `.`, or with its only `.` in front, has none.
pub open spec fn extension_of(path: Seq<char>) -> Option<Seq<char>> {
    let name = file_name_of(path);
    match last_index_of(name, '.') {
        Some(at) => if at > 0 {
            Some(name.skip(at + 1))
        } else {
            None
        },
        None => None,
    }
}

/// The type of the file at `path`: its extension in lower case.
pub open spec fn file_type_of(path: Seq<char>) -> Option<Seq<char>> {
    match extension_of(normalized(path)) {
        Some(extension) => Some(lowercase_of(extension)),
        None => None,
    }
}

/// The student of the file at the normalized path `path`: the first part of
/// the path, or `root_name` where the path has one part only.
pub open spec fn student_of(path: Seq<char>, root_name: Seq<char>) -> Seq<char> {
    match first_index_of(path, '/') {
        Some(at) => path.take(at),
        None => root_name,
    }
}

/// How the text of a file is taken out.
#[derive(Clone, Copy, Debug, PartialEq, Eq, Structural)]
pub enum Extractor {
    /// The file is text: it is decoded as it stands.
    Text,
    /// The file is a PDF.
    Pdf,
    /// The file is a word-processor document.
    Docx,
}

/// The extractor for files of the type `file_type`, if the type is supported.
pub open spec fn extractor_of(file_type: Seq<char>) -> Option<Extractor> {
    if !is_supported_extension(file_type) {
        None
    } else if file_type == "pdf"@ {
        Some(Extractor::Pdf)
    } else if file_type == "docx"@ || file_type == "doc"@ || file_type == "rtf"@ {
        Some(Extractor::Docx)
    } else {
        Some(Extractor::Text)
    }
}

/// A file that the walk has found.
#[derive(Debug)]
pub struct ScannedFile {
    /// The path below the root.
    pub path: String,
    /// The text taken from the file, or `None` where that failed.
    pub content: Option<String>,
}

/// What a `ScannedFile` holds.
pub struct ScannedFileView {
    pub path: Seq<char>,
    pub content: Option<Seq<char>>,
}

impl View for ScannedFile {
    type V = ScannedFileView;

    open spec fn view(&self) -> ScannedFileView {
        ScannedFileView { path: self.path@, content: crate::models::optional_view(self.content) }
    }
}

/// Why a file is left out.
#[derive(Clone, Copy, Debug, PartialEq, Eq, Structural)]
pub enum IngestError {
    /// The file has no extension, or one that is not supported.
    UnsupportedFormat,
    /// No text could be taken from the file.
    ExtractionFailed,
}

/// What a scanned file contributes: its content under its normalized path and
/// its type, where the type is supported and the text was taken out.
pub open spec fn accepted(file: ScannedFileView) -> Result<FileContentView, IngestError> {
    match file_type_of(file.path) {
        Some(file_type) => if is_supported_extension(file_type) {
            match file.content {
                Some(content) => Ok(
                    FileContentView { filename: normalized(file.path), content, file_type },
                ),
                None => Err(IngestError::ExtractionFailed),
            }
        } else {
            Err(IngestError::UnsupportedFormat)
        },
        None => Err(IngestError::UnsupportedFormat),
    }
}

/// The files of one student.
pub struct Group {
    pub name: Seq<char>,
    pub files: Seq<FileContentView>,
}

/// The place of the group of `name` in `groups`, if there is one.
pub open spec fn group_index(groups: Seq<Group>, name: Seq<char>) -> Option<int>
    decreases groups.len(),
{
    if groups.len() == 0 {
        None
    } else if groups.last().name == name {
        Some(groups.len() - 1)
    } else {
        group_index(groups.drop_last(), name)
    }
}

/// `groups` with `file` added to the group of `name`, which is opened at the
/// end where there is none yet.
pub open spec fn with_file(groups: Seq<Group>, name: Seq<char>, file: FileContentView) -> Seq<
    Group,
> {
    match group_index(groups, name) {
        Some(at) => groups.update(at, Group { name, files: groups[at].files.push(file) }),
        None => groups.push(Group { name, files: seq![file] }),
    }
}

/// The groups that the files of a walk form, taken in the order of the walk.
pub open spec fn grouped(root_name: Seq<char>, scanned: Seq<ScannedFileView>) -> Seq<Group>
    decreases scanned.len(),
{
    if scanned.len() == 0 {
        Seq::empty()
    } else {
        let before = grouped(root_name, scanned.drop_last());
        match accepted(scanned.last()) {
            Ok(file) => with_file(before, student_of(file.filename, root_name), file),
            Err(_) => before,
        }
    }
}

/// The submission that a group makes.
pub open spec fn submission_of(group: Group) -> StudentSubmissionView {
    StudentSubmissionView {
        student_name: group.name,
        files: group.files,
        merged_content: merged_content_of(group.files),
    }
}

/// The submissions that groups make.
pub open spec fn submissions_of(groups: Seq<Group>) -> Seq<StudentSubmissionView> {
    groups.map_values(|group: Group| submission_of(group))
}

/// Whether no two of `groups` bear the same name, and none is empty.
pub open spec fn well_grouped(groups: Seq<Group>) -> bool {
    &&& forall|i: int, j: int| 0 <= i < j < groups.len() ==> groups[i].name != groups[j].name
    &&& forall|i: int| 0 <= i < groups.len() ==> (#[trigger] groups[i]).files.len() > 0
}

/// Where a group is found, it bears the name; where none is found, none does.
pub proof fn lemma_group_index(groups: Seq<Group>, name: Seq<char>)
    ensures
        match group_index(groups, name) {
            Some(at) => 0 <= at < groups.len() && groups[at].name == name,
            None => forall|i: int| 0 <= i < groups.len() ==> (#[trigger] groups[i]).name != name,
        },
    decreases groups.len(),
{
    if groups.len() > 0 && groups.last().name != name {
        lemma_group_index(groups.drop_last(), name);
        if group_index(groups, name) is None {
            assert forall|i: int| 0 <= i < groups.len() implies (#[trigger] groups[i]).name
                != name by {
                if i < groups.len() - 1 {
                    assert(groups.drop_last()[i].name != name);
                }
            }
        }
    }
}

/// Every student has one submission, and every submission a file: the groups
/// of a walk bear different names, and none is empty.
pub proof fn lemma_grouped_is_well_grouped(root_name: Seq<char>, scanned: Seq<ScannedFileView>)
    ensures
        well_grouped(grouped(root_name, scanned)),
    decreases scanned.len(),
{
    if scanned.len() > 0 {
        lemma_grouped_is_well_grouped(root_name, scanned.drop_last());
        let before = grouped(root_name, scanned.drop_last());
        match accepted(scanned.last()) {
            Ok(file) => {
                lemma_group_index(before, student_of(file.filename, root_name));
            },
            Err(_) => {},
        }
    }
}

/// The files that a walk contributes for the student `name`, in the order of
/// the walk.
pub open spec fn files_of(root_name: Seq<char>, scanned: Seq<ScannedFileView>, name: Seq<char>) -> Seq<
    FileContentView,
>
    decreases scanned.len(),
{
    if scanned.len() == 0 {
        Seq::empty()
    } else {
        let before = files_of(root_name, scanned.drop_last(), name);
        match accepted(scanned.last()) {
            Ok(file) => if student_of(file.filename, root_name) == name {
                before.push(file)
            } else {
                before
            },
            Err(_) => before,
        }
    }
}

/// Every file that counts lies in the group of its student, and nowhere else:
/// a group holds the files that the walk contributes for its student, in the
/// order of the walk, and a student without a group has contributed none.
pub proof fn lemma_groups_hold_their_files(
    root_name: Seq<char>,
    scanned: Seq<ScannedFileView>,
    name: Seq<char>,
)
    ensures
        match group_index(grouped(root_name, scanned), name) {
            Some(at) => grouped(root_name, scanned)[at].files == files_of(root_name, scanned, name),
            None => files_of(root_name, scanned, name).len() == 0,
        },
    decreases scanned.len(),
{
    if scanned.len() > 0 {
        let rest = scanned.drop_last();
        let before = grouped(root_name, rest);
        lemma_groups_hold_their_files(root_name, rest, name);
        lemma_grouped_is_well_grouped(root_name, rest);
        lemma_group_index(before, name);
        match accepted(scanned.last()) {
            Ok(file) => {
                let student = student_of(file.filename, root_name);
                let after = with_file(before, student, file);
                lemma_group_index(before, student);
                lemma_group_index(after, name);
                lemma_grouped_is_well_grouped(root_name, scanned);
                match group_index(before, student) {
                    Some(at) => {
                        if student == name {
                            let found = group_index(after, name)->0;
                            if found != at {
                                assert(after[found].name == after[at].name);
                            }
                        } else {
                            match group_index(before, name) {
                                Some(old_at) => {
                                    let found = group_index(after, name)->0;
                                    assert(after[old_at].name == name);
                                    if found != old_at {
                                        assert(after[found].name == after[old_at].name);
                                    }
                                },
                                None => {
                                    if group_index(after, name) is Some {
                                        let found = group_index(after, name)->0;
                                        assert(before[found].name != name);
                                    }
                                },
                            }
                        }
                    },
                    None => {
                        if student == name {
                            let found = group_index(after, name)->0;
                            let last = after.len() - 1;
                            assert(after[last].name == name);
                            if found != last {
                                assert(after[found].name == after[last].name);
                            }
                            assert(seq![file] =~= Seq::<FileContentView>::empty().push(file));
                        } else {
                            match group_index(before, name) {
                                Some(old_at) => {
                                    let found = group_index(after, name)->0;
                                    assert(after[old_at].name == name);
                                    if found != old_at {
                                        assert(after[found].name == after[old_at].name);
                                    }
                                },
                                None => {
                                    if group_index(after, name) is Some {
                                        let found = group_index(after, name)->0;
                                        if found < before.len() {
                                            assert(before[found].name != name);
                                        }
                                    }
                                },
                            }
                        }
                    },
                }
            },
            Err(_) => {},
        }
    }
}

/// The reader of submission trees.
#[derive(Clone, Copy, Debug)]
pub struct FileProcessor;

impl Default for FileProcessor {
    fn default() -> Self {
        FileProcessor
    }
}

impl FileProcessor {
    /// A reader of submission trees.
    pub fn new() -> Self {
        FileProcessor
    }

    /// The submissions that the files of a walk make, one for each student
    /// that has a file, in the order in which the students were found.
    pub fn process_directory(&self, root_name: &str, scanned: &Vec<ScannedFile>) -> (r: Vec<
        StudentSubmission,
    >)
        ensures
            views_of(r@) == submissions_of(grouped(root_name@, views_of(scanned@))),
            forall|i: int| 0 <= i < r@.len() ==> (#[trigger] r@[i]).wf(),
    {
        let mut names: Vec<String> = Vec::new();
        let mut files: Vec<Vec<FileContent>> = Vec::new();
        let mut i: usize = 0;
        assert(views_of(scanned@).subrange(0, 0) =~= Seq::<ScannedFileView>::empty());
        while i < scanned.len()
            invariant
                i <= scanned@.len(),
                groups_view(names@, files@) == grouped(
                    root_name@,
                    views_of(scanned@).subrange(0, i as int),
                ),
                names@.len() == files@.len(),
            decreases scanned@.len() - i,
        {
            proof {
                let next = views_of(scanned@).subrange(0, i + 1);
                assert(next.drop_last() =~= views_of(scanned@).subrange(0, i as int));
                assert(next.last() == scanned@[i as int]@);
            }
            match self.read_file(&scanned[i]) {
                Ok(file) => {
                    let student = self.extract_student_name(file.filename.as_str(), root_name);
                    add_to_group(&mut names, &mut files, student, file);
                },
                Err(_) => {},
            }
            i = i + 1;
        }
        assert(views_of(scanned@).subrange(0, i as int) =~= views_of(scanned@));
        let ghost groups = groups_view(names@, files@);
        let mut submissions: Vec<StudentSubmission> = Vec::new();
        let mut k: usize = 0;
        while k < names.len()
            invariant
                k <= names@.len(),
                names@.len() == files@.len(),
                groups == groups_view(names@, files@),
                views_of(submissions@) == submissions_of(groups.subrange(0, k as int)),
                forall|j: int| 0 <= j < submissions@.len() ==> (#[trigger] submissions@[j]).wf(),
            decreases names@.len() - k,
        {
            let submission = StudentSubmission::new(names[k].clone(), copy_files(&files[k]));
            let ghost earlier = views_of(submissions@);
            submissions.push(submission);
            proof {
                assert(groups[k as int] == Group { name: names@[k as int]@, files: views_of(files@[k as int]@) });
                assert(views_of(submissions@) =~= earlier.push(submission_of(groups[k as int])));
                assert(submissions_of(groups.subrange(0, k + 1)) =~= submissions_of(
                    groups.subrange(0, k as int),
                ).push(submission_of(groups[k as int])));
            }
            k = k + 1;
        }
        assert(groups.subrange(0, k as int) =~= groups);
        submissions
    }

    /// The student of the file at the normalized path `file_path`: the first
    /// part of the path, or `root_name` where the path has one part only.
    pub fn extract_student_name(&self, file_path: &str, root_name: &str) -> (name: String)
        ensures
            name@ == student_of(file_path@, root_name@),
    {
        let path = chars_of(file_path);
        match find_char(&path, '/') {
            Some(at) => {
                let first = slice_of(&path, 0, at);
                assert(path@.subrange(0, at as int) =~= path@.take(at as int));
                string_of(&first)
            },
            None => String::from_str(root_name),
        }
    }

    /// What a scanned file contributes: its content under its normalized path
    /// and its type, where the type is supported and the text was taken out.
    pub fn read_file(&self, file: &ScannedFile) -> (r: Result<FileContent, IngestError>)
        ensures
            match r {
                Ok(content) => accepted(file@) == Ok::<FileContentView, IngestError>(content@),
                Err(e) => accepted(file@) == Err::<FileContentView, IngestError>(e),
            },
    {
        let path = normalize(file.path.as_str());
        let file_type = match extension(&path) {
            Some(extension) => string_of(&extension).as_str().to_lowercase(),
            None => {
                return Err(IngestError::UnsupportedFormat);
            },
        };
        if !SupportedFormats::is_supported(file_type.as_str()) {
            return Err(IngestError::UnsupportedFormat);
        }
        match &file.content {
            Some(content) => Ok(
                FileContent { filename: string_of(&path), content: content.clone(), file_type },
            ),
            None => Err(IngestError::ExtractionFailed),
        }
    }

    /// How the text of the file at `path` is to be taken out; `None` where the
    /// file is not of a supported type.
    pub fn extractor_for(&self, path: &str) -> (r: Option<Extractor>)
        ensures
            r == match file_type_of(path@) {
                Some(file_type) => extractor_of(file_type),
                None => None,
            },
    {
        let path = normalize(path);
        let file_type = match extension(&path) {
            Some(extension) => string_of(&extension).as_str().to_lowercase(),
            None => {
                return None;
            },
        };
        if !SupportedFormats::is_supported(file_type.as_str()) {
            None
        } else if same_text(file_type.as_str(), "pdf") {
            Some(Extractor::Pdf)
        } else if same_text(file_type.as_str(), "docx") || same_text(file_type.as_str(), "doc")
            || same_text(file_type.as_str(), "rtf") {
            Some(Extractor::Docx)
        } else {
            Some(Extractor::Text)
        }
    }
}

/// The groups that names and files form, pair by pair.
spec fn groups_view(names: Seq<String>, files: Seq<Vec<FileContent>>) -> Seq<Group> {
    Seq::new(names.len(), |i: int| Group { name: names[i]@, files: views_of(files[i]@) })
}

/// `path` with `/` in place of every `\`.
pub fn normalize(path: &str) -> (r: Vec<char>)
    ensures
        r@ == normalized(path@),
{
    let chars = chars_of(path);
    let mut r: Vec<char> = Vec::new();
    let mut i: usize = 0;
    while i < chars.len()
        invariant
            i <= chars@.len(),
            chars@ == path@,
            r@ == normalized(chars@.subrange(0, i as int)),
        decreases chars@.len() - i,
    {
        let c = chars[i];
        r.push(
            if c == '\\' {
                '/'
            } else {
                c
            },
        );
        i = i + 1;
        assert(r@ =~= normalized(chars@.subrange(0, i as int)));
    }
    assert(chars@.subrange(0, i as int) =~= chars@);
    r
}

/// The extension of a normalized path.
pub fn extension(path: &Vec<char>) -> (r: Option<Vec<char>>)
    ensures
        match r {
            Some(e) => extension_of(path@) == Some(e@),
            None => extension_of(path@) is None,
        },
{
    let name: Vec<char> = match rfind_char(path, '/') {
        Some(at) => {
            let len = path.len();
            let tail = slice_of(path, at + 1, len);
            assert(path@.subrange(at + 1, len as int) =~= path@.skip(at + 1));
            tail
        },
        None => {
            let len = path.len();
            let all = slice_of(path, 0, len);
            assert(path@.subrange(0, len as int) =~= path@);
            all
        },
    };
    assert(name@ == file_name_of(path@));
    match rfind_char(&name, '.') {
        Some(at) => if at > 0 {
            let len = name.len();
            let tail = slice_of(&name, at + 1, len);
            assert(name@.subrange(at + 1, len as int) =~= name@.skip(at + 1));
            Some(tail)
        } else {
            None
        },
        None => None,
    }
}

/// A copy of `files`.
pub fn copy_files(files: &Vec<FileContent>) -> (r: Vec<FileContent>)
    ensures
        views_of(r@) == views_of(files@),
{
    let mut r: Vec<FileContent> = Vec::new();
    let mut i: usize = 0;
    while i < files.len()
        invariant
            i <= files@.len(),
            views_of(r@) == views_of(files@.subrange(0, i as int)),
        decreases files@.len() - i,
    {
        let file = &files[i];
        let copy = FileContent {
            filename: file.filename.clone(),
            content: file.content.clone(),
            file_type: file.file_type.clone(),
        };
        let ghost earlier = views_of(r@);
        r.push(copy);
        i = i + 1;
        assert(views_of(r@) =~= earlier.push(file@));
        assert(views_of(files@.subrange(0, i as int)) =~= earlier.push(file@));
    }
    assert(files@.subrange(0, i as int) =~= files@);
    r
}

/// Adds `file` to the group of `student`, which is opened at the end where
/// there is none yet.
fn add_to_group(
    names: &mut Vec<String>,
    files: &mut Vec<Vec<FileContent>>,
    student: String,
    file: FileContent,
)
    requires
        old(names)@.len() == old(files)@.len(),
    ensures
        final(names)@.len() == final(files)@.len(),
        groups_view(final(names)@, final(files)@) == with_file(
            groups_view(old(names)@, old(files)@),
            student@,
            file@,
        ),
{
    let ghost groups = groups_view(names@, files@);
    let mut at: usize = names.len();
    assert(groups.subrange(0, at as int) =~= groups);
    while at > 0
        invariant
            at <= names@.len(),
            names@.len() == files@.len(),
            names@ == old(names)@,
            files@ == old(files)@,
            groups == groups_view(names@, files@),
            group_index(groups.subrange(0, at as int), student@) == group_index(groups, student@),
        decreases at,
    {
        proof {
            assert(groups.subrange(0, at as int).last().name == names@[at - 1]@);
            assert(groups.subrange(0, at as int).drop_last() =~= groups.subrange(0, at - 1));
        }
        if same_text(names[at - 1].as_str(), student.as_str()) {
            let mut group: Vec<FileContent> = Vec::new();
            let ghost earlier = views_of(files@[at - 1]@);
            std::mem::swap(&mut group, &mut files[at - 1]);
            group.push(file);
            assert(views_of(group@) =~= earlier.push(file@));
            files[at - 1] = group;
            assert(groups_view(names@, files@) =~= with_file(groups, student@, file@));
            return ;
        }
        at = at - 1;
    }
    let mut group: Vec<FileContent> = Vec::new();
    group.push(file);
    assert(views_of(group@) =~= seq![file@]);
    names.push(student);
    files.push(group);
    assert(groups_view(names@, files@) =~= with_file(groups, student@, file@));
}

} // verus!
