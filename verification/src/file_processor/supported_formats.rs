//! The file formats that the grader reads.

use crate::models::views_of;
use crate::text::same_text;
use vstd::prelude::*;

verus! {

/// The extensions of source code.
pub open spec fn source_code_extensions() -> Seq<Seq<char>> {
    seq![
        "rs"@,
        "py"@,
        "java"@,
        "cpp"@,
        "c"@,
        "cs"@,
        "js"@,
        "ts"@,
        "php"@,
        "rb"@,
        "go"@,
        "swift"@,
        "kt"@,
    ]
}

/// The extensions of web technologies.
pub open spec fn web_extensions() -> Seq<Seq<char>> {
    seq!["html"@, "css"@, "jsx"@, "tsx"@, "vue"@, "svelte"@]
}

/// The extensions of plain text.
pub open spec fn text_extensions() -> Seq<Seq<char>> {
    seq!["txt"@, "md"@]
}

/// The extensions of configuration and structured documentation.
pub open spec fn configuration_extensions() -> Seq<Seq<char>> {
    seq!["json"@, "xml"@, "yaml"@, "yml"@, "toml"@, "ini"@, "cfg"@, "conf"@]
}

/// The extensions of documents.
pub open spec fn document_extensions() -> Seq<Seq<char>> {
    seq!["pdf"@, "docx"@, "doc"@, "rtf"@]
}

/// The extensions of data files and scripts.
pub open spec fn data_extensions() -> Seq<Seq<char>> {
    seq!["csv"@, "sql"@, "sh"@, "bat"@, "ps1"@]
}

/// Every supported extension, in lower case: source code, web technologies,
/// text, configuration, documents, data.
pub open spec fn supported_extensions() -> Seq<Seq<char>> {
    source_code_extensions() + web_extensions() + text_extensions() + configuration_extensions()
        + document_extensions() + data_extensions()
}

/// Whether `extension` is supported.
pub open spec fn is_supported_extension(extension: Seq<char>) -> bool {
    supported_extensions().contains(extension)
}

/// The supported extensions by category, each with its name.
pub open spec fn categories() -> Seq<(Seq<char>, Seq<Seq<char>>)> {
    seq![
        ("source_code"@, source_code_extensions()),
        ("text"@, text_extensions()),
        ("documents"@, document_extensions()),
        ("data_files"@, data_extensions()),
        ("web_technologies"@, web_extensions()),
        ("configuration_and_documentation"@, configuration_extensions()),
    ]
}

/// What a list of categories holds.
pub open spec fn categories_view(list: Seq<(&'static str, Vec<&'static str>)>) -> Seq<
    (Seq<char>, Seq<Seq<char>>),
> {
    list.map_values(|entry: (&'static str, Vec<&'static str>)| (entry.0@, views_of(entry.1@)))
}

/// An extension is supported exactly when a category holds it.
pub proof fn lemma_categories_cover_supported(extension: Seq<char>)
    ensures
        is_supported_extension(extension) <==> exists|i: int|
            0 <= i < categories().len() && (#[trigger] categories()[i]).1.contains(extension),
{
    let all = supported_extensions();
    let a = source_code_extensions();
    let b = web_extensions();
    let c = text_extensions();
    let d = configuration_extensions();
    let e = document_extensions();
    let f = data_extensions();
    if all.contains(extension) {
        let k = choose|k: int| 0 <= k < all.len() && all[k] == extension;
        if k < 13 {
            assert(a[k] == extension);
            assert(categories()[0].1.contains(extension));
        } else if k < 19 {
            assert(b[k - 13] == extension);
            assert(categories()[4].1.contains(extension));
        } else if k < 21 {
            assert(c[k - 19] == extension);
            assert(categories()[1].1.contains(extension));
        } else if k < 29 {
            assert(d[k - 21] == extension);
            assert(categories()[5].1.contains(extension));
        } else if k < 33 {
            assert(e[k - 29] == extension);
            assert(categories()[2].1.contains(extension));
        } else {
            assert(f[k - 33] == extension);
            assert(categories()[3].1.contains(extension));
        }
    }
    if exists|i: int|
        0 <= i < categories().len() && (#[trigger] categories()[i]).1.contains(extension) {
        let i = choose|i: int|
            0 <= i < categories().len() && (#[trigger] categories()[i]).1.contains(extension);
        let group = categories()[i].1;
        let k = choose|k: int| 0 <= k < group.len() && group[k] == extension;
        if i == 0 {
            assert(all[k] == extension);
        } else if i == 4 {
            assert(all[k + 13] == extension);
        } else if i == 1 {
            assert(all[k + 19] == extension);
        } else if i == 5 {
            assert(all[k + 21] == extension);
        } else if i == 2 {
            assert(all[k + 29] == extension);
        } else {
            assert(all[k + 33] == extension);
        }
    }
}

/// The formats that the grader reads, told by the extension of the file.
#[derive(Clone, Copy, Debug)]
pub struct SupportedFormats;

impl SupportedFormats {
    /// Whether files with the extension `extension`, given in lower case, are read.
    pub fn is_supported(extension: &str) -> (r: bool)
        ensures
            r == is_supported_extension(extension@),
    {
        let all = Self::get_all_supported();
        let mut i: usize = 0;
        while i < all.len()
            invariant
                i <= all@.len(),
                views_of(all@) == supported_extensions(),
                forall|j: int| 0 <= j < i ==> supported_extensions()[j] != extension@,
            decreases all@.len() - i,
        {
            assert(views_of(all@)[i as int] == all@[i as int]@);
            if same_text(all[i], extension) {
                return true;
            }
            i = i + 1;
        }
        false
    }

    /// Every supported extension.
    pub fn get_all_supported() -> (all: Vec<&'static str>)
        ensures
            views_of(all@) == supported_extensions(),
    {
        let all: Vec<&'static str> = vec![
            "rs",
            "py",
            "java",
            "cpp",
            "c",
            "cs",
            "js",
            "ts",
            "php",
            "rb",
            "go",
            "swift",
            "kt",
            "html",
            "css",
            "jsx",
            "tsx",
            "vue",
            "svelte",
            "txt",
            "md",
            "json",
            "xml",
            "yaml",
            "yml",
            "toml",
            "ini",
            "cfg",
            "conf",
            "pdf",
            "docx",
            "doc",
            "rtf",
            "csv",
            "sql",
            "sh",
            "bat",
            "ps1",
        ];
        assert(views_of(all@) =~= supported_extensions());
        all
    }

    /// The supported extensions by category, each with its name.
    pub fn extensions_by_category() -> (list: Vec<(&'static str, Vec<&'static str>)>)
        ensures
            categories_view(list@) == categories(),
    {
        let source_code: Vec<&'static str> = vec![
            "rs",
            "py",
            "java",
            "cpp",
            "c",
            "cs",
            "js",
            "ts",
            "php",
            "rb",
            "go",
            "swift",
            "kt",
        ];
        let text: Vec<&'static str> = vec!["txt", "md"];
        let documents: Vec<&'static str> = vec!["pdf", "docx", "doc", "rtf"];
        let data_files: Vec<&'static str> = vec!["csv", "sql", "sh", "bat", "ps1"];
        let web: Vec<&'static str> = vec!["html", "css", "jsx", "tsx", "vue", "svelte"];
        let configuration: Vec<&'static str> = vec![
            "json",
            "xml",
            "yaml",
            "yml",
            "toml",
            "ini",
            "cfg",
            "conf",
        ];
        assert(views_of(source_code@) =~= source_code_extensions());
        assert(views_of(text@) =~= text_extensions());
        assert(views_of(documents@) =~= document_extensions());
        assert(views_of(data_files@) =~= data_extensions());
        assert(views_of(web@) =~= web_extensions());
        assert(views_of(configuration@) =~= configuration_extensions());
        let list: Vec<(&'static str, Vec<&'static str>)> = vec![
            ("source_code", source_code),
            ("text", text),
            ("documents", documents),
            ("data_files", data_files),
            ("web_technologies", web),
            ("configuration_and_documentation", configuration),
        ];
        assert(categories_view(list@) =~= categories());
        list
    }
}

} // verus!
