use paper_sage::file_processor::docx_processor::read_docx_file;
use paper_sage::file_processor::docx_processor::DocumentChild;
use paper_sage::file_processor::docx_processor::ParagraphChild;
use paper_sage::file_processor::docx_processor::RunChild;

fn text(t: &str) -> RunChild {
    RunChild::Text(t.to_string())
}

#[test]
fn text_of_runs_in_paragraphs_is_joined_in_order() {
    let document = vec![
        DocumentChild::Paragraph(vec![
            ParagraphChild::Run(vec![text("Hello"), RunChild::Other, text(", ")]),
            ParagraphChild::Other,
            ParagraphChild::Run(vec![text("world")]),
        ]),
        DocumentChild::Other,
        DocumentChild::Paragraph(vec![ParagraphChild::Run(vec![text("!")])]),
    ];
    assert_eq!(read_docx_file(&document), "Hello, world!");
}

#[test]
fn document_without_text_gives_none() {
    assert_eq!(read_docx_file(&Vec::new()), "");
    let document = vec![
        DocumentChild::Other,
        DocumentChild::Paragraph(Vec::new()),
        DocumentChild::Paragraph(vec![ParagraphChild::Other, ParagraphChild::Run(vec![RunChild::Other])]),
    ];
    assert_eq!(read_docx_file(&document), "");
}
