//! The text of a word-processor document.

use vstd::prelude::*;

verus! {

/// A child of a run: text, or something else.
#[derive(Debug)]
pub enum RunChild {
    Text(String),
    Other,
}

/// A child of a paragraph: a run, or something else.
#[derive(Debug)]
pub enum ParagraphChild {
    Run(Vec<RunChild>),
    Other,
}

/// A child of a document: a paragraph, or something else.
#[derive(Debug)]
pub enum DocumentChild {
    Paragraph(Vec<ParagraphChild>),
    Other,
}

/// The text of a run: the texts among its children, one after the other.
pub open spec fn run_text(children: Seq<RunChild>) -> Seq<char>
    decreases children.len(),
{
    if children.len() == 0 {
        Seq::empty()
    } else {
        run_text(children.drop_last()) + match children.last() {
            RunChild::Text(text) => text@,
            RunChild::Other => Seq::empty(),
        }
    }
}

/// The text of a paragraph: the texts of the runs among its children.
pub open spec fn paragraph_text(children: Seq<ParagraphChild>) -> Seq<char>
    decreases children.len(),
{
    if children.len() == 0 {
        Seq::empty()
    } else {
        paragraph_text(children.drop_last()) + match children.last() {
            ParagraphChild::Run(run) => run_text(run@),
            ParagraphChild::Other => Seq::empty(),
        }
    }
}

/// The text of a document: the texts of the paragraphs among its children.
pub open spec fn document_text(children: Seq<DocumentChild>) -> Seq<char>
    decreases children.len(),
{
    if children.len() == 0 {
        Seq::empty()
    } else {
        document_text(children.drop_last()) + match children.last() {
            DocumentChild::Paragraph(paragraph) => paragraph_text(paragraph@),
            DocumentChild::Other => Seq::empty(),
        }
    }
}

/// Appends the text of a run to `text`.
fn append_run(text: &mut String, children: &Vec<RunChild>)
    ensures
        final(text)@ == old(text)@ + run_text(children@),
{
    let mut i: usize = 0;
    assert(children@.subrange(0, 0) =~= Seq::<RunChild>::empty());
    assert(text@ + Seq::<char>::empty() =~= text@);
    while i < children.len()
        invariant
            i <= children@.len(),
            text@ == old(text)@ + run_text(children@.subrange(0, i as int)),
        decreases children@.len() - i,
    {
        match &children[i] {
            RunChild::Text(t) => {
                text.append(t.as_str());
            },
            RunChild::Other => {},
        }
        proof {
            let next = children@.subrange(0, i + 1);
            assert(next.drop_last() =~= children@.subrange(0, i as int));
            assert(next.last() == children@[i as int]);
            assert(text@ =~= old(text)@ + run_text(next));
        }
        i = i + 1;
    }
    assert(children@.subrange(0, i as int) =~= children@);
}

/// Appends the text of a paragraph to `text`.
fn append_paragraph(text: &mut String, children: &Vec<ParagraphChild>)
    ensures
        final(text)@ == old(text)@ + paragraph_text(children@),
{
    let mut i: usize = 0;
    assert(children@.subrange(0, 0) =~= Seq::<ParagraphChild>::empty());
    assert(text@ + Seq::<char>::empty() =~= text@);
    while i < children.len()
        invariant
            i <= children@.len(),
            text@ == old(text)@ + paragraph_text(children@.subrange(0, i as int)),
        decreases children@.len() - i,
    {
        match &children[i] {
            ParagraphChild::Run(run) => {
                append_run(text, run);
            },
            ParagraphChild::Other => {},
        }
        proof {
            let next = children@.subrange(0, i + 1);
            assert(next.drop_last() =~= children@.subrange(0, i as int));
            assert(next.last() == children@[i as int]);
            assert(text@ =~= old(text)@ + paragraph_text(next));
        }
        i = i + 1;
    }
    assert(children@.subrange(0, i as int) =~= children@);
}

/// The text of a document: the text of every run of every paragraph, in the
/// order of the document. What is no text gives none.
pub fn read_docx_file(document: &Vec<DocumentChild>) -> (text: String)
    ensures
        text@ == document_text(document@),
{
    let mut text = String::new();
    let mut i: usize = 0;
    assert(document@.subrange(0, 0) =~= Seq::<DocumentChild>::empty());
    while i < document.len()
        invariant
            i <= document@.len(),
            text@ == document_text(document@.subrange(0, i as int)),
        decreases document@.len() - i,
    {
        match &document[i] {
            DocumentChild::Paragraph(paragraph) => {
                append_paragraph(&mut text, paragraph);
            },
            DocumentChild::Other => {},
        }
        proof {
            let next = document@.subrange(0, i + 1);
            assert(next.drop_last() =~= document@.subrange(0, i as int));
            assert(next.last() == document@[i as int]);
            assert(text@ =~= document_text(next));
        }
        i = i + 1;
    }
    assert(document@.subrange(0, i as int) =~= document@);
    text
}

} // verus!
