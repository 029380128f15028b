//! Reading the model's reply.
//!
//! The reply is free text that holds a JSON object somewhere. The object is
//! taken from the first `{` to the last `}`, its five fields are read, and the
//! total is computed anew from the part scores.

use crate::decimal::decimal_thousandths;
use crate::decimal::parse_thousandths;
use crate::models::weighted_total_of;
use crate::models::GradingResponse;
use crate::models::GradingResponseView;
use crate::models::GradingResult;
use crate::models::GradingResultView;
use crate::models::GradingStrategy;
use crate::text::chars_of;
use crate::text::find_char;
use crate::text::first_index_of;
use crate::text::last_index_of;
use crate::text::lemma_first_index;
use crate::text::lemma_last_index;
use crate::text::rfind_char;
use crate::text::same_chars;
use crate::text::slice_of;
use crate::text::string_of;
use vstd::prelude::*;

verus! {

/// A field of the reply.
#[derive(Clone, Copy, Debug, PartialEq, Eq, Structural)]
pub enum ReplyField {
    Filename,
    Correctness,
    Style,
    EdgeCases,
    Comment,
}

/// Why a reply could not be read.
#[derive(Clone, Copy, Debug, PartialEq, Eq, Structural)]
pub enum ParseError {
    /// The reply holds no `{` followed by a `}`.
    NoJson,
    /// What stands between the braces is no JSON object.
    InvalidJson,
    /// The object lacks a field.
    MissingField { field: ReplyField },
    /// A field holds a value of the wrong kind, or a number that is no score.
    InvalidField { field: ReplyField },
}

/// The value of a member of a JSON object, as far as the grader reads it: a
/// number by its text, a string by its content, anything else by its kind.
#[derive(Debug)]
pub enum JsonItem {
    Null,
    Bool(bool),
    Number(String),
    Text(String),
    Array,
    Object,
}

/// What a `JsonItem` holds.
pub enum JsonItemView {
    Null,
    Bool(bool),
    Number(Seq<char>),
    Text(Seq<char>),
    Array,
    Object,
}

impl View for JsonItem {
    type V = JsonItemView;

    open spec fn view(&self) -> JsonItemView {
        match self {
            JsonItem::Null => JsonItemView::Null,
            JsonItem::Bool(b) => JsonItemView::Bool(*b),
            JsonItem::Number(n) => JsonItemView::Number(n@),
            JsonItem::Text(t) => JsonItemView::Text(t@),
            JsonItem::Array => JsonItemView::Array,
            JsonItem::Object => JsonItemView::Object,
        }
    }
}

/// A member of a JSON object.
#[derive(Debug)]
pub struct JsonMember {
    pub name: String,
    pub item: JsonItem,
}

/// What a `JsonMember` holds.
pub struct JsonMemberView {
    pub name: Seq<char>,
    pub item: JsonItemView,
}

impl View for JsonMember {
    type V = JsonMemberView;

    open spec fn view(&self) -> JsonMemberView {
        JsonMemberView { name: self.name@, item: self.item@ }
    }
}

/// The members of the JSON object that `text` is, as `serde_json` reads it;
/// `None` when `text` is no JSON, or JSON of another kind.
pub uninterp spec fn json_object_members(text: Seq<char>) -> Option<Seq<JsonMemberView>>;

/// The members of a document, viewed.
pub open spec fn members_view(members: Option<Vec<JsonMember>>) -> Option<Seq<JsonMemberView>> {
    match members {
        Some(m) => Some(crate::models::views_of(m@)),
        None => None,
    }
}

/// Reads `text` with `serde_json::from_str` into a `serde_json::Value`. Where
/// that gives an object, its members are handed back in the order of the
/// object's map, each number as the text that `to_string` gives for the
/// `serde_json::Number`. The result depends on `text` alone.
#[verifier::external_body]
fn read_json_object(text: &str) -> (r: Option<Vec<JsonMember>>)
    ensures
        members_view(r) == json_object_members(text@),
{
    match serde_json::from_str::<serde_json::Value>(text) {
        Ok(serde_json::Value::Object(map)) => Some(map.into_iter().map(|(name, value)| JsonMember {
            name,
            item: match value {
                serde_json::Value::Null => JsonItem::Null,
                serde_json::Value::Bool(b) => JsonItem::Bool(b),
                serde_json::Value::Number(n) => JsonItem::Number(n.to_string()),
                serde_json::Value::String(s) => JsonItem::Text(s),
                serde_json::Value::Array(_) => JsonItem::Array,
                serde_json::Value::Object(_) => JsonItem::Object,
            },
        }).collect()),
        _ => None,
    }
}

/// The text of the JSON object of a reply: what stands from the first `{` to
/// the last `}`, braces included. There is none where a brace is missing, or
/// where the last `}` stands before the first `{`.
pub open spec fn json_text_of(reply: Seq<char>) -> Option<Seq<char>> {
    match (first_index_of(reply, '{'), last_index_of(reply, '}')) {
        (Some(start), Some(end)) => if start < end {
            Some(reply.subrange(start, end + 1))
        } else {
            None
        },
        _ => None,
    }
}

/// An object that stands in a reply between commentary is what is taken from
/// the reply: when no `{` comes before it and no `}` after it, the JSON text
/// of the reply is the object itself.
pub proof fn lemma_embedded_object_is_found(
    before: Seq<char>,
    object: Seq<char>,
    after: Seq<char>,
)
    requires
        object.len() >= 2,
        object.first() == '{',
        object.last() == '}',
        !before.contains('{'),
        !after.contains('}'),
    ensures
        json_text_of(before + object + after) == Some(object),
{
    let text = before + object + after;
    let start = before.len() as int;
    let end = before.len() + object.len() - 1;
    assert(text[start] == object[0]);
    assert(text[end] == object[object.len() - 1]);
    assert forall|j: int| 0 <= j < start implies text[j] != '{' by {
        assert(text[j] == before[j]);
    }
    assert forall|j: int| end < j < text.len() implies text[j] != '}' by {
        assert(text[j] == after[j - before.len() - object.len()]);
    }
    lemma_first_index(text, '{', start);
    lemma_last_index(text, '}', end);
    assert(text.subrange(start, end + 1) =~= object);
}

/// The first member of `members` that is called `name`.
pub open spec fn member_named(members: Seq<JsonMemberView>, name: Seq<char>) -> Option<
    JsonItemView,
>
    decreases members.len(),
{
    if members.len() == 0 {
        None
    } else if members[0].name == name {
        Some(members[0].item)
    } else {
        member_named(members.skip(1), name)
    }
}

/// The name of a field in the reply.
pub open spec fn field_name(field: ReplyField) -> Seq<char> {
    match field {
        ReplyField::Filename => "filename"@,
        ReplyField::Correctness => "correctness"@,
        ReplyField::Style => "style"@,
        ReplyField::EdgeCases => "edge_cases"@,
        ReplyField::Comment => "comment"@,
    }
}

/// The string that the reply gives for `field`.
pub open spec fn text_field_of(members: Seq<JsonMemberView>, field: ReplyField) -> Result<
    Seq<char>,
    ParseError,
> {
    match member_named(members, field_name(field)) {
        None => Err(ParseError::MissingField { field }),
        Some(JsonItemView::Text(t)) => Ok(t),
        Some(_) => Err(ParseError::InvalidField { field }),
    }
}

/// The score that the reply gives for `field`, in thousandths.
pub open spec fn score_field_of(members: Seq<JsonMemberView>, field: ReplyField) -> Result<
    int,
    ParseError,
> {
    match member_named(members, field_name(field)) {
        None => Err(ParseError::MissingField { field }),
        Some(JsonItemView::Number(n)) => match decimal_thousandths(n) {
            Some(v) => Ok(v),
            None => Err(ParseError::InvalidField { field }),
        },
        Some(_) => Err(ParseError::InvalidField { field }),
    }
}

/// The five fields of the reply. The first field that is missing or wrong, in
/// the order file name, correctness, style, edge cases, comment, decides the
/// error. Other members, a total among them, are passed over.
pub open spec fn response_of(members: Seq<JsonMemberView>) -> Result<
    GradingResponseView,
    ParseError,
> {
    match text_field_of(members, ReplyField::Filename) {
        Err(e) => Err(e),
        Ok(filename) => match score_field_of(members, ReplyField::Correctness) {
            Err(e) => Err(e),
            Ok(correctness) => match score_field_of(members, ReplyField::Style) {
                Err(e) => Err(e),
                Ok(style) => match score_field_of(members, ReplyField::EdgeCases) {
                    Err(e) => Err(e),
                    Ok(edge_cases) => match text_field_of(members, ReplyField::Comment) {
                        Err(e) => Err(e),
                        Ok(comment) => Ok(
                            GradingResponseView { filename, correctness, style, edge_cases, comment },
                        ),
                    },
                },
            },
        },
    }
}

/// The result that a reply's fields give under `strategy`: the fields as they
/// are, and the total computed from the part scores.
pub open spec fn scored(response: GradingResponseView, strategy: GradingStrategy) -> GradingResultView {
    GradingResultView {
        filename: response.filename,
        correctness: response.correctness,
        style: response.style,
        edge_cases: response.edge_cases,
        total: weighted_total_of(
            response.correctness,
            response.style,
            response.edge_cases,
            strategy,
        ),
        comment: response.comment,
    }
}

/// What the members of a reply's object give under `strategy`.
pub open spec fn reply_outcome(
    members: Option<Seq<JsonMemberView>>,
    strategy: GradingStrategy,
) -> Result<GradingResultView, ParseError> {
    match members {
        None => Err(ParseError::InvalidJson),
        Some(m) => match response_of(m) {
            Err(e) => Err(e),
            Ok(response) => Ok(scored(response, strategy)),
        },
    }
}

/// What a reply gives under `strategy`.
pub open spec fn parse_outcome(reply: Seq<char>, strategy: GradingStrategy) -> Result<
    GradingResultView,
    ParseError,
> {
    match json_text_of(reply) {
        Some(json_text) => reply_outcome(json_object_members(json_text), strategy),
        None => Err(ParseError::NoJson),
    }
}

/// What a result of parsing holds.
pub open spec fn outcome_view(r: Result<GradingResult, ParseError>) -> Result<
    GradingResultView,
    ParseError,
> {
    match r {
        Ok(result) => Ok(result@),
        Err(e) => Err(e),
    }
}

/// The text of the JSON object of a reply, from its first `{` to its last `}`.
pub fn extract_json_text(reply: &str) -> (r: Option<String>)
    ensures
        match r {
            Some(json) => json_text_of(reply@) == Some(json@),
            None => json_text_of(reply@) is None,
        },
{
    let chars = chars_of(reply);
    let start = match find_char(&chars, '{') {
        Some(start) => start,
        None => {
            return None;
        },
    };
    let end = match rfind_char(&chars, '}') {
        Some(end) => end,
        None => {
            return None;
        },
    };
    if start >= end {
        return None;
    }
    let mut json = slice_of(&chars, start, end);
    json.push('}');
    assert(json@ =~= reply@.subrange(start as int, end + 1));
    Some(string_of(&json))
}

/// The first member of `members` that is called `name`.
pub fn find_member<'a>(members: &'a Vec<JsonMember>, name: &str) -> (r: Option<&'a JsonItem>)
    ensures
        match r {
            Some(item) => member_named(crate::models::views_of(members@), name@) == Some(item@),
            None => member_named(crate::models::views_of(members@), name@) is None,
        },
{
    let wanted = chars_of(name);
    let ghost all = crate::models::views_of(members@);
    let mut i: usize = 0;
    assert(all.skip(0) =~= all);
    while i < members.len()
        invariant
            i <= members@.len(),
            wanted@ == name@,
            all == crate::models::views_of(members@),
            member_named(all.skip(i as int), name@) == member_named(all, name@),
        decreases members@.len() - i,
    {
        let candidate = chars_of(members[i].name.as_str());
        proof {
            assert(all.skip(i as int)[0] == members@[i as int]@);
            assert(all.skip(i as int).skip(1) =~= all.skip(i + 1));
        }
        if same_chars(&candidate, &wanted) {
            return Some(&members[i].item);
        }
        i = i + 1;
    }
    assert(all.skip(i as int).len() == 0);
    None
}

/// The name of a field in the reply.
pub fn name_of(field: ReplyField) -> (name: &'static str)
    ensures
        name@ == field_name(field),
{
    match field {
        ReplyField::Filename => "filename",
        ReplyField::Correctness => "correctness",
        ReplyField::Style => "style",
        ReplyField::EdgeCases => "edge_cases",
        ReplyField::Comment => "comment",
    }
}

/// The string that the reply gives for `field`.
pub fn text_field(members: &Vec<JsonMember>, field: ReplyField) -> (r: Result<String, ParseError>)
    ensures
        match r {
            Ok(t) => text_field_of(crate::models::views_of(members@), field) == Ok::<
                Seq<char>,
                ParseError,
            >(t@),
            Err(e) => text_field_of(crate::models::views_of(members@), field) == Err::<
                Seq<char>,
                ParseError,
            >(e),
        },
{
    match find_member(members, name_of(field)) {
        None => Err(ParseError::MissingField { field }),
        Some(JsonItem::Text(t)) => Ok(t.clone()),
        Some(_) => Err(ParseError::InvalidField { field }),
    }
}

/// The score that the reply gives for `field`, in thousandths.
pub fn score_field(members: &Vec<JsonMember>, field: ReplyField) -> (r: Result<i64, ParseError>)
    ensures
        match r {
            Ok(v) => score_field_of(crate::models::views_of(members@), field) == Ok::<
                int,
                ParseError,
            >(v as int),
            Err(e) => score_field_of(crate::models::views_of(members@), field) == Err::<
                int,
                ParseError,
            >(e),
        },
{
    match find_member(members, name_of(field)) {
        None => Err(ParseError::MissingField { field }),
        Some(JsonItem::Number(n)) => {
            let digits = chars_of(n.as_str());
            match parse_thousandths(&digits) {
                Some(v) => Ok(v),
                None => Err(ParseError::InvalidField { field }),
            }
        },
        Some(_) => Err(ParseError::InvalidField { field }),
    }
}

/// The five fields of the reply.
pub fn read_response(members: &Vec<JsonMember>) -> (r: Result<GradingResponse, ParseError>)
    ensures
        match r {
            Ok(response) => response_of(crate::models::views_of(members@)) == Ok::<
                GradingResponseView,
                ParseError,
            >(response@),
            Err(e) => response_of(crate::models::views_of(members@)) == Err::<
                GradingResponseView,
                ParseError,
            >(e),
        },
{
    let filename = match text_field(members, ReplyField::Filename) {
        Ok(v) => v,
        Err(e) => {
            return Err(e);
        },
    };
    let correctness = match score_field(members, ReplyField::Correctness) {
        Ok(v) => v,
        Err(e) => {
            return Err(e);
        },
    };
    let style = match score_field(members, ReplyField::Style) {
        Ok(v) => v,
        Err(e) => {
            return Err(e);
        },
    };
    let edge_cases = match score_field(members, ReplyField::EdgeCases) {
        Ok(v) => v,
        Err(e) => {
            return Err(e);
        },
    };
    let comment = match text_field(members, ReplyField::Comment) {
        Ok(v) => v,
        Err(e) => {
            return Err(e);
        },
    };
    Ok(GradingResponse { filename, correctness, style, edge_cases, comment })
}

/// The result that a reply's fields give under `strategy`.
pub fn score_response(response: GradingResponse, strategy: &GradingStrategy) -> (r: GradingResult)
    ensures
        r@ == scored(response@, *strategy),
{
    let total = strategy.total(response.correctness, response.style, response.edge_cases);
    GradingResult {
        filename: response.filename,
        correctness: response.correctness,
        style: response.style,
        edge_cases: response.edge_cases,
        total,
        comment: response.comment,
    }
}

/// What the members of a reply's object give under `strategy`.
pub fn interpret_reply(members: Option<Vec<JsonMember>>, strategy: &GradingStrategy) -> (r: Result<
    GradingResult,
    ParseError,
>)
    ensures
        outcome_view(r) == reply_outcome(members_view(members), *strategy),
{
    match members {
        None => Err(ParseError::InvalidJson),
        Some(m) => match read_response(&m) {
            Err(e) => Err(e),
            Ok(response) => Ok(score_response(response, strategy)),
        },
    }
}

/// Reads a model's reply: takes the JSON object from the first `{` to the
/// last `}`, reads its fields, and computes the total under `strategy`. The
/// file name is the one that the reply gives, not `_filename`.
pub fn parse_grading_response(response: &str, _filename: &str, strategy: &GradingStrategy) -> (r:
    Result<GradingResult, ParseError>)
    ensures
        outcome_view(r) == parse_outcome(response@, *strategy),
{
    let json_text = match extract_json_text(response) {
        Some(json_text) => json_text,
        None => {
            return Err(ParseError::NoJson);
        },
    };
    let members = read_json_object(json_text.as_str());
    interpret_reply(members, strategy)
}

} // verus!
