use paper_sage::grader::response_parser::extract_json_text;
use paper_sage::grader::response_parser::interpret_reply;
use paper_sage::grader::response_parser::parse_grading_response;
use paper_sage::grader::response_parser::JsonItem;
use paper_sage::grader::response_parser::JsonMember;
use paper_sage::grader::response_parser::ParseError;
use paper_sage::grader::response_parser::ReplyField;
use paper_sage::models::GradingStrategy;

#[test]
fn reply_with_commentary_is_parsed_and_total_recomputed() {
    let reply = "Sure! {\"filename\":\"a\",\"correctness\":90,\"style\":80,\"edge_cases\":70,\"total\":999,\"comment\":\"ok\"} thanks";
    let result = parse_grading_response(reply, "ignored", &GradingStrategy::default()).unwrap();
    assert_eq!(result.filename, "a");
    assert_eq!(result.correctness, 90_000);
    assert_eq!(result.style, 80_000);
    assert_eq!(result.edge_cases, 70_000);
    assert_eq!(result.total, 83_000);
    assert_eq!(result.comment, "ok");
}

#[test]
fn reply_without_braces_has_no_json() {
    let strategy = GradingStrategy::default();
    assert_eq!(parse_grading_response("no json here", "f", &strategy).unwrap_err(), ParseError::NoJson);
    assert_eq!(parse_grading_response("only { open", "f", &strategy).unwrap_err(), ParseError::NoJson);
    assert_eq!(parse_grading_response("only } close", "f", &strategy).unwrap_err(), ParseError::NoJson);
    assert_eq!(parse_grading_response("} reversed {", "f", &strategy).unwrap_err(), ParseError::NoJson);
}

#[test]
fn reply_with_fractional_scores() {
    let reply = "{\"filename\":\"b/\",\"correctness\":87.5,\"style\":1e1,\"edge_cases\":0.0004,\"comment\":\"\"}";
    let result = parse_grading_response(reply, "b/", &GradingStrategy::default()).unwrap();
    assert_eq!(result.correctness, 87_500);
    assert_eq!(result.style, 10_000);
    assert_eq!(result.edge_cases, 0);
    assert_eq!(result.total, 46_750);
}

#[test]
fn reply_missing_a_field_is_refused() {
    let reply = "{\"filename\":\"a\",\"correctness\":90,\"edge_cases\":70,\"comment\":\"ok\"}";
    assert_eq!(
        parse_grading_response(reply, "a", &GradingStrategy::default()).unwrap_err(),
        ParseError::MissingField { field: ReplyField::Style }
    );
}

#[test]
fn json_text_runs_from_the_first_opening_to_the_last_closing_brace() {
    assert_eq!(extract_json_text("a {b} c {d} e"), Some("{b} c {d}".to_string()));
    assert_eq!(extract_json_text("{}"), Some("{}".to_string()));
    assert_eq!(extract_json_text("x{"), None);
    assert_eq!(extract_json_text("}{"), None);
    assert_eq!(extract_json_text(""), None);
    assert_eq!(extract_json_text("é{\"k\":\"ü\"}é"), Some("{\"k\":\"ü\"}".to_string()));
}

#[test]
fn braces_that_hold_no_json_are_refused() {
    let strategy = GradingStrategy::default();
    for reply in ["{not json}", "{\"filename\":\"a\"} and {\"again\":1}", "{[1,2]}", "{\"a\":}"] {
        assert_eq!(parse_grading_response(reply, "f", &strategy).unwrap_err(), ParseError::InvalidJson);
    }
}

#[test]
fn fields_of_the_wrong_kind_are_refused() {
    let strategy = GradingStrategy::default();
    let cases = [
        ("{\"filename\":1,\"correctness\":9,\"style\":8,\"edge_cases\":7,\"comment\":\"c\"}", ReplyField::Filename),
        ("{\"filename\":\"a\",\"correctness\":\"9\",\"style\":8,\"edge_cases\":7,\"comment\":\"c\"}", ReplyField::Correctness),
        ("{\"filename\":\"a\",\"correctness\":9,\"style\":null,\"edge_cases\":7,\"comment\":\"c\"}", ReplyField::Style),
        ("{\"filename\":\"a\",\"correctness\":9,\"style\":8,\"edge_cases\":[7],\"comment\":\"c\"}", ReplyField::EdgeCases),
        ("{\"filename\":\"a\",\"correctness\":9,\"style\":8,\"edge_cases\":7,\"comment\":{\"c\":true}}", ReplyField::Comment),
        ("{\"filename\":\"a\",\"correctness\":1e300,\"style\":8,\"edge_cases\":7,\"comment\":\"c\"}", ReplyField::Correctness),
    ];
    for (reply, field) in cases {
        assert_eq!(
            parse_grading_response(reply, "f", &strategy).unwrap_err(),
            ParseError::InvalidField { field }
        );
    }
}

#[test]
fn each_missing_field_is_named() {
    let strategy = GradingStrategy::default();
    let fields = [
        ("filename", "\"a\"", ReplyField::Filename),
        ("correctness", "9", ReplyField::Correctness),
        ("style", "8", ReplyField::Style),
        ("edge_cases", "7", ReplyField::EdgeCases),
        ("comment", "\"c\"", ReplyField::Comment),
    ];
    for (left_out, _, field) in fields {
        let members: Vec<String> = fields
            .iter()
            .filter(|(name, _, _)| *name != left_out)
            .map(|(name, value, _)| format!("\"{}\":{}", name, value))
            .collect();
        let reply = format!("{{{}}}", members.join(","));
        assert_eq!(
            parse_grading_response(&reply, "f", &strategy).unwrap_err(),
            ParseError::MissingField { field }
        );
    }
}

#[test]
fn file_name_of_the_reply_is_kept_and_the_total_of_the_reply_is_not() {
    let strategy = GradingStrategy { correctness_weight: 0, style_weight: 0, edge_cases_weight: 1000 };
    let reply = "{\"total\":\"n/a\",\"extra\":[1,2],\"filename\":\"other.py\",\"correctness\":-5,\"style\":250,\"edge_cases\":12.3456,\"comment\":\"c {braces}\"}";
    let result = parse_grading_response(reply, "alice/", &strategy).unwrap();
    assert_eq!(result.filename, "other.py");
    assert_eq!(result.correctness, -5_000);
    assert_eq!(result.style, 250_000);
    assert_eq!(result.edge_cases, 12_346);
    assert_eq!(result.total, 12_346);
    assert_eq!(result.comment, "c {braces}");
}

#[test]
fn members_are_read_by_name() {
    let strategy = GradingStrategy::default();
    let member = |name: &str, item: JsonItem| JsonMember { name: name.to_string(), item };
    let members = vec![
        member("comment", JsonItem::Text("ok".to_string())),
        member("style", JsonItem::Number("80".to_string())),
        member("style", JsonItem::Number("1".to_string())),
        member("correctness", JsonItem::Number("90.0".to_string())),
        member("filename", JsonItem::Text("a".to_string())),
        member("edge_cases", JsonItem::Number("7e1".to_string())),
        member("total", JsonItem::Null),
    ];
    let result = interpret_reply(Some(members), &strategy).unwrap();
    assert_eq!(result.style, 80_000);
    assert_eq!(result.total, 83_000);
    assert_eq!(interpret_reply(None, &strategy).unwrap_err(), ParseError::InvalidJson);
    assert_eq!(
        interpret_reply(Some(Vec::new()), &strategy).unwrap_err(),
        ParseError::MissingField { field: ReplyField::Filename }
    );
    let bad = vec![
        member("filename", JsonItem::Text("a".to_string())),
        member("correctness", JsonItem::Bool(true)),
    ];
    assert_eq!(
        interpret_reply(Some(bad), &strategy).unwrap_err(),
        ParseError::InvalidField { field: ReplyField::Correctness }
    );
}
