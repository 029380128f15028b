use paper_sage::text::chars_of;
use paper_sage::text::contains;
use paper_sage::text::find_char;
use paper_sage::text::matches_at;
use paper_sage::text::push_decimal;
use paper_sage::text::replace;
use paper_sage::text::rfind_char;
use paper_sage::text::same_text;
use paper_sage::text::slice_of;
use paper_sage::text::string_of;
use paper_sage::text::trim_end;

#[test]
fn characters_go_in_and_out() {
    let chars = chars_of("héllo ☃");
    assert_eq!(chars.len(), 7);
    assert_eq!(string_of(&chars), "héllo ☃");
    assert_eq!(string_of(&chars_of("")), "");
}

#[test]
fn replace_takes_matches_from_the_left_without_overlap() {
    let replaced = replace(&chars_of("aaaa"), &chars_of("aa"), &chars_of("b"));
    assert_eq!(string_of(&replaced), "bb");
    let replaced = replace(&chars_of("aaa"), &chars_of("aa"), &chars_of("b"));
    assert_eq!(string_of(&replaced), "ba");
    let replaced = replace(&chars_of("x{a}y{a}"), &chars_of("{a}"), &chars_of("{a}{a}"));
    assert_eq!(string_of(&replaced), "x{a}{a}y{a}{a}");
    let replaced = replace(&chars_of("abc"), &chars_of("abcd"), &chars_of("z"));
    assert_eq!(string_of(&replaced), "abc");
}

#[test]
fn replace_agrees_with_the_standard_library() {
    let texts = ["", "a", "abab", "{x}{x}", "say \"hi\"", "ab.xlsx.xlsx", "aXbXc"];
    let patterns = ["a", "ab", "{x}", "\"", ".xlsx", "X", "zz"];
    let withs = ["", "a", "\"\"", ".csv", "{x}{x}"];
    for text in texts {
        for pattern in patterns {
            for with in withs {
                let ours = string_of(&replace(&chars_of(text), &chars_of(pattern), &chars_of(with)));
                assert_eq!(ours, text.replace(pattern, with));
            }
        }
    }
}

#[test]
fn empty_pattern_matches_nothing() {
    let replaced = replace(&chars_of("abc"), &chars_of(""), &chars_of("z"));
    assert_eq!(string_of(&replaced), "abc");
}

#[test]
fn search_finds_the_first_and_the_last() {
    let text = chars_of("a{b{c}d}e");
    assert_eq!(find_char(&text, '{'), Some(1));
    assert_eq!(rfind_char(&text, '}'), Some(7));
    assert_eq!(find_char(&text, 'z'), None);
    assert_eq!(rfind_char(&text, 'z'), None);
    assert!(contains(&text, &chars_of("{c}")));
    assert!(contains(&text, &chars_of("")));
    assert!(!contains(&text, &chars_of("{d}")));
    assert!(matches_at(&text, &chars_of("d}e"), 6));
    assert!(!matches_at(&text, &chars_of("d}e"), 7));
    assert!(!matches_at(&text, &chars_of("e"), 100));
}

#[test]
fn slices_and_trimming() {
    let text = chars_of("http://host///");
    assert_eq!(string_of(&trim_end(&text, '/')), "http://host");
    assert_eq!(string_of(&trim_end(&chars_of("///"), '/')), "");
    assert_eq!(string_of(&trim_end(&chars_of("abc"), '/')), "abc");
    assert_eq!(string_of(&slice_of(&text, 7, 11)), "host");
}

#[test]
fn numbers_are_written_in_decimal() {
    let mut buffer = chars_of("n=");
    push_decimal(&mut buffer, 0);
    push_decimal(&mut buffer, 7);
    push_decimal(&mut buffer, 1203);
    push_decimal(&mut buffer, u64::MAX);
    assert_eq!(string_of(&buffer), "n=07120318446744073709551615");
}

#[test]
fn texts_are_compared_by_their_characters() {
    assert!(same_text("py", "py"));
    assert!(!same_text("py", "pyc"));
    assert!(!same_text("py", "pz"));
    assert!(same_text("", ""));
}
