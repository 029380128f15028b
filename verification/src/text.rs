//! Character sequences: the string operations the grader is built from.
//!
//! Text is modelled as `Seq<char>`, the view of `str` and `String`. The
//! executable functions work on `Vec<char>`; `chars_of` and `string_of` lead
//! into and out of that form.

use vstd::prelude::*;
use vstd::std_specs::iter::IteratorSpec;

verus! {

/// `String::push` appends one character to the end of the string.
pub assume_specification[ String::push ](s: &mut String, ch: char)
    ensures
        final(s)@ == old(s)@.push(ch),
;

/// The characters of `s`, in order.
pub fn chars_of(s: &str) -> (v: Vec<char>)
    ensures
        v@ == s@,
{
    let mut v: Vec<char> = Vec::new();
    let mut it = s.chars();
    loop
        invariant
            it.obeys_prophetic_iter_laws(),
            v@ + it.remaining() == s@,
            it.decrease() is Some,
        decreases it.decrease()->0,
    {
        match it.next() {
            Some(c) => {
                proof {
                    assert(v@.push(c) + it.remaining() =~= s@);
                }
                v.push(c);
            },
            None => {
                assert(v@ =~= s@);
                return v;
            },
        }
    }
}

/// The string that holds the characters of `v`, in order.
pub fn string_of(v: &Vec<char>) -> (s: String)
    ensures
        s@ == v@,
{
    let mut s = String::new();
    let mut i: usize = 0;
    while i < v.len()
        invariant
            i <= v@.len(),
            s@ == v@.subrange(0, i as int),
        decreases v@.len() - i,
    {
        s.push(v[i]);
        i = i + 1;
        assert(s@ =~= v@.subrange(0, i as int));
    }
    assert(v@.subrange(0, i as int) =~= v@);
    s
}

/// Whether `pattern` stands in `text` at position `at`.
pub open spec fn occurs_at(text: Seq<char>, pattern: Seq<char>, at: int) -> bool {
    &&& 0 <= at
    &&& at + pattern.len() <= text.len()
    &&& text.subrange(at, at + pattern.len()) == pattern
}

/// Whether `pattern` stands somewhere in `text`.
pub open spec fn contains_text(text: Seq<char>, pattern: Seq<char>) -> bool {
    exists|at: int| occurs_at(text, pattern, at)
}

/// Whether `ch` is the first occurrence of itself in `text` at position `at`.
pub open spec fn is_first_index_of(text: Seq<char>, ch: char, at: int) -> bool {
    &&& 0 <= at < text.len()
    &&& text[at] == ch
    &&& forall|j: int| 0 <= j < at ==> text[j] != ch
}

/// Whether `ch` is the last occurrence of itself in `text` at position `at`.
pub open spec fn is_last_index_of(text: Seq<char>, ch: char, at: int) -> bool {
    &&& 0 <= at < text.len()
    &&& text[at] == ch
    &&& forall|j: int| at < j < text.len() ==> text[j] != ch
}

/// The position of the first `ch` in `text`, if there is one.
pub open spec fn first_index_of(text: Seq<char>, ch: char) -> Option<int> {
    if text.contains(ch) {
        Some(choose|at: int| is_first_index_of(text, ch, at))
    } else {
        None
    }
}

/// The position of the last `ch` in `text`, if there is one.
pub open spec fn last_index_of(text: Seq<char>, ch: char) -> Option<int> {
    if text.contains(ch) {
        Some(choose|at: int| is_last_index_of(text, ch, at))
    } else {
        None
    }
}

/// The first occurrence of a character is at one place only.
pub proof fn lemma_first_index(text: Seq<char>, ch: char, at: int)
    requires
        is_first_index_of(text, ch, at),
    ensures
        first_index_of(text, ch) == Some(at),
{
    assert(text.contains(ch));
    let other = choose|other: int| is_first_index_of(text, ch, other);
    if other < at {
        assert(text[other] != ch);
    } else if at < other {
        assert(text[at] != ch);
    }
}

/// The last occurrence of a character is at one place only.
pub proof fn lemma_last_index(text: Seq<char>, ch: char, at: int)
    requires
        is_last_index_of(text, ch, at),
    ensures
        last_index_of(text, ch) == Some(at),
{
    assert(text.contains(ch));
    let other = choose|other: int| is_last_index_of(text, ch, other);
    if other < at {
        assert(text[at] != ch);
    } else if at < other {
        assert(text[other] != ch);
    }
}

/// `text` with every occurrence of `pattern` replaced by `with`, taken from
/// the left and without overlap. An empty pattern occurs nowhere.
pub open spec fn replace_all(text: Seq<char>, pattern: Seq<char>, with: Seq<char>) -> Seq<char>
    decreases text.len(),
{
    if pattern.len() == 0 || text.len() < pattern.len() {
        text
    } else if text.subrange(0, pattern.len() as int) == pattern {
        with + replace_all(text.skip(pattern.len() as int), pattern, with)
    } else {
        seq![text[0]] + replace_all(text.skip(1), pattern, with)
    }
}

/// `text` without the occurrences of `ch` at its end.
pub open spec fn trim_end_of(text: Seq<char>, ch: char) -> Seq<char>
    decreases text.len(),
{
    if text.len() > 0 && text.last() == ch {
        trim_end_of(text.drop_last(), ch)
    } else {
        text
    }
}

/// The character of the decimal digit `d`.
pub open spec fn digit_char(d: nat) -> char
    recommends
        d < 10,
{
    (48 + d) as char
}

/// `n` written in decimal digits, without leading zeros.
pub open spec fn decimal_of(n: nat) -> Seq<char>
    decreases n,
{
    if n < 10 {
        seq![digit_char(n)]
    } else {
        decimal_of(n / 10).push(digit_char(n % 10))
    }
}

/// Whether `a` and `b` hold the same characters.
pub fn same_chars(a: &Vec<char>, b: &Vec<char>) -> (r: bool)
    ensures
        r == (a@ == b@),
{
    if a.len() != b.len() {
        return false;
    }
    let mut i: usize = 0;
    while i < a.len()
        invariant
            i <= a@.len(),
            a@.len() == b@.len(),
            forall|j: int| 0 <= j < i ==> a@[j] == b@[j],
        decreases a@.len() - i,
    {
        if a[i] != b[i] {
            return false;
        }
        i = i + 1;
    }
    assert(a@ =~= b@);
    true
}

/// Whether `a` and `b` hold the same text.
pub fn same_text(a: &str, b: &str) -> (r: bool)
    ensures
        r == (a@ == b@),
{
    let left = chars_of(a);
    let right = chars_of(b);
    same_chars(&left, &right)
}

/// Whether `pattern` stands in `text` at position `at`.
pub fn matches_at(text: &Vec<char>, pattern: &Vec<char>, at: usize) -> (r: bool)
    ensures
        r == occurs_at(text@, pattern@, at as int),
{
    if at > text.len() || pattern.len() > text.len() - at {
        return false;
    }
    let mut k: usize = 0;
    while k < pattern.len()
        invariant
            k <= pattern@.len(),
            at + pattern@.len() <= text@.len() <= usize::MAX,
            forall|j: int| 0 <= j < k ==> text@[at + j] == pattern@[j],
        decreases pattern@.len() - k,
    {
        if text[at + k] != pattern[k] {
            assert(text@.subrange(at as int, at + pattern@.len())[k as int] != pattern@[k as int]);
            return false;
        }
        k = k + 1;
    }
    assert(text@.subrange(at as int, at + pattern@.len()) =~= pattern@);
    true
}

/// Whether `pattern` stands somewhere in `text`.
pub fn contains(text: &Vec<char>, pattern: &Vec<char>) -> (r: bool)
    ensures
        r == contains_text(text@, pattern@),
{
    let mut at: usize = 0;
    loop
        invariant
            at <= text@.len(),
            forall|j: int| 0 <= j < at ==> !occurs_at(text@, pattern@, j),
        decreases text@.len() - at,
    {
        if matches_at(text, pattern, at) {
            return true;
        }
        if at == text.len() {
            return false;
        }
        at = at + 1;
    }
}

/// The position of the first `ch` in `text`.
pub fn find_char(text: &Vec<char>, ch: char) -> (r: Option<usize>)
    ensures
        match r {
            Some(at) => is_first_index_of(text@, ch, at as int) && first_index_of(text@, ch)
                == Some(at as int),
            None => !text@.contains(ch) && first_index_of(text@, ch) is None,
        },
{
    let mut i: usize = 0;
    while i < text.len()
        invariant
            i <= text@.len(),
            forall|j: int| 0 <= j < i ==> text@[j] != ch,
        decreases text@.len() - i,
    {
        if text[i] == ch {
            proof {
                lemma_first_index(text@, ch, i as int);
            }
            return Some(i);
        }
        i = i + 1;
    }
    None
}

/// The position of the last `ch` in `text`.
pub fn rfind_char(text: &Vec<char>, ch: char) -> (r: Option<usize>)
    ensures
        match r {
            Some(at) => is_last_index_of(text@, ch, at as int) && last_index_of(text@, ch) == Some(
                at as int,
            ),
            None => !text@.contains(ch) && last_index_of(text@, ch) is None,
        },
{
    let mut i: usize = text.len();
    while i > 0
        invariant
            i <= text@.len(),
            forall|j: int| i <= j < text@.len() ==> text@[j] != ch,
        decreases i,
    {
        i = i - 1;
        if text[i] == ch {
            proof {
                lemma_last_index(text@, ch, i as int);
            }
            return Some(i);
        }
    }
    None
}

/// The characters of `text` from `from` up to, but without, `to`.
pub fn slice_of(text: &Vec<char>, from: usize, to: usize) -> (r: Vec<char>)
    requires
        from <= to <= text@.len(),
    ensures
        r@ == text@.subrange(from as int, to as int),
{
    let mut r: Vec<char> = Vec::new();
    let mut i: usize = from;
    while i < to
        invariant
            from <= i <= to <= text@.len(),
            r@ == text@.subrange(from as int, i as int),
        decreases to - i,
    {
        r.push(text[i]);
        i = i + 1;
        assert(r@ =~= text@.subrange(from as int, i as int));
    }
    r
}

/// Appends the characters of `more` to `buffer`.
pub fn extend_chars(buffer: &mut Vec<char>, more: &Vec<char>)
    ensures
        final(buffer)@ == old(buffer)@ + more@,
{
    let mut i: usize = 0;
    while i < more.len()
        invariant
            i <= more@.len(),
            buffer@ == old(buffer)@ + more@.subrange(0, i as int),
        decreases more@.len() - i,
    {
        buffer.push(more[i]);
        i = i + 1;
        assert(buffer@ =~= old(buffer)@ + more@.subrange(0, i as int));
    }
    assert(more@.subrange(0, i as int) =~= more@);
}

/// `text` with every occurrence of `pattern` replaced by `with`.
pub fn replace(text: &Vec<char>, pattern: &Vec<char>, with: &Vec<char>) -> (r: Vec<char>)
    ensures
        r@ == replace_all(text@, pattern@, with@),
{
    let mut r: Vec<char> = Vec::new();
    let mut i: usize = 0;
    if pattern.len() == 0 {
        extend_chars(&mut r, text);
        assert(r@ =~= text@);
        return r;
    }
    assert(text@.skip(0) =~= text@);
    assert(r@ + replace_all(text@, pattern@, with@) =~= replace_all(text@, pattern@, with@));
    while i < text.len()
        invariant
            i <= text@.len(),
            pattern@.len() > 0,
            r@ + replace_all(text@.skip(i as int), pattern@, with@) == replace_all(
                text@,
                pattern@,
                with@,
            ),
        decreases text@.len() - i,
    {
        let ghost rest = text@.skip(i as int);
        let ghost before = r@;
        if matches_at(text, pattern, i) {
            extend_chars(&mut r, with);
            proof {
                assert(rest.subrange(0, pattern@.len() as int) =~= text@.subrange(
                    i as int,
                    i + pattern@.len(),
                ));
                assert(rest.skip(pattern@.len() as int) =~= text@.skip(i + pattern@.len()));
                assert(before + (with@ + replace_all(
                    text@.skip(i + pattern@.len()),
                    pattern@,
                    with@,
                )) =~= r@ + replace_all(text@.skip(i + pattern@.len()), pattern@, with@));
            }
            i = i + pattern.len();
        } else {
            r.push(text[i]);
            proof {
                if rest.len() >= pattern@.len() {
                    assert(rest.subrange(0, pattern@.len() as int) =~= text@.subrange(
                        i as int,
                        i + pattern@.len(),
                    ));
                    assert(rest.skip(1) =~= text@.skip(i + 1));
                    assert(before + (seq![rest[0]] + replace_all(
                        text@.skip(i + 1),
                        pattern@,
                        with@,
                    )) =~= r@ + replace_all(text@.skip(i + 1), pattern@, with@));
                } else {
                    lemma_replace_short(rest, pattern@, with@);
                    lemma_replace_short(text@.skip(i + 1), pattern@, with@);
                    assert(before + rest =~= r@ + text@.skip(i + 1));
                }
            }
            i = i + 1;
        }
    }
    assert(text@.skip(i as int) =~= Seq::<char>::empty());
    assert(r@ + Seq::<char>::empty() =~= r@);
    r
}

/// A text shorter than the pattern is left as it is.
pub proof fn lemma_replace_short(text: Seq<char>, pattern: Seq<char>, with: Seq<char>)
    requires
        text.len() < pattern.len(),
    ensures
        replace_all(text, pattern, with) == text,
{
}

/// `text` without the occurrences of `ch` at its end.
pub fn trim_end(text: &Vec<char>, ch: char) -> (r: Vec<char>)
    ensures
        r@ == trim_end_of(text@, ch),
{
    let mut end: usize = text.len();
    assert(text@.subrange(0, end as int) =~= text@);
    while end > 0 && text[end - 1] == ch
        invariant
            end <= text@.len(),
            trim_end_of(text@.subrange(0, end as int), ch) == trim_end_of(text@, ch),
        decreases end,
    {
        assert(text@.subrange(0, end as int).drop_last() =~= text@.subrange(0, end - 1));
        end = end - 1;
    }
    slice_of(text, 0, end)
}

/// Appends `n`, written in decimal digits, to `buffer`.
pub fn push_decimal(buffer: &mut Vec<char>, n: u64)
    ensures
        final(buffer)@ == old(buffer)@ + decimal_of(n as nat),
    decreases n,
{
    if n >= 10 {
        push_decimal(buffer, n / 10);
    }
    let d: u8 = (n % 10) as u8;
    let c: char = (48u8 + d) as char;
    buffer.push(c);
    proof {
        assert(c == digit_char((n % 10) as nat));
        if n < 10 {
            assert(buffer@ =~= old(buffer)@ + decimal_of(n as nat));
        } else {
            assert(buffer@ =~= old(buffer)@ + decimal_of(n as nat));
        }
    }
}

} // verus!
