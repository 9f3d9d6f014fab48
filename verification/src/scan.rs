//! Scanning a text for the elements of a tagged document.

use vstd::prelude::*;
use vstd::string::*;
use vstd::std_specs::iter::IteratorSpec;

verus! {

/// Whether `pattern` stands in `text` at position `at`.
pub open spec fn occurs_at(text: Seq<char>, pattern: Seq<char>, at: int) -> bool {
    0 <= at && at + pattern.len() <= text.len() && text.subrange(at, at + pattern.len())
        == pattern
}

/// The first position at or after `from` at which `pattern` stands in `text`.
pub open spec fn first_from(text: Seq<char>, pattern: Seq<char>, from: int) -> Option<int>
    decreases text.len() - from,
{
    if from < 0 || from + pattern.len() > text.len() {
        None
    } else if occurs_at(text, pattern, from) {
        Some(from)
    } else if from < text.len() {
        first_from(text, pattern, from + 1)
    } else {
        None
    }
}

/// Where an element lies in a text.
pub enum Element {
    /// The text has no opening tag.
    Absent,
    /// The opening tag is not followed by a closing tag.
    Unterminated,
    /// The content lies from `start` to `end`; the element ends before
    /// `after`.
    Found { start: int, end: int, after: int },
}

/// The first element of `text` at or after `from` that opens with `open`: it
/// closes with the first `close` behind its opening tag.
pub open spec fn element_from(text: Seq<char>, open: Seq<char>, close: Seq<char>, from: int)
    -> Element {
    match first_from(text, open, from) {
        None => Element::Absent,
        Some(opening) => match first_from(text, close, opening + open.len()) {
            None => Element::Unterminated,
            Some(closing) => Element::Found {
                start: opening + open.len(),
                end: closing,
                after: closing + close.len(),
            },
        },
    }
}

/// Where an element lies in a text, by positions of the machine.
#[derive(Debug, Clone, Copy, PartialEq, Eq, Structural)]
pub enum Span {
    /// The text has no opening tag.
    Absent,
    /// The opening tag is not followed by a closing tag.
    Unterminated,
    /// The content lies from `start` to `end`; the element ends before
    /// `after`.
    Found { start: usize, end: usize, after: usize },
}

impl View for Span {
    type V = Element;

    open spec fn view(&self) -> Element {
        match self {
            Span::Absent => Element::Absent,
            Span::Unterminated => Element::Unterminated,
            Span::Found { start, end, after } => Element::Found {
                start: *start as int,
                end: *end as int,
                after: *after as int,
            },
        }
    }
}

/// A first occurrence lies at or after the start of the search and within
/// the text.
pub proof fn lemma_first_from_bounds(text: Seq<char>, pattern: Seq<char>, from: int)
    ensures
        first_from(text, pattern, from) matches Some(at) ==> from <= at && occurs_at(
            text,
            pattern,
            at,
        ),
    decreases text.len() - from,
{
    if from < 0 || from + pattern.len() > text.len() {
    } else if occurs_at(text, pattern, from) {
    } else if from < text.len() {
        lemma_first_from_bounds(text, pattern, from + 1);
    }
}

/// An element that is found lies within the text, behind the start of the
/// search, and its end lies behind its content.
pub proof fn lemma_element_bounds(
    text: Seq<char>,
    open: Seq<char>,
    close: Seq<char>,
    from: int,
)
    ensures
        element_from(text, open, close, from) matches Element::Found { start, end, after } ==> from
            + open.len() <= start <= end <= after <= text.len() && after == end + close.len(),
{
    lemma_first_from_bounds(text, open, from);
    if let Some(opening) = first_from(text, open, from) {
        lemma_first_from_bounds(text, close, opening + open.len());
    }
}

/// The characters of `text`.
pub fn chars_of(text: &str) -> (chars: Vec<char>)
    ensures
        chars@ == text@,
{
    broadcast use vstd::string::group_string_axioms;

    let mut it = text.chars();
    let mut chars: Vec<char> = Vec::new();
    assert(chars@ + it.remaining() =~= text@);
    loop
        invariant
            it.obeys_prophetic_iter_laws(),
            it.decrease() is Some,
            chars@ + it.remaining() == text@,
        decreases it.decrease()->0,
    {
        match it.next() {
            Some(c) => {
                chars.push(c);
                assert(chars@ + it.remaining() =~= text@);
            },
            None => {
                assert(chars@ =~= text@);
                return chars;
            },
        }
    }
}

/// Tells whether `pattern` stands in `text` at position `at`.
pub fn matches_at(text: &Vec<char>, pattern: &Vec<char>, at: usize) -> (yes: bool)
    ensures
        yes == occurs_at(text@, pattern@, at as int),
{
    if pattern.len() > text.len() || at > text.len() - pattern.len() {
        return false;
    }
    let mut k: usize = 0;
    while k < pattern.len()
        invariant
            k <= pattern.len(),
            at + pattern.len() <= text.len(),
            forall|j: int| 0 <= j < k ==> text@[at + j] == pattern@[j],
        decreases pattern.len() - k,
    {
        if text[at + k] != pattern[k] {
            assert(text@.subrange(at as int, at + pattern@.len())[k as int] != pattern@[k as int]);
            return false;
        }
        k += 1;
    }
    assert(text@.subrange(at as int, at + pattern@.len()) =~= pattern@);
    true
}

/// Finds the first position at or after `from` at which `pattern` stands in
/// `text`.
pub fn find(text: &Vec<char>, pattern: &Vec<char>, from: usize) -> (place: Option<usize>)
    ensures
        match place {
            Some(at) => first_from(text@, pattern@, from as int) == Some(at as int),
            None => first_from(text@, pattern@, from as int) is None,
        },
{
    if pattern.len() > text.len() {
        return None;
    }
    let last: usize = text.len() - pattern.len();
    let mut at: usize = from;
    while at <= last
        invariant
            last == text.len() - pattern.len(),
            from <= at,
            first_from(text@, pattern@, from as int) == first_from(text@, pattern@, at as int),
        decreases last + 1 - at,
    {
        if matches_at(text, pattern, at) {
            return Some(at);
        }
        if at == last {
            assert(first_from(text@, pattern@, at + 1) is None);
            return None;
        }
        at += 1;
    }
    None
}

/// Finds the first element of `text` at or after `from` that opens with
/// `open` and closes with `close`.
pub fn element(text: &Vec<char>, open: &Vec<char>, close: &Vec<char>, from: usize) -> (span: Span)
    ensures
        span@ == element_from(text@, open@, close@, from as int),
{
    let size: usize = text.len();
    proof {
        lemma_first_from_bounds(text@, open@, from as int);
    }
    match find(text, open, from) {
        None => Span::Absent,
        Some(opening) => {
            let start: usize = opening + open.len();
            proof {
                lemma_first_from_bounds(text@, close@, start as int);
            }
            match find(text, close, start) {
                None => Span::Unterminated,
                Some(closing) => Span::Found {
                    start,
                    end: closing,
                    after: closing + close.len(),
                },
            }
        },
    }
}

/// Whether `c` is a decimal digit.
pub open spec fn is_digit(c: char) -> bool {
    '0' <= c && c <= '9'
}

/// The number that the decimal digits `digits` denote.
pub open spec fn digits_value(digits: Seq<char>) -> nat
    decreases digits.len(),
{
    if digits.len() == 0 {
        0
    } else {
        digits_value(digits.drop_last()) * 10 + (digits.last() as nat - '0' as nat) as nat
    }
}

/// The number that `digits` denotes: they are decimal digits, at least one,
/// and the number fits in 64 bits.
pub open spec fn number_of(digits: Seq<char>) -> Option<u64> {
    if digits.len() > 0 && (forall|i: int| 0 <= i < digits.len() ==> is_digit(#[trigger] digits[i]))
        && digits_value(digits) <= u64::MAX {
        Some(digits_value(digits) as u64)
    } else {
        None
    }
}

/// The number of a prefix does not exceed the number of the whole.
pub proof fn lemma_prefix_value(digits: Seq<char>, count: int)
    requires
        0 <= count <= digits.len(),
        forall|i: int| 0 <= i < digits.len() ==> is_digit(#[trigger] digits[i]),
    ensures
        digits_value(digits.take(count)) <= digits_value(digits),
    decreases digits.len(),
{
    if count == digits.len() {
        assert(digits.take(count) =~= digits);
    } else {
        let shorter = digits.drop_last();
        assert(shorter.take(count) =~= digits.take(count));
        lemma_prefix_value(shorter, count);
        assert(is_digit(digits.last()));
    }
}

/// Reads the number that `digits` denotes.
pub fn number(digits: &Vec<char>) -> (value: Option<u64>)
    ensures
        value == number_of(digits@),
{
    if digits.len() == 0 {
        return None;
    }
    let mut value: u64 = 0;
    let mut i: usize = 0;
    assert(digits@.take(0) =~= Seq::<char>::empty());
    while i < digits.len()
        invariant
            i <= digits.len(),
            digits.len() > 0,
            forall|j: int| 0 <= j < i ==> is_digit(#[trigger] digits@[j]),
            value == digits_value(digits@.take(i as int)),
        decreases digits.len() - i,
    {
        let c: char = digits[i];
        if c < '0' || c > '9' {
            return None;
        }
        let digit: u64 = (c as u32 - '0' as u32) as u64;
        proof {
            let upto = digits@.take(i + 1);
            assert(upto.drop_last() =~= digits@.take(i as int));
            assert(upto.last() == c);
            assert(digits_value(upto) == value * 10 + digit);
            if value * 10 + digit > u64::MAX {
                if forall|j: int| 0 <= j < digits@.len() ==> is_digit(#[trigger] digits@[j]) {
                    lemma_prefix_value(digits@, i + 1);
                }
            }
        }
        if value > (u64::MAX - digit) / 10 {
            return None;
        }
        value = value * 10 + digit;
        i += 1;
    }
    assert(digits@.take(i as int) =~= digits@);
    Some(value)
}

/// Looking for a pattern at the start of the rest of a text is looking for
/// it at the place where the rest begins.
pub proof fn lemma_occurs_in_rest(text: Seq<char>, pattern: Seq<char>, at: int)
    requires
        0 <= at <= text.len(),
    ensures
        occurs_at(text.skip(at), pattern, 0) == occurs_at(text, pattern, at),
{
    if at + pattern.len() <= text.len() {
        assert(text.skip(at).subrange(0, pattern.len() as int) =~= text.subrange(
            at,
            at + pattern.len(),
        ));
    }
}

/// `text` with each of the five character references of the document
/// format replaced by the character that it stands for.
pub open spec fn unescaped(text: Seq<char>) -> Seq<char>
    decreases text.len(),
{
    if text.len() == 0 {
        text
    } else if occurs_at(text, seq!['&', 'l', 't', ';'], 0) {
        seq!['<'] + unescaped(text.skip(4))
    } else if occurs_at(text, seq!['&', 'g', 't', ';'], 0) {
        seq!['>'] + unescaped(text.skip(4))
    } else if occurs_at(text, seq!['&', 'a', 'm', 'p', ';'], 0) {
        seq!['&'] + unescaped(text.skip(5))
    } else if occurs_at(text, seq!['&', 'q', 'u', 'o', 't', ';'], 0) {
        seq!['"'] + unescaped(text.skip(6))
    } else if occurs_at(text, seq!['&', 'a', 'p', 'o', 's', ';'], 0) {
        seq!['\''] + unescaped(text.skip(6))
    } else {
        seq![text[0]] + unescaped(text.skip(1))
    }
}

/// Replaces the character references in `text` by their characters.
pub fn unescape(text: &str) -> (plain: String)
    ensures
        plain@ == unescaped(text@),
{
    let chars = chars_of(text);
    let lt = chars_of("&lt;");
    let gt = chars_of("&gt;");
    let amp = chars_of("&amp;");
    let quot = chars_of("&quot;");
    let apos = chars_of("&apos;");
    proof {
        reveal_strlit("&lt;");
        reveal_strlit("&gt;");
        reveal_strlit("&amp;");
        reveal_strlit("&quot;");
        reveal_strlit("&apos;");
        reveal_strlit("<");
        reveal_strlit(">");
        reveal_strlit("&");
        reveal_strlit("\"");
        reveal_strlit("'");
        assert(lt@ =~= seq!['&', 'l', 't', ';']);
        assert(gt@ =~= seq!['&', 'g', 't', ';']);
        assert(amp@ =~= seq!['&', 'a', 'm', 'p', ';']);
        assert(quot@ =~= seq!['&', 'q', 'u', 'o', 't', ';']);
        assert(apos@ =~= seq!['&', 'a', 'p', 'o', 's', ';']);
    }
    let mut plain = String::new();
    let mut i: usize = 0;
    assert(text@.skip(0) =~= text@);
    assert(plain@ + unescaped(text@) =~= unescaped(text@));
    while i < chars.len()
        invariant
            i <= chars.len(),
            chars@ == text@,
            lt@ == seq!['&', 'l', 't', ';'],
            gt@ == seq!['&', 'g', 't', ';'],
            amp@ == seq!['&', 'a', 'm', 'p', ';'],
            quot@ == seq!['&', 'q', 'u', 'o', 't', ';'],
            apos@ == seq!['&', 'a', 'p', 'o', 's', ';'],
            "<"@ == seq!['<'],
            ">"@ == seq!['>'],
            "&"@ == seq!['&'],
            "\""@ == seq!['"'],
            "'"@ == seq!['\''],
            unescaped(text@) == plain@ + unescaped(text@.skip(i as int)),
        decreases chars.len() - i,
    {
        let ghost rest = text@.skip(i as int);
        let ghost before = plain@;
        proof {
            lemma_occurs_in_rest(text@, lt@, i as int);
            lemma_occurs_in_rest(text@, gt@, i as int);
            lemma_occurs_in_rest(text@, amp@, i as int);
            lemma_occurs_in_rest(text@, quot@, i as int);
            lemma_occurs_in_rest(text@, apos@, i as int);
            assert(rest.len() > 0);
            assert(rest[0] == text@[i as int]);
        }
        let step: usize = if matches_at(&chars, &lt, i) {
            plain.append("<");
            4
        } else if matches_at(&chars, &gt, i) {
            plain.append(">");
            4
        } else if matches_at(&chars, &amp, i) {
            plain.append("&");
            5
        } else if matches_at(&chars, &quot, i) {
            plain.append("\"");
            6
        } else if matches_at(&chars, &apos, i) {
            plain.append("'");
            6
        } else {
            let one = text.substring_char(i, i + 1);
            assert(one@ =~= seq![text@[i as int]]);
            plain.append(one);
            1
        };
        proof {
            assert(rest.skip(step as int) =~= text@.skip(i + step));
            let first = plain@.subrange(before.len() as int, plain@.len() as int);
            assert(plain@ =~= before + first);
            assert(unescaped(rest) == first + unescaped(rest.skip(step as int)));
            assert(before + (first + unescaped(rest.skip(step as int))) =~= plain@ + unescaped(
                text@.skip(i + step),
            ));
        }
        i += step;
    }
    assert(text@.skip(i as int) =~= Seq::<char>::empty());
    assert(plain@ + Seq::<char>::empty() =~= plain@);
    plain
}

} // verus!
