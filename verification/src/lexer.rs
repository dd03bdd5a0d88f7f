use crate::symbol::same_text;
use vstd::prelude::*;
use vstd::string::StrSliceExecFns;
use vstd::string::StringSliceAdditionalSpecFns;

verus! {

/// The kind of a token.
#[derive(Clone, Copy, Debug, PartialEq, Eq, Structural)]
pub enum Token {
    BinaryOperator,
    Keyword,
    Name,
    Number,
    OtherOperator,
}

/// Whether a character has the Unicode property `Alphabetic`: what
/// `char::is_alphabetic` gives.
pub uninterp spec fn alphabetic(c: char) -> bool;

/// Whether a character is alphabetic or numeric: what
/// `char::is_alphanumeric` gives.
pub uninterp spec fn alphanumeric(c: char) -> bool;

/// Whether a character has the Unicode property `White_Space`: what
/// `char::is_whitespace` gives.
pub uninterp spec fn whitespace(c: char) -> bool;

/// `char::is_alphabetic`.
#[verifier::external_body]
pub(crate) fn is_alphabetic(c: char) -> (r: bool)
    ensures
        r == alphabetic(c),
{
    c.is_alphabetic()
}

/// `char::is_alphanumeric`.
#[verifier::external_body]
pub(crate) fn is_alphanumeric(c: char) -> (r: bool)
    ensures
        r == alphanumeric(c),
{
    c.is_alphanumeric()
}

/// `char::is_whitespace`.
#[verifier::external_body]
pub(crate) fn is_whitespace(c: char) -> (r: bool)
    ensures
        r == whitespace(c),
{
    c.is_whitespace()
}

/// `String::push`: appends a character to the end of a text.
#[verifier::external_body]
pub(crate) fn push_char(text: &mut String, c: char)
    ensures
        final(text)@ == old(text)@.push(c),
{
    text.push(c)
}

/// A decimal digit.
pub open spec fn digit(c: char) -> bool {
    48 <= c as u32 <= 57
}

/// A character that a binary operation is written with.
pub open spec fn binary_operator(c: char) -> bool {
    c == '+' || c == '-' || c == '*' || c == '/'
}

/// A bracket, a brace or a comma.
pub open spec fn other_operator(c: char) -> bool {
    c == '(' || c == ')' || c == '{' || c == '}' || c == ','
}

/// A character that stands for itself as a token: a bracket, a brace, a
/// comma, a binary operator or the sign of an assignment.
pub open spec fn operator(c: char) -> bool {
    other_operator(c) || binary_operator(c) || c == '='
}

/// Whether a character is a decimal digit.
pub fn is_digit(c: char) -> (r: bool)
    ensures
        r == digit(c),
{
    let code = c as u32;
    48 <= code && code <= 57
}

/// Whether a character is written for a binary operation.
pub fn is_binary_operator(c: char) -> (r: bool)
    ensures
        r == binary_operator(c),
{
    c == '+' || c == '-' || c == '*' || c == '/'
}

/// Whether a character is a bracket, a brace or a comma.
pub fn is_other_operator(c: char) -> (r: bool)
    ensures
        r == other_operator(c),
{
    c == '(' || c == ')' || c == '{' || c == '}' || c == ','
}

/// Whether a character stands for itself as a token.
pub fn is_operator(c: char) -> (r: bool)
    ensures
        r == operator(c),
{
    is_other_operator(c) || is_binary_operator(c) || c == '='
}

/// The first place at or after `from` that holds no whitespace; the end of
/// the line if there is none, and `from` itself beyond the end.
pub open spec fn skip_space(line: Seq<char>, from: int) -> int
    decreases line.len() - from,
{
    if 0 <= from < line.len() && whitespace(line[from]) {
        skip_space(line, from + 1)
    } else {
        from
    }
}

/// What a word takes from the characters at `at` and after it, and where
/// it ends: alphabetic and numeric characters are taken, other characters
/// are passed over, and the word ends at the first operator, which is not
/// taken, at the first whitespace, or at the last character of the line.
pub open spec fn word_rest(line: Seq<char>, at: int) -> (Seq<char>, int)
    decreases line.len() - at,
{
    if at < 0 || at >= line.len() {
        (Seq::empty(), line.len() - 1)
    } else if operator(line[at]) {
        (Seq::empty(), at)
    } else {
        let taken = if alphanumeric(line[at]) {
            seq![line[at]]
        } else {
            Seq::empty()
        };
        if whitespace(line[at]) {
            (taken, at)
        } else {
            (taken + word_rest(line, at + 1).0, word_rest(line, at + 1).1)
        }
    }
}

/// The word that starts at `start`, and where it ends.
pub open spec fn word(line: Seq<char>, start: int) -> (Seq<char>, int) {
    let first = if alphabetic(line[start]) {
        seq![line[start]]
    } else {
        Seq::empty()
    };
    if whitespace(line[start]) {
        (first, start)
    } else {
        (first + word_rest(line, start + 1).0, word_rest(line, start + 1).1)
    }
}

/// What a number takes from the characters at `at` and after it, and the
/// place of the whitespace that ends it, if there is one: digits and dots
/// are taken, other characters are passed over.
pub open spec fn number_rest(line: Seq<char>, at: int) -> (Seq<char>, Option<int>)
    decreases line.len() - at,
{
    if at < 0 || at >= line.len() {
        (Seq::empty(), None)
    } else {
        let taken = if digit(line[at]) || line[at] == '.' {
            seq![line[at]]
        } else {
            Seq::empty()
        };
        if whitespace(line[at]) {
            (taken, Some(at))
        } else {
            (taken + number_rest(line, at + 1).0, number_rest(line, at + 1).1)
        }
    }
}

/// The number that starts at `start`, and where it ends: at the whitespace
/// that follows it, or, where none follows, at its own start.
pub open spec fn number(line: Seq<char>, start: int) -> (Seq<char>, int) {
    (
        seq![line[start]] + number_rest(line, start + 1).0,
        match number_rest(line, start + 1).1 {
            Some(end) => end,
            None => start,
        },
    )
}

/// The token that is read from `start` on, and the place from which the
/// next one is read. Whitespace is passed over; a word starts with an
/// alphabetic character and a number with a digit; an operator is a token
/// of its own; any other character gives no token.
pub open spec fn token_at(line: Seq<char>, start: int) -> (Seq<char>, int) {
    let at = skip_space(line, start);
    let found = if 0 <= at < line.len() {
        line[at]
    } else {
        ' '
    };
    if alphabetic(found) {
        if 0 <= at < line.len() {
            word(line, at)
        } else {
            (Seq::empty(), at)
        }
    } else if digit(found) {
        number(line, at)
    } else if operator(found) {
        (seq![found], at + 1)
    } else {
        (Seq::empty(), at + 1)
    }
}

/// How far `from` is from `bound`, if it is before it.
pub open spec fn left(bound: int, from: int) -> int {
    if from < bound {
        bound - from
    } else {
        0
    }
}

/// Whether reading tokens from `from` on comes to an end: each token that
/// is read before the place `bound` is reached ends behind its start.
pub open spec fn lexes(line: Seq<char>, bound: int, from: int) -> bool
    decreases left(bound, from),
{
    if from >= bound {
        true
    } else if token_at(line, from).1 <= from {
        false
    } else {
        lexes(line, bound, token_at(line, from).1)
    }
}

/// The tokens that are read from `from` on, until the place `bound` is
/// reached: the tokens that are not empty, in order.
pub open spec fn tokens_from(line: Seq<char>, bound: int, from: int) -> Seq<Seq<char>>
    decreases left(bound, from),
{
    if from >= bound || token_at(line, from).1 <= from {
        Seq::empty()
    } else {
        let token = token_at(line, from).0;
        let found = if token.len() > 0 {
            seq![token]
        } else {
            Seq::empty()
        };
        found + tokens_from(line, bound, token_at(line, from).1)
    }
}

/// The length of a text in bytes, as it is held in memory.
pub open spec fn byte_length(text: Seq<char>) -> usize {
    vstd::utf8::encode_utf8(text).len() as usize
}

/// The characters of each text of a list.
pub open spec fn texts(list: Seq<String>) -> Seq<Seq<char>> {
    Seq::new(list.len(), |i: int| list[i]@)
}

/// An empty text.
fn no_text() -> (text: String)
    ensures
        text@ == Seq::<char>::empty(),
{
    proof {
        reveal_strlit("");
    }
    let text = "".to_owned();
    assert(text@ =~= Seq::<char>::empty());
    text
}

/// Reads the word that starts at `start`.
#[verifier::loop_isolation(false)]
fn parse_keyword(line: &str, length: usize, start: usize) -> (r: (String, usize))
    requires
        length == line@.len(),
        start < length,
    ensures
        r.0@ == word(line@, start as int).0,
        r.1 == word(line@, start as int).1,
{
    let mut token = no_text();
    let first = line.get_char(start);
    if is_alphabetic(first) {
        push_char(&mut token, first);
    }
    let ghost head = token@;
    assert(head =~= if alphabetic(first) {
        seq![first]
    } else {
        Seq::empty()
    });
    if is_whitespace(first) {
        assert(token@ =~= word(line@, start as int).0);
        return (token, start);
    }
    let mut n: usize = start + 1;
    assert(token@ + word_rest(line@, n as int).0 =~= head + word_rest(line@, start + 1).0);
    while n < length
        invariant
            start < n <= length,
            length == line@.len(),
            token@ + word_rest(line@, n as int).0 =~= head + word_rest(line@, start + 1).0,
            word_rest(line@, n as int).1 == word_rest(line@, start + 1).1,
        decreases length - n,
    {
        let c = line.get_char(n);
        if is_operator(c) {
            assert(word_rest(line@, n as int) == (Seq::<char>::empty(), n as int));
            assert(token@ + Seq::<char>::empty() =~= token@);
            assert(token@ =~= word(line@, start as int).0);
            return (token, n);
        }
        let ghost before = token@;
        if is_alphanumeric(c) {
            push_char(&mut token, c);
        }
        if is_whitespace(c) {
            assert(word_rest(line@, n as int).1 == n);
            assert(token@ =~= before + word_rest(line@, n as int).0);
            assert(token@ =~= word(line@, start as int).0);
            return (token, n);
        }
        proof {
            let taken = if alphanumeric(c) {
                seq![c]
            } else {
                Seq::<char>::empty()
            };
            assert(token@ =~= before + taken);
            assert(before + (taken + word_rest(line@, n + 1).0) =~= (before + taken) + word_rest(
                line@,
                n + 1,
            ).0);
        }
        n += 1;
    }
    assert(word_rest(line@, n as int) == (Seq::<char>::empty(), length - 1));
    assert(token@ + Seq::<char>::empty() =~= token@);
    assert(token@ =~= word(line@, start as int).0);
    (token, length - 1)
}

/// Reads the number that starts at `start`.
#[verifier::loop_isolation(false)]
fn parse_number(line: &str, length: usize, start: usize) -> (r: (String, usize))
    requires
        length == line@.len(),
        start < length,
    ensures
        r.0@ == number(line@, start as int).0,
        r.1 == number(line@, start as int).1,
{
    let mut token = no_text();
    push_char(&mut token, line.get_char(start));
    let ghost head = token@;
    assert(head =~= seq![line@[start as int]]);
    let mut n: usize = start + 1;
    assert(token@ + number_rest(line@, n as int).0 =~= head + number_rest(line@, start + 1).0);
    while n < length
        invariant
            start < n <= length,
            length == line@.len(),
            token@ + number_rest(line@, n as int).0 =~= head + number_rest(line@, start + 1).0,
            number_rest(line@, n as int).1 == number_rest(line@, start + 1).1,
        decreases length - n,
    {
        let c = line.get_char(n);
        let ghost before = token@;
        if is_digit(c) || c == '.' {
            push_char(&mut token, c);
        }
        if is_whitespace(c) {
            assert(number_rest(line@, n as int).1 == Some(n as int));
            assert(token@ =~= before + number_rest(line@, n as int).0);
            assert(token@ =~= number(line@, start as int).0);
            return (token, n);
        }
        proof {
            let taken = if digit(c) || c == '.' {
                seq![c]
            } else {
                Seq::<char>::empty()
            };
            assert(token@ =~= before + taken);
            assert(before + (taken + number_rest(line@, n + 1).0) =~= (before + taken)
                + number_rest(line@, n + 1).0);
        }
        n += 1;
    }
    assert(number_rest(line@, n as int) == (Seq::<char>::empty(), None::<int>));
    assert(token@ + Seq::<char>::empty() =~= token@);
    assert(token@ =~= number(line@, start as int).0);
    (token, start)
}

/// Reads the token that follows the whitespace at `start`.
fn parse_token(line: &str, length: usize, start: usize) -> (r: (String, usize))
    requires
        length == line@.len(),
        length < usize::MAX,
        start < usize::MAX,
    ensures
        r.0@ == token_at(line@, start as int).0,
        r.1 == token_at(line@, start as int).1,
{
    let mut at: usize = start;
    let mut going = true;
    while going && at < length
        invariant
            start <= at,
            at <= length || at == start,
            length == line@.len(),
            skip_space(line@, start as int) == skip_space(line@, at as int),
            !going ==> at < length && !whitespace(line@[at as int]),
        decreases length - at + if going {
            1int
        } else {
            0int
        },
    {
        if is_whitespace(line.get_char(at)) {
            at += 1;
        } else {
            going = false;
        }
    }
    assert(skip_space(line@, start as int) == at);
    let found = if at < length {
        line.get_char(at)
    } else {
        ' '
    };
    if is_alphabetic(found) {
        if at < length {
            parse_keyword(line, length, at)
        } else {
            (no_text(), at)
        }
    } else if is_digit(found) {
        parse_number(line, length, at)
    } else if is_operator(found) {
        let mut token = no_text();
        push_char(&mut token, found);
        assert(token@ =~= seq![found]);
        (token, at + 1)
    } else {
        (no_text(), at + 1)
    }
}

/// Whether reading the tokens of `chunk` comes to an end. It does not
/// where a word or a number reaches the end of the text.
#[verifier::loop_isolation(false)]
pub fn can_lex(chunk: &String) -> (r: bool)
    requires
        chunk@.len() < usize::MAX,
    ensures
        r == lexes(chunk@, byte_length(chunk@) as int, 0),
{
    let line = chunk.as_str();
    let bound = line.len();
    let length = line.unicode_len();
    let mut n: usize = 0;
    while n < bound
        invariant
            length == line@.len(),
            line@ == chunk@,
            bound == byte_length(line@),
            lexes(line@, bound as int, 0) == lexes(line@, bound as int, n as int),
        decreases left(bound as int, n as int),
    {
        let (_, next) = parse_token(line, length, n);
        if next <= n {
            return false;
        }
        n = next;
    }
    true
}

/// The tokens of `chunk`, in order: words, numbers and operators. Reading
/// must come to an end, which `can_lex` tells.
#[verifier::loop_isolation(false)]
pub fn parse_tokens(chunk: &String) -> (tokens: Vec<String>)
    requires
        chunk@.len() < usize::MAX,
        lexes(chunk@, byte_length(chunk@) as int, 0),
    ensures
        texts(tokens@) == tokens_from(chunk@, byte_length(chunk@) as int, 0),
{
    let line = chunk.as_str();
    let bound = line.len();
    let length = line.unicode_len();
    let mut tokens: Vec<String> = Vec::new();
    let mut n: usize = 0;
    assert(texts(tokens@) =~= Seq::<Seq<char>>::empty());
    assert(texts(tokens@) + tokens_from(line@, bound as int, 0) =~= tokens_from(
        line@,
        bound as int,
        0,
    ));
    while n < bound
        invariant
            length == line@.len(),
            line@ == chunk@,
            bound == byte_length(line@),
            lexes(line@, bound as int, n as int),
            texts(tokens@) + tokens_from(line@, bound as int, n as int) =~= tokens_from(
                line@,
                bound as int,
                0,
            ),
        decreases left(bound as int, n as int),
    {
        let (token, next) = parse_token(line, length, n);
        let ghost before = texts(tokens@);
        let ghost found = if token@.len() > 0 {
            seq![token@]
        } else {
            Seq::<Seq<char>>::empty()
        };
        if token.as_str().unicode_len() > 0 {
            tokens.push(token);
        }
        proof {
            assert(texts(tokens@) =~= before + found);
            assert(before + (found + tokens_from(line@, bound as int, next as int)) =~= (before
                + found) + tokens_from(line@, bound as int, next as int));
        }
        n = next;
    }
    assert(texts(tokens@) + Seq::<Seq<char>>::empty() =~= texts(tokens@));
    tokens
}

/// The tokens of `chunk`, where reading them comes to an end.
pub fn try_parse_tokens(chunk: &String) -> (r: Option<Vec<String>>)
    requires
        chunk@.len() < usize::MAX,
    ensures
        r is Some <==> lexes(chunk@, byte_length(chunk@) as int, 0),
        r is Some ==> texts(r->Some_0@) == tokens_from(
            chunk@,
            byte_length(chunk@) as int,
            0,
        ),
{
    if can_lex(chunk) {
        Some(parse_tokens(chunk))
    } else {
        None
    }
}

/// The place behind the digits that start at `from`.
pub open spec fn digits_end(text: Seq<char>, from: int) -> int
    decreases text.len() - from,
{
    if 0 <= from < text.len() && digit(text[from]) {
        digits_end(text, from + 1)
    } else {
        from
    }
}

/// Whether the text ends at `at`, or an exponent stands from `at` to its
/// end: the letter `e`, a sign or none, and one digit or more.
pub open spec fn exponent_at(text: Seq<char>, at: int) -> bool {
    at == text.len() || (0 <= at < text.len() && (text[at] == 'e' || text[at] == 'E') && {
        let digits = if at + 1 < text.len() && (text[at + 1] == '+' || text[at + 1] == '-') {
            at + 2
        } else {
            at + 1
        };
        digits < text.len() && digits_end(text, digits) == text.len()
    })
}

/// Whether a decimal number stands from `from` to the end of the text:
/// digits with a dot before, among or behind them or with none, and an
/// exponent or none.
pub open spec fn decimal_at(text: Seq<char>, from: int) -> bool {
    let whole = digits_end(text, from);
    if 0 <= whole < text.len() && text[whole] == '.' {
        let fraction = digits_end(text, whole + 1);
        (whole > from || fraction > whole + 1) && exponent_at(text, fraction)
    } else {
        whole > from && exponent_at(text, whole)
    }
}

/// Whether a character is the given letter, small or capital.
pub open spec fn letter(c: char, small: char, capital: char) -> bool {
    c == small || c == capital
}

/// Whether one of the words `inf`, `infinity` and `nan` stands from `from`
/// to the end of the text, in small or capital letters.
pub open spec fn special_at(text: Seq<char>, from: int) -> bool {
    let rest = text.skip(from);
    ||| rest.len() == 3 && letter(rest[0], 'i', 'I') && letter(rest[1], 'n', 'N') && letter(
        rest[2],
        'f',
        'F',
    )
    ||| rest.len() == 3 && letter(rest[0], 'n', 'N') && letter(rest[1], 'a', 'A') && letter(
        rest[2],
        'n',
        'N',
    )
    ||| rest.len() == 8 && letter(rest[0], 'i', 'I') && letter(rest[1], 'n', 'N') && letter(
        rest[2],
        'f',
        'F',
    ) && letter(rest[3], 'i', 'I') && letter(rest[4], 'n', 'N') && letter(rest[5], 'i', 'I')
        && letter(rest[6], 't', 'T') && letter(rest[7], 'y', 'Y')
}

/// Whether a text is written as a floating-point number: a sign or none,
/// then a decimal number or one of the words `inf`, `infinity` and `nan`.
pub open spec fn float_text(text: Seq<char>) -> bool {
    let from = if text.len() > 0 && (text[0] == '+' || text[0] == '-') {
        1int
    } else {
        0int
    };
    0 <= from <= text.len() && (special_at(text, from) || decimal_at(text, from))
}

/// The place behind the digits that start at `from`.
fn skip_digits(text: &str, length: usize, from: usize) -> (end: usize)
    requires
        length == text@.len(),
        from <= length,
    ensures
        end == digits_end(text@, from as int),
        from <= end <= length,
{
    let mut at: usize = from;
    let mut going = true;
    while going && at < length
        invariant
            from <= at <= length,
            length == text@.len(),
            digits_end(text@, from as int) == digits_end(text@, at as int),
            !going ==> at < length && !digit(text@[at as int]),
        decreases length - at + if going {
            1int
        } else {
            0int
        },
    {
        if is_digit(text.get_char(at)) {
            at += 1;
        } else {
            going = false;
        }
    }
    at
}

/// Whether the text ends at `at` or an exponent stands from there to its
/// end.
fn exponent_follows(text: &str, length: usize, at: usize) -> (r: bool)
    requires
        length == text@.len(),
        at <= length,
    ensures
        r == exponent_at(text@, at as int),
{
    if at == length {
        return true;
    }
    let mark = text.get_char(at);
    if !(mark == 'e' || mark == 'E') {
        return false;
    }
    let mut digits: usize = at + 1;
    if digits < length {
        let sign = text.get_char(digits);
        if sign == '+' || sign == '-' {
            digits += 1;
        }
    }
    if digits >= length {
        return false;
    }
    skip_digits(text, length, digits) == length
}

/// Whether the character of `text` at `at` is the given letter.
fn letter_at(text: &str, at: usize, small: char, capital: char) -> (r: bool)
    requires
        at < text@.len(),
    ensures
        r == letter(text@[at as int], small, capital),
{
    let c = text.get_char(at);
    c == small || c == capital
}

/// Whether one of the words `inf`, `infinity` and `nan` stands from `from`
/// to the end of the text.
fn special_follows(text: &str, length: usize, from: usize) -> (r: bool)
    requires
        length == text@.len(),
        from <= length,
    ensures
        r == special_at(text@, from as int),
{
    let ghost rest = text@.skip(from as int);
    assert(rest.len() == length - from);
    assert forall|k: int| 0 <= k < rest.len() implies rest[k] == text@[from + k] by {}
    let left = length - from;
    if left == 3 {
        (letter_at(text, from, 'i', 'I') && letter_at(text, from + 1, 'n', 'N') && letter_at(
            text,
            from + 2,
            'f',
            'F',
        )) || (letter_at(text, from, 'n', 'N') && letter_at(text, from + 1, 'a', 'A')
            && letter_at(text, from + 2, 'n', 'N'))
    } else if left == 8 {
        letter_at(text, from, 'i', 'I') && letter_at(text, from + 1, 'n', 'N') && letter_at(
            text,
            from + 2,
            'f',
            'F',
        ) && letter_at(text, from + 3, 'i', 'I') && letter_at(text, from + 4, 'n', 'N')
            && letter_at(text, from + 5, 'i', 'I') && letter_at(text, from + 6, 't', 'T')
            && letter_at(text, from + 7, 'y', 'Y')
    } else {
        false
    }
}

/// Whether a text is written as a floating-point number.
pub fn is_float(text: &str) -> (r: bool)
    ensures
        r == float_text(text@),
{
    let length = text.unicode_len();
    let mut from: usize = 0;
    if length > 0 {
        let sign = text.get_char(0);
        if sign == '+' || sign == '-' {
            from = 1;
        }
    }
    if special_follows(text, length, from) {
        return true;
    }
    let whole = skip_digits(text, length, from);
    if whole < length && text.get_char(whole) == '.' {
        let fraction = skip_digits(text, length, whole + 1);
        (whole > from || fraction > whole + 1) && exponent_follows(text, length, fraction)
    } else {
        whole > from && exponent_follows(text, length, whole)
    }
}

/// Whether a text is one of the keywords.
pub open spec fn keyword(text: Seq<char>) -> bool {
    text == "abstract type"@ || text == "end"@ || text == "function"@
}

/// Whether a text holds a character of the given class from `from` on.
pub open spec fn holds_binary(text: Seq<char>, from: int) -> bool
    decreases text.len() - from,
{
    0 <= from < text.len() && (binary_operator(text[from]) || holds_binary(text, from + 1))
}

/// Whether a text holds a bracket, a brace or a comma from `from` on.
pub open spec fn holds_other(text: Seq<char>, from: int) -> bool
    decreases text.len() - from,
{
    0 <= from < text.len() && (other_operator(text[from]) || holds_other(text, from + 1))
}

/// The kind of a token: a keyword; else a binary operator, where it holds
/// the character of one; else another operator, where it holds a bracket, a
/// brace or a comma; else a number, where it is written as one; else a
/// name.
pub open spec fn kind_of(text: Seq<char>) -> Token {
    if keyword(text) {
        Token::Keyword
    } else if holds_binary(text, 0) {
        Token::BinaryOperator
    } else if holds_other(text, 0) {
        Token::OtherOperator
    } else if float_text(text) {
        Token::Number
    } else {
        Token::Name
    }
}

/// The kind of a token.
pub fn classify(text: &str) -> (kind: Token)
    ensures
        kind == kind_of(text@),
{
    if same_text(text, "abstract type") || same_text(text, "end") || same_text(text, "function") {
        return Token::Keyword;
    }
    let length = text.unicode_len();
    let mut at: usize = 0;
    let mut binary = false;
    while at < length && !binary
        invariant
            at <= length,
            length == text@.len(),
            binary ==> holds_binary(text@, 0),
            !binary ==> holds_binary(text@, 0) == holds_binary(text@, at as int),
        decreases length - at + if binary {
            0int
        } else {
            1int
        },
    {
        if is_binary_operator(text.get_char(at)) {
            binary = true;
        } else {
            at += 1;
        }
    }
    if binary {
        return Token::BinaryOperator;
    }
    let mut place: usize = 0;
    let mut other = false;
    while place < length && !other
        invariant
            place <= length,
            length == text@.len(),
            other ==> holds_other(text@, 0),
            !other ==> holds_other(text@, 0) == holds_other(text@, place as int),
        decreases length - place + if other {
            0int
        } else {
            1int
        },
    {
        if is_other_operator(text.get_char(place)) {
            other = true;
        } else {
            place += 1;
        }
    }
    if other {
        return Token::OtherOperator;
    }
    if is_float(text) {
        Token::Number
    } else {
        Token::Name
    }
}

/// The kinds of a list of tokens, in order.
pub fn create_tokens(tokens: Vec<String>) -> (kinds: Vec<Token>)
    ensures
        kinds@.len() == tokens@.len(),
        forall|i: int| 0 <= i < kinds@.len() ==> kinds@[i] == kind_of(tokens@[i]@),
{
    let mut kinds: Vec<Token> = Vec::new();
    let mut i: usize = 0;
    while i < tokens.len()
        invariant
            i <= tokens@.len(),
            kinds@.len() == i,
            forall|k: int| 0 <= k < i ==> kinds@[k] == kind_of(tokens@[k]@),
        decreases tokens@.len() - i,
    {
        kinds.push(classify(tokens[i].as_str()));
        i += 1;
    }
    kinds
}

/// A word ends within the line: at or behind the place where its rest
/// starts, and at the last character of the line where its rest is empty.
pub proof fn lemma_word_ends_behind_its_start(line: Seq<char>, at: int)
    requires
        0 <= at,
    ensures
        at < line.len() ==> at <= word_rest(line, at).1 < line.len(),
        at >= line.len() ==> word_rest(line, at).1 == line.len() - 1,
    decreases line.len() - at,
{
    if at < line.len() && !operator(line[at]) && !whitespace(line[at]) {
        lemma_word_ends_behind_its_start(line, at + 1);
    }
}

} // verus!
