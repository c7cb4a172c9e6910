//! The argument list `<type-expression>, <integer-literal>`: splitting,
//! validation and the errors of the whole generation pipeline.
use vstd::prelude::*;
use vstd::string::*;
use crate::text::{is_blank, is_blank_text, is_space, is_space_char, trim, trim_text};

verus! {

/// Why a generation request was refused.
#[derive(Debug, PartialEq, Eq)]
pub enum FauxArrayError {
    /// The argument list is empty.
    MissingTypeArgument,
    /// The argument list has no separator after the type.
    MissingCountArgument,
    /// The first argument, given here, is not a type expression.
    InvalidTypeArgument(String),
    /// The second argument, given here, is not an integer that fits in `u32`.
    InvalidCountArgument(String),
    /// The count does not fit the platform's size type. Verus assumes a size
    /// type of at least 32 bits, where every `u32` fits, so the functions of
    /// this library never return it.
    CountConversionOverflow(u32),
    /// The declaration is not a record type.
    NotAStruct,
    /// The declaration does not derive the serialization capability.
    SerializationCapabilityMissing,
    /// The declaration already has fields; generated fields are never merged
    /// with declared ones.
    FieldsAlreadyDeclared,
}

/// What a `FauxArrayError` holds, with its texts as character sequences.
pub enum ErrorView {
    MissingTypeArgument,
    MissingCountArgument,
    InvalidTypeArgument(Seq<char>),
    InvalidCountArgument(Seq<char>),
    CountConversionOverflow(u32),
    NotAStruct,
    SerializationCapabilityMissing,
    FieldsAlreadyDeclared,
}

impl View for FauxArrayError {
    type V = ErrorView;

    open spec fn view(&self) -> ErrorView {
        match self {
            FauxArrayError::MissingTypeArgument => ErrorView::MissingTypeArgument,
            FauxArrayError::MissingCountArgument => ErrorView::MissingCountArgument,
            FauxArrayError::InvalidTypeArgument(t) => ErrorView::InvalidTypeArgument(t@),
            FauxArrayError::InvalidCountArgument(t) => ErrorView::InvalidCountArgument(t@),
            FauxArrayError::CountConversionOverflow(n) => ErrorView::CountConversionOverflow(*n),
            FauxArrayError::NotAStruct => ErrorView::NotAStruct,
            FauxArrayError::SerializationCapabilityMissing => ErrorView::SerializationCapabilityMissing,
            FauxArrayError::FieldsAlreadyDeclared => ErrorView::FieldsAlreadyDeclared,
        }
    }
}

/// The shape that every argument error message restates.
pub open spec fn argument_shape() -> Seq<char> {
    "the faux_array attribute takes two arguments: a type, then an integer"@
}

/// The human-readable message of an error.
pub open spec fn message_text(e: ErrorView) -> Seq<char> {
    match e {
        ErrorView::MissingTypeArgument => argument_shape() + "; no arguments were found"@,
        ErrorView::MissingCountArgument => argument_shape() + "; only one argument was found"@,
        ErrorView::InvalidTypeArgument(t) => argument_shape() + "; the first argument, `"@ + t
            + "`, is not a type"@,
        ErrorView::InvalidCountArgument(c) => argument_shape() + "; the second argument, `"@ + c
            + "`, is not an integer that fits in a u32"@,
        ErrorView::CountConversionOverflow(_) => argument_shape()
            + "; the count does not fit in the platform's size type"@,
        ErrorView::NotAStruct => "the faux_array attribute can only be attached to struct definitions"@,
        ErrorView::SerializationCapabilityMissing =>
            "the faux_array attribute needs a struct that derives serde's Serialize"@,
        ErrorView::FieldsAlreadyDeclared =>
            "the faux_array attribute needs a struct that declares no fields"@,
    }
}

impl FauxArrayError {
    /// The human-readable message of this error: what was expected and, for
    /// a malformed argument, its text.
    pub fn message(&self) -> (r: String)
        ensures
            r@ == message_text(self@),
    {
        let mut m = String::new();
        match self {
            FauxArrayError::NotAStruct => {
                m.append("the faux_array attribute can only be attached to struct definitions");
            },
            FauxArrayError::SerializationCapabilityMissing => {
                m.append("the faux_array attribute needs a struct that derives serde's Serialize");
            },
            FauxArrayError::FieldsAlreadyDeclared => {
                m.append("the faux_array attribute needs a struct that declares no fields");
            },
            _ => {
                m.append("the faux_array attribute takes two arguments: a type, then an integer");
                match self {
                    FauxArrayError::MissingTypeArgument => {
                        m.append("; no arguments were found");
                    },
                    FauxArrayError::MissingCountArgument => {
                        m.append("; only one argument was found");
                    },
                    FauxArrayError::InvalidTypeArgument(t) => {
                        m.append("; the first argument, `");
                        m.append(t.as_str());
                        m.append("`, is not a type");
                    },
                    FauxArrayError::InvalidCountArgument(c) => {
                        m.append("; the second argument, `");
                        m.append(c.as_str());
                        m.append("`, is not an integer that fits in a u32");
                    },
                    _ => {
                        m.append("; the count does not fit in the platform's size type");
                    },
                }
            },
        }
        assert(m@ =~= message_text(self@));
        m
    }
}

/// A validated argument list.
#[derive(Debug, PartialEq, Eq)]
pub struct Arguments {
    /// The element type, as trimmed text that parses as a type expression.
    pub field_type: String,
    /// How many fields to generate.
    pub field_count: u32,
}

/// A character that opens a parenthesis, a square bracket or a brace.
pub open spec fn opens(c: char) -> bool {
    c == '(' || c == '[' || c == '{'
}

/// A character that closes a parenthesis, a square bracket or a brace.
pub open spec fn closes(c: char) -> bool {
    c == ')' || c == ']' || c == '}'
}

/// The character at `i` is the `>` of an arrow `->`.
pub open spec fn is_arrow_head(s: Seq<char>, i: int) -> bool {
    s[i] == '>' && i > 0 && s[i - 1] == '-'
}

/// The nesting just before position `i`: the depth of open parentheses,
/// square brackets and braces, and the depth of open angle brackets among
/// those that stand outside all of them. Inside a parenthesis, a square
/// bracket or a brace a `<` or `>` may be an operator or a character
/// literal (`[u8; 1 << 2]`, `Foo<{'<'}>`), so only at the outer level does
/// it count as an angle bracket; there it always is one, but for the `>` of
/// an arrow `->`.
pub open spec fn depths_before(s: Seq<char>, i: int) -> (nat, nat)
    decreases i,
{
    if i <= 0 {
        (0, 0)
    } else {
        let d = depths_before(s, i - 1).0;
        let a = depths_before(s, i - 1).1;
        let c = s[i - 1];
        if opens(c) {
            (d + 1, a)
        } else if closes(c) && d > 0 {
            ((d - 1) as nat, a)
        } else if d == 0 && c == '<' {
            (d, a + 1)
        } else if d == 0 && c == '>' && !is_arrow_head(s, i - 1) && a > 0 {
            (d, (a - 1) as nat)
        } else {
            (d, a)
        }
    }
}

/// Position `i` holds a separator outside every bracket.
pub open spec fn top_comma(s: Seq<char>, i: int) -> bool {
    0 <= i < s.len() && s[i] == ',' && depths_before(s, i).0 == 0 && depths_before(s, i).1 == 0
}

/// The first separator at or after `from`.
pub open spec fn first_top_comma_from(s: Seq<char>, from: int) -> Option<int>
    decreases s.len() - from,
{
    if from < 0 || from >= s.len() {
        None
    } else if top_comma(s, from) {
        Some(from)
    } else {
        first_top_comma_from(s, from + 1)
    }
}

/// The text of the first argument.
pub open spec fn type_segment(raw: Seq<char>) -> Seq<char> {
    match first_top_comma_from(raw, 0) {
        Some(k) => trim(raw.take(k)),
        None => trim(raw),
    }
}

/// The text of the second argument: what stands between the first separator
/// and the next one, or the end.
pub open spec fn count_segment(raw: Seq<char>) -> Seq<char> {
    match first_top_comma_from(raw, 0) {
        Some(k) => match first_top_comma_from(raw, k + 1) {
            Some(e) => trim(raw.subrange(k + 1, e)),
            None => trim(raw.skip(k + 1)),
        },
        None => Seq::empty(),
    }
}

pub open spec fn is_digit(c: char) -> bool {
    '0' <= c && c <= '9'
}

/// The number that a sequence of decimal digits denotes.
pub open spec fn decimal_value(s: Seq<char>) -> nat
    decreases s.len(),
{
    if s.len() == 0 {
        0
    } else {
        decimal_value(s.drop_last()) * 10 + (s.last() as u32 - '0' as u32) as nat
    }
}

/// The count that `s` denotes: an optional `+`, then one or more decimal
/// digits whose value fits in `u32`.
pub open spec fn count_of(s: Seq<char>) -> Option<u32> {
    if s.len() > 0 && s[0] == '+' {
        digits_of(s.drop_first())
    } else {
        digits_of(s)
    }
}

/// The value of one or more decimal digits, where it fits in `u32`.
pub open spec fn digits_of(s: Seq<char>) -> Option<u32> {
    if s.len() > 0 && (forall|i: int| 0 <= i < s.len() ==> is_digit(#[trigger] s[i]))
        && decimal_value(s) <= u32::MAX {
        Some(decimal_value(s) as u32)
    } else {
        None
    }
}

/// A letter, digit or underscore: a character of a word.
pub open spec fn is_word_char(c: char) -> bool {
    ('a' <= c && c <= 'z') || ('A' <= c && c <= 'Z') || ('0' <= c && c <= '9') || c == '_'
}

/// How many square brackets and braces are open just before position `i`.
pub open spec fn expression_depth_before(s: Seq<char>, i: int) -> nat
    decreases i,
{
    if i <= 0 {
        0
    } else {
        let d = expression_depth_before(s, i - 1);
        if s[i - 1] == '[' || s[i - 1] == '{' {
            d + 1
        } else if (s[i - 1] == ']' || s[i - 1] == '}') && d > 0 {
            (d - 1) as nat
        } else {
            d
        }
    }
}

/// The character at `i` may take the type parser one level deeper: it is
/// punctuation (anything but whitespace and word characters), or it starts a
/// word inside square brackets or braces, where an expression may recurse on
/// keywords alone (`return return 1`).
pub open spec fn may_nest_at(s: Seq<char>, i: int) -> bool {
    !is_space(s[i]) && (!is_word_char(s[i]) || (expression_depth_before(s, i) > 0 && (i == 0
        || !is_word_char(s[i - 1]))))
}

/// How many of the first `i` characters may take the parser a level deeper.
pub open spec fn nesting_weight_before(s: Seq<char>, i: int) -> nat
    decreases i,
{
    if i <= 0 {
        0
    } else {
        nesting_weight_before(s, i - 1) + if may_nest_at(s, i - 1) {
            1nat
        } else {
            0nat
        }
    }
}

/// An upper bound on how deep the type parser descends into `s`: every level
/// of its descent consumes a character that `may_nest_at` counts.
pub open spec fn nesting_weight(s: Seq<char>) -> nat {
    nesting_weight_before(s, s.len() as int)
}

/// The largest nesting weight of a first argument that is handed to the type
/// parser. The parser descends once per nesting level without a limit of its
/// own; this bound keeps its depth within a thread's default 2 MiB stack. A
/// first argument of greater weight is refused, whatever its length.
pub const MAX_TYPE_NESTING: usize = 64;

/// The nesting weight of `s`.
pub fn type_nesting_weight(s: &str) -> (r: usize)
    ensures
        r == nesting_weight(s@),
{
    let n = s.unicode_len();
    let mut i: usize = 0;
    let mut w: usize = 0;
    let mut d: usize = 0;
    let mut prev_word: bool = false;
    while i < n
        invariant
            n == s@.len(),
            i <= n,
            w == nesting_weight_before(s@, i as int),
            d == expression_depth_before(s@, i as int),
            w <= i,
            d <= i,
            prev_word == (i > 0 && is_word_char(s@[i - 1])),
        decreases n - i,
    {
        let c = s.get_char(i);
        let word = ('a' <= c && c <= 'z') || ('A' <= c && c <= 'Z') || ('0' <= c && c <= '9') || c
            == '_';
        if !is_space_char(c) && (!word || (d > 0 && !prev_word)) {
            w = w + 1;
        }
        if c == '[' || c == '{' {
            d = d + 1;
        } else if (c == ']' || c == '}') && d > 0 {
            d = d - 1;
        }
        prev_word = word;
        i = i + 1;
    }
    w
}

/// The outcome of reading the argument list `raw`, where `type_ok` tells
/// whether its first argument parses as a type expression. An empty first
/// argument, or one whose nesting weight exceeds `MAX_TYPE_NESTING`, is
/// refused whatever `type_ok` says.
pub open spec fn parse_outcome(raw: Seq<char>, type_ok: bool) -> Result<(Seq<char>, u32), ErrorView> {
    if is_blank(raw) {
        Err(ErrorView::MissingTypeArgument)
    } else if first_top_comma_from(raw, 0) is None {
        Err(ErrorView::MissingCountArgument)
    } else if type_segment(raw).len() == 0 || nesting_weight(type_segment(raw)) > MAX_TYPE_NESTING
        || !type_ok {
        Err(ErrorView::InvalidTypeArgument(type_segment(raw)))
    } else {
        match count_of(count_segment(raw)) {
            Some(n) => Ok((type_segment(raw), n)),
            None => Err(ErrorView::InvalidCountArgument(count_segment(raw))),
        }
    }
}

/// What a result of reading an argument list holds.
pub open spec fn outcome_view(r: Result<Arguments, FauxArrayError>) -> Result<(Seq<char>, u32), ErrorView> {
    match r {
        Ok(a) => Ok((a.field_type@, a.field_count)),
        Err(e) => Err(e@),
    }
}

proof fn lemma_skip_non_commas(s: Seq<char>, from: int, to: int)
    requires
        0 <= from <= to <= s.len(),
        forall|p: int| from <= p < to ==> !top_comma(s, p),
    ensures
        first_top_comma_from(s, from) == first_top_comma_from(s, to),
    decreases to - from,
{
    if from < to {
        lemma_skip_non_commas(s, from + 1, to);
    }
}

/// The first separator of `s` at or after `from` that stands outside all
/// brackets, as `depths_before` counts them.
pub fn find_top_comma(s: &str, from: usize) -> (r: Option<usize>)
    ensures
        r matches Some(k) ==> first_top_comma_from(s@, from as int) == Some(k as int) && from <= k
            < s@.len() && top_comma(s@, k as int),
        r is None ==> first_top_comma_from(s@, from as int) is None,
{
    let n = s.unicode_len();
    let mut j: usize = 0;
    let mut d: usize = 0;
    let mut a: usize = 0;
    let mut prev: char = ' ';
    while j < n
        invariant
            n == s@.len(),
            j <= n,
            d == depths_before(s@, j as int).0,
            a == depths_before(s@, j as int).1,
            d + a <= j,
            j > 0 ==> prev == s@[j - 1],
            forall|p: int| from <= p < j ==> !top_comma(s@, p),
        decreases n - j,
    {
        let c = s.get_char(j);
        if c == ',' && d == 0 && a == 0 && j >= from {
            proof {
                lemma_skip_non_commas(s@, from as int, j as int);
            }
            return Some(j);
        }
        if c == '(' || c == '[' || c == '{' {
            d = d + 1;
        } else if (c == ')' || c == ']' || c == '}') && d > 0 {
            d = d - 1;
        } else if d == 0 && c == '<' {
            a = a + 1;
        } else if d == 0 && c == '>' && !(j > 0 && prev == '-') && a > 0 {
            a = a - 1;
        }
        prev = c;
        j = j + 1;
    }
    if from <= n {
        proof {
            lemma_skip_non_commas(s@, from as int, n as int);
        }
    }
    None
}

proof fn lemma_prefix_value_le(s: Seq<char>, i: int)
    requires
        0 <= i <= s.len(),
    ensures
        decimal_value(s.take(i)) <= decimal_value(s),
    decreases s.len(),
{
    if i < s.len() {
        assert(s.drop_last().take(i) =~= s.take(i));
        lemma_prefix_value_le(s.drop_last(), i);
    } else {
        assert(s.take(i) =~= s);
    }
}

/// The count that `s` denotes, if it is one.
pub fn parse_count(s: &str) -> (r: Option<u32>)
    ensures
        r == count_of(s@),
{
    let n = s.unicode_len();
    if n > 0 && s.get_char(0) == '+' {
        let digits = s.substring_char(1, n);
        assert(digits@ =~= s@.drop_first());
        parse_digits(digits)
    } else {
        parse_digits(s)
    }
}

/// The value of the decimal digits `s`, if it fits in `u32`.
fn parse_digits(s: &str) -> (r: Option<u32>)
    ensures
        r == digits_of(s@),
{
    let n = s.unicode_len();
    if n == 0 {
        return None;
    }
    let mut acc: u64 = 0;
    let mut i: usize = 0;
    while i < n
        invariant
            n == s@.len(),
            i <= n,
            acc <= u32::MAX,
            acc == decimal_value(s@.take(i as int)),
            forall|j: int| 0 <= j < i ==> is_digit(#[trigger] s@[j]),
        decreases n - i,
    {
        let c = s.get_char(i);
        if !('0' <= c && c <= '9') {
            return None;
        }
        let ghost t = s@.take(i + 1);
        assert(t.drop_last() =~= s@.take(i as int));
        let next = acc * 10 + ((c as u32) - 48) as u64;
        if next > u32::MAX as u64 {
            proof {
                lemma_prefix_value_le(s@, i + 1);
            }
            return None;
        }
        acc = next;
        i = i + 1;
    }
    assert(s@.take(n as int) =~= s@);
    Some(acc as u32)
}

/// The segments of `raw` before the type check: the trimmed first argument
/// and the trimmed second one, or the error that comes before any check.
fn split_arguments(raw: &str) -> (r: Result<(&str, &str), FauxArrayError>)
    ensures
        r matches Ok((t, c)) ==> !is_blank(raw@) && first_top_comma_from(raw@, 0) is Some
            && t@ == type_segment(raw@) && c@ == count_segment(raw@),
        r matches Err(e) ==> e@ == parse_outcome(raw@, true)->Err_0 && parse_outcome(raw@, true)
            == parse_outcome(raw@, false),
{
    if is_blank_text(raw) {
        return Err(FauxArrayError::MissingTypeArgument);
    }
    match find_top_comma(raw, 0) {
        None => Err(FauxArrayError::MissingCountArgument),
        Some(k) => {
            let n = raw.unicode_len();
            let type_text = trim_text(raw.substring_char(0, k));
            let count_text = match find_top_comma(raw, k + 1) {
                Some(e) => trim_text(raw.substring_char(k + 1, e)),
                None => trim_text(raw.substring_char(k + 1, n)),
            };
            assert(raw@.subrange(0, k as int) =~= raw@.take(k as int));
            assert(raw@.subrange(k + 1, n as int) =~= raw@.skip(k + 1));
            Ok((type_text, count_text))
        },
    }
}

/// Reads the argument list `raw`, given whether its first argument parses
/// as a type expression.
pub fn parse_arguments_with(raw: &str, type_ok: bool) -> (r: Result<Arguments, FauxArrayError>)
    ensures
        outcome_view(r) == parse_outcome(raw@, type_ok),
{
    match split_arguments(raw) {
        Err(e) => Err(e),
        Ok((type_text, count_text)) => {
            if type_text.unicode_len() == 0 || type_nesting_weight(type_text) > MAX_TYPE_NESTING
                || !type_ok {
                return Err(FauxArrayError::InvalidTypeArgument(type_text.to_string()));
            }
            match parse_count(count_text) {
                Some(n) => Ok(Arguments { field_type: type_text.to_string(), field_count: n }),
                None => Err(FauxArrayError::InvalidCountArgument(count_text.to_string())),
            }
        },
    }
}

/// The syntax tree of a type expression, carried as an opaque value.
#[verifier::external_type_specification]
#[verifier::external_body]
pub struct ExType(syn::Type);

/// The parse error of the syntax tree parser, carried as an opaque value.
#[verifier::external_type_specification]
#[verifier::external_body]
pub struct ExSynError(syn::Error);

/// Relies on syn::parse_str::<syn::Type> to tell whether the text, as a
/// whole, is a type expression. Nothing is stated of its answer: inside a
/// procedural macro the text is lexed by the compiler as well as by
/// proc-macro2's own lexer, so the answer may depend on where it runs. Lex
/// errors come back as errors (proc-macro2 catches the compiler's panics);
/// the parser recurses once per nesting level, which the bound on the
/// nesting weight keeps shallow.
#[verifier::external_body]
fn parse_type(s: &str) -> (r: Result<syn::Type, syn::Error>)
    requires
        nesting_weight(s@) <= MAX_TYPE_NESTING,
{
    syn::parse_str::<syn::Type>(s)
}

/// Reads the argument list `raw`: the first argument must be a type
/// expression, the second a count that fits in `u32`. The outcome is the one
/// that `parse_outcome` gives for the type parser's answer on the first
/// argument.
pub fn parse_arguments(raw: &str) -> (r: Result<Arguments, FauxArrayError>)
    ensures
        exists|type_ok: bool| outcome_view(r) == #[trigger] parse_outcome(raw@, type_ok),
{
    match split_arguments(raw) {
        Err(e) => Err(e),
        Ok((type_text, _)) => {
            if type_text.unicode_len() == 0 || type_nesting_weight(type_text) > MAX_TYPE_NESTING {
                let r = parse_arguments_with(raw, false);
                assert(outcome_view(r) == parse_outcome(raw@, false));
                return r;
            }
            let type_ok = parse_type(type_text).is_ok();
            let r = parse_arguments_with(raw, type_ok);
            assert(outcome_view(r) == parse_outcome(raw@, type_ok));
            r
        },
    }
}

} // verus!
