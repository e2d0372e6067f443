//! Token cursor utilities: token predicates, splitting a token run on
//! separators, and reading an `= <integer>` argument from a cursor.

use vstd::prelude::*;

use crate::errors::{ParseError, ParseErrorKind, ParseErrorKindV, ParseErrorV};
use crate::tokens::{is_comma_token, is_eq_token, span_of, token_span, Delimiter, Span, Token};

verus! {

/// Whether a token is the comma punctuation.
pub fn is_comma(t: &Token) -> (r: bool)
    ensures
        r == is_comma_token(*t),
{
    match t {
        Token::Punct { ch, .. } => *ch == ',',
        _ => false,
    }
}

/// Whether a token is the equals-sign punctuation.
pub fn is_eq(t: &Token) -> (r: bool)
    ensures
        r == is_eq_token(*t),
{
    match t {
        Token::Punct { ch, .. } => *ch == '=',
        _ => false,
    }
}

/// Whether a string equals a keyword.
pub fn text_is(t: &String, keyword: &str) -> (r: bool)
    ensures
        r == (t@ == keyword@),
{
    let k = String::from_str(keyword);
    *t == k
}

/// Whether a character is a decimal digit.
pub open spec fn is_digit_char(c: char) -> bool {
    48 <= c as u32 <= 57
}

/// The numeric value of a decimal digit character.
pub open spec fn digit_val(c: char) -> int {
    c as u32 - 48
}

/// Whether a character sequence is a non-empty run of decimal digits.
pub open spec fn all_digits(s: Seq<char>) -> bool {
    forall|i: int| 0 <= i < s.len() ==> is_digit_char(#[trigger] s[i])
}

/// The value of a run of decimal digits, most significant digit first.
pub open spec fn dec_val(s: Seq<char>) -> int
    decreases s.len(),
{
    if s.len() == 0 {
        0
    } else {
        dec_val(s.drop_last()) * 10 + digit_val(s.last())
    }
}

/// The value of a digit run never shrinks as digits are appended.
proof fn lemma_dec_val_grows(s: Seq<char>, i: int, j: int)
    requires
        0 <= i <= j <= s.len(),
        all_digits(s),
    ensures
        0 <= dec_val(s.take(i)) <= dec_val(s.take(j)),
    decreases j - i,
{
    if i == j {
        lemma_dec_val_nonneg(s.take(i));
    } else {
        lemma_dec_val_grows(s, i, j - 1);
        assert(s.take(j).drop_last() =~= s.take(j - 1));
        assert(is_digit_char(s.take(j).last()));
    }
}

/// The value of a digit run is non-negative.
proof fn lemma_dec_val_nonneg(s: Seq<char>)
    requires
        all_digits(s),
    ensures
        dec_val(s) >= 0,
    decreases s.len(),
{
    if s.len() > 0 {
        assert(all_digits(s.drop_last())) by {
            assert(forall|i: int|
                0 <= i < s.len() - 1 ==> is_digit_char(#[trigger] s.drop_last()[i]) == is_digit_char(
                    s[i],
                ));
        }
        lemma_dec_val_nonneg(s.drop_last());
    }
}

/// Whether a literal's text is a non-empty run of decimal digits.
pub fn is_decimal(text: &str) -> (r: bool)
    ensures
        r == (text@.len() > 0 && all_digits(text@)),
{
    let n = text.unicode_len();
    if n == 0 {
        return false;
    }
    let mut i: usize = 0;
    while i < n
        invariant
            n == text@.len(),
            0 <= i <= n,
            forall|k: int| 0 <= k < i ==> is_digit_char(#[trigger] text@[k]),
        decreases n - i,
    {
        let c = text.get_char(i);
        let u = c as u32;
        if u < 48 || u > 57 {
            return false;
        }
        i = i + 1;
    }
    true
}

/// The numeric value of a non-empty run of decimal digits, or `None` where
/// the value does not fit a `u64`.
pub fn decimal_value(text: &str) -> (r: Option<u64>)
    requires
        text@.len() > 0,
        all_digits(text@),
    ensures
        match r {
            Option::Some(v) => v as int == dec_val(text@),
            Option::None => dec_val(text@) > u64::MAX,
        },
{
    let n = text.unicode_len();
    let mut i: usize = 0;
    let mut acc: u64 = 0;
    while i < n
        invariant
            n == text@.len(),
            0 <= i <= n,
            text@.len() > 0,
            all_digits(text@),
            acc as int == dec_val(text@.take(i as int)),
        decreases n - i,
    {
        let c = text.get_char(i);
        assert(is_digit_char(text@[i as int]));
        let d = (c as u32 - 48) as u64;
        if acc > (u64::MAX - d) / 10 {
            proof {
                assert(text@.take(i as int + 1).drop_last() =~= text@.take(i as int));
                assert(text@.take(i as int + 1).last() == text@[i as int]);
                assert(dec_val(text@.take(i as int + 1)) == acc * 10 + d);
                vstd::arithmetic::div_mod::lemma_fundamental_div_mod(
                    (u64::MAX - d) as int,
                    10int,
                );
                assert(acc * 10 + d > u64::MAX) by (nonlinear_arith)
                    requires
                        acc > ((u64::MAX - d) as int) / 10,
                        ((u64::MAX - d) as int) == 10 * (((u64::MAX - d) as int) / 10) + (((
                        u64::MAX - d) as int) % 10),
                        0 <= ((u64::MAX - d) as int) % 10 < 10,
                        d <= 9,
                ;
                lemma_dec_val_grows(text@, i as int + 1, text@.len() as int);
                assert(text@.take(text@.len() as int) =~= text@);
            }
            return Option::None;
        }
        proof {
            assert(acc * 10 + d <= u64::MAX) by (nonlinear_arith)
                requires
                    0 <= acc <= ((u64::MAX - d) as int) / 10,
                    ((u64::MAX - d) as int) == 10 * (((u64::MAX - d) as int) / 10) + (((u64::MAX
                        - d) as int) % 10),
                    0 <= ((u64::MAX - d) as int) % 10 < 10,
                    d <= 9,
            {
                vstd::arithmetic::div_mod::lemma_fundamental_div_mod((u64::MAX - d) as int, 10int);
            }
            assert(text@.take(i as int + 1).drop_last() =~= text@.take(i as int));
            assert(text@.take(i as int + 1).last() == text@[i as int]);
        }
        acc = acc * 10 + d;
        i = i + 1;
    }
    proof {
        assert(text@.take(n as int) =~= text@);
    }
    Option::Some(acc)
}

/// What splitting a token sequence on commas yields: the runs gathered so
/// far are not part of this spec; `cur` is the run being gathered and
/// `last_comma` the span of the separator most recently consumed.  Empty
/// runs are rejected with an error pointing at the separator that exposes
/// them.
pub open spec fn spec_split_runs(
    ts: Seq<Token>,
    cur: Seq<Token>,
    last_comma: Option<Span>,
) -> Result<Seq<Seq<Token>>, ParseErrorV>
    decreases ts.len(),
{
    if ts.len() == 0 {
        if cur.len() > 0 {
            Result::Ok(seq![cur])
        } else {
            match last_comma {
                Option::Some(sp) => Result::Err(
                    ParseErrorV { span: sp, kind: ParseErrorKindV::EmptyRule },
                ),
                Option::None => Result::Ok(Seq::empty()),
            }
        }
    } else if is_comma_token(ts[0]) {
        if cur.len() == 0 {
            Result::Err(
                ParseErrorV { span: token_span(ts[0]), kind: ParseErrorKindV::EmptyRule },
            )
        } else {
            match spec_split_runs(
                ts.drop_first(),
                Seq::empty(),
                Option::Some(token_span(ts[0])),
            ) {
                Result::Ok(rest) => Result::Ok(seq![cur] + rest),
                Result::Err(e) => Result::Err(e),
            }
        }
    } else {
        spec_split_runs(ts.drop_first(), cur.push(ts[0]), last_comma)
    }
}

/// Partitions a flat token sequence into maximal runs separated by commas.
/// An empty run (a leading, doubled or trailing separator) is rejected with
/// an error pointing at the separator's span.
#[verifier::loop_isolation(false)]
pub fn split_on_commas(tokens: Vec<Token>) -> (r: Result<Vec<Vec<Token>>, ParseError>)
    ensures
        match r {
            Result::Ok(runs) => spec_split_runs(tokens@, Seq::empty(), Option::None)
                == Result::Ok::<Seq<Seq<Token>>, ParseErrorV>(runs.deep_view()),
            Result::Err(e) => spec_split_runs(tokens@, Seq::empty(), Option::None)
                == Result::Err::<Seq<Seq<Token>>, ParseErrorV>(e@),
        },
{
    let ghost full = tokens@;
    let mut rest = tokens;
    let mut runs: Vec<Vec<Token>> = Vec::new();
    let mut cur: Vec<Token> = Vec::new();
    let mut last_comma: Option<Span> = Option::None;
    proof {
        assert(runs.deep_view() =~= Seq::<Seq<Token>>::empty());
    }
    while rest.len() > 0
        invariant
            match spec_split_runs(rest@, cur@, last_comma) {
                Result::Ok(tail) => spec_split_runs(full, Seq::empty(), Option::None)
                    == Result::Ok::<Seq<Seq<Token>>, ParseErrorV>(runs.deep_view() + tail),
                Result::Err(e) => spec_split_runs(full, Seq::empty(), Option::None)
                    == Result::Err::<Seq<Seq<Token>>, ParseErrorV>(e),
            },
        decreases rest@.len(),
    {
        let ghost rest0 = rest@;
        let ghost cur0 = cur@;
        let t = rest.remove(0);
        proof {
            assert(rest0.remove(0) =~= rest0.drop_first());
            assert(t == rest0[0]);
        }
        if is_comma(&t) {
            if cur.len() == 0 {
                return Result::Err(
                    ParseError { span: span_of(&t), kind: ParseErrorKind::EmptyRule },
                );
            }
            let run = cur;
            cur = Vec::new();
            let ghost runs0 = runs.deep_view();
            runs.push(run);
            last_comma = Option::Some(span_of(&t));
            proof {
                assert(runs.deep_view() =~= runs0.push(run@)) by {
                    crate::tokens::lemma_tokens_deep_view(run);
                    assert(forall|i: int|
                        0 <= i < runs0.len() ==> runs.deep_view()[i] == runs0[i]);
                }
                match spec_split_runs(rest@, cur@, last_comma) {
                    Result::Ok(tail) => {
                        assert((runs0 + (seq![cur0] + tail)) =~= (runs0.push(cur0) + tail));
                    },
                    Result::Err(e) => {},
                }
            }
        } else {
            cur.push(t);
        }
    }
    if cur.len() > 0 {
        let run = cur;
        let ghost runs0 = runs.deep_view();
        runs.push(run);
        proof {
            assert(runs.deep_view() =~= runs0.push(run@)) by {
                crate::tokens::lemma_tokens_deep_view(run);
                assert(forall|i: int| 0 <= i < runs0.len() ==> runs.deep_view()[i] == runs0[i]);
            }
            assert((runs0 + seq![run@]) =~= runs0.push(run@));
        }
        return Result::Ok(runs);
    }
    match last_comma {
        Option::Some(sp) => Result::Err(
            ParseError { span: sp, kind: ParseErrorKind::EmptyRule },
        ),
        Option::None => {
            proof {
                assert((runs.deep_view() + Seq::<Seq<Token>>::empty()) =~= runs.deep_view());
            }
            Result::Ok(runs)
        },
    }
}

/// The token sequence a gathered section holds: the group's inner tokens,
/// or the empty sequence where the section is absent.
pub open spec fn section_or_empty(section: Option<Seq<Token>>) -> Seq<Token> {
    match section {
        Option::Some(s) => s,
        Option::None => Seq::empty(),
    }
}

/// The view of a gathered section.
pub open spec fn section_view(section: Option<Vec<Token>>) -> Option<Seq<Token>> {
    match section {
        Option::Some(v) => Option::Some(v@),
        Option::None => Option::None,
    }
}

/// What walking the top-level attribute stream yields: the inner token
/// streams of the (at most one) `sanitize(...)` group and the (at most one)
/// `validate(...)` group, in any order, either possibly absent.  `san` and
/// `val` carry the groups found so far.  Separator commas between groups
/// are skipped; an unknown section name, a second occurrence of a section,
/// or a section name not followed by a parenthesized group is an error.
pub open spec fn spec_shell(
    ts: Seq<Token>,
    san: Option<Seq<Token>>,
    val: Option<Seq<Token>>,
) -> Result<(Seq<Token>, Seq<Token>), ParseErrorV>
    decreases ts.len(),
{
    if ts.len() == 0 {
        Result::Ok((section_or_empty(san), section_or_empty(val)))
    } else if is_comma_token(ts[0]) {
        spec_shell(ts.drop_first(), san, val)
    } else {
        match ts[0] {
            Token::Ident { span, text } => {
                if text@ == "sanitize"@ || text@ == "validate"@ {
                    let taken = if text@ == "sanitize"@ {
                        san
                    } else {
                        val
                    };
                    if taken is Some {
                        Result::Err(
                            ParseErrorV {
                                span,
                                kind: ParseErrorKindV::DuplicateAttribute(text@),
                            },
                        )
                    } else if ts.len() == 1 {
                        Result::Err(ParseErrorV { span, kind: ParseErrorKindV::ExpectedGroup })
                    } else {
                        match ts[1] {
                            Token::Group {
                                delimiter: Delimiter::Parenthesis,
                                tokens,
                                ..
                            } => if text@ == "sanitize"@ {
                                spec_shell(ts.skip(2), Option::Some(tokens@), val)
                            } else {
                                spec_shell(ts.skip(2), san, Option::Some(tokens@))
                            },
                            t2 => Result::Err(
                                ParseErrorV {
                                    span: token_span(t2),
                                    kind: ParseErrorKindV::ExpectedGroup,
                                },
                            ),
                        }
                    }
                } else {
                    Result::Err(
                        ParseErrorV { span, kind: ParseErrorKindV::UnknownAttribute(text@) },
                    )
                }
            },
            t => Result::Err(
                ParseErrorV { span: token_span(t), kind: ParseErrorKindV::ExpectedIdent },
            ),
        }
    }
}

/// Locates the (at most one) `sanitize(...)` group and the (at most one)
/// `validate(...)` group in the attribute stream, in any order, and returns
/// their inner token streams; an absent group yields an empty stream.  The
/// dispatcher performs no per-family logic: the returned streams go to the
/// family's own rule parsers.
#[verifier::loop_isolation(false)]
pub fn parse_nutype_attributes(stream: Vec<Token>) -> (r: Result<
    (Vec<Token>, Vec<Token>),
    ParseError,
>)
    ensures
        match r {
            Result::Ok(streams) => spec_shell(stream@, Option::None, Option::None) == Result::Ok::<
                (Seq<Token>, Seq<Token>),
                ParseErrorV,
            >((streams.0@, streams.1@)),
            Result::Err(e) => spec_shell(stream@, Option::None, Option::None) == Result::Err::<
                (Seq<Token>, Seq<Token>),
                ParseErrorV,
            >(e@),
        },
{
    let ghost full = stream@;
    let mut rest = stream;
    let mut san: Option<Vec<Token>> = Option::None;
    let mut val: Option<Vec<Token>> = Option::None;
    proof {
        assert(rest@ =~= full);
    }
    while rest.len() > 0
        invariant
            spec_shell(full, Option::None, Option::None) == spec_shell(
                rest@,
                section_view(san),
                section_view(val),
            ),
        decreases rest@.len(),
    {
        let ghost rest0 = rest@;
        let t = rest.remove(0);
        proof {
            assert(rest0.remove(0) =~= rest0.drop_first());
            assert(t == rest0[0]);
        }
        if is_comma(&t) {
        } else {
            match t {
                Token::Ident { span, text } => {
                    let is_san = text_is(&text, "sanitize");
                    let is_val = text_is(&text, "validate");
                    if is_san || is_val {
                        let dup = if is_san {
                            san.is_some()
                        } else {
                            val.is_some()
                        };
                        if dup {
                            return Result::Err(
                                ParseError {
                                    span,
                                    kind: ParseErrorKind::DuplicateAttribute(text),
                                },
                            );
                        }
                        if rest.len() == 0 {
                            return Result::Err(
                                ParseError { span, kind: ParseErrorKind::ExpectedGroup },
                            );
                        }
                        let t2 = rest.remove(0);
                        proof {
                            assert(rest0.drop_first().remove(0) =~= rest0.skip(2));
                            assert(t2 == rest0[1]);
                        }
                        match t2 {
                            Token::Group { delimiter: Delimiter::Parenthesis, tokens, .. } => {
                                if is_san {
                                    san = Option::Some(tokens);
                                } else {
                                    val = Option::Some(tokens);
                                }
                            },
                            t2 => {
                                return Result::Err(
                                    ParseError {
                                        span: span_of(&t2),
                                        kind: ParseErrorKind::ExpectedGroup,
                                    },
                                );
                            },
                        }
                    } else {
                        return Result::Err(
                            ParseError { span, kind: ParseErrorKind::UnknownAttribute(text) },
                        );
                    }
                },
                t => {
                    return Result::Err(
                        ParseError { span: span_of(&t), kind: ParseErrorKind::ExpectedIdent },
                    );
                },
            }
        }
    }
    let san_stream = match san {
        Option::Some(v) => v,
        Option::None => Vec::new(),
    };
    let val_stream = match val {
        Option::Some(v) => v,
        Option::None => Vec::new(),
    };
    Result::Ok((san_stream, val_stream))
}

/// Whether a cursor suffix begins with a well-formed `= <integer>` argument
/// whose value fits a `u64`.
pub open spec fn num_arg_ok(args: Seq<Token>) -> bool {
    &&& args.len() >= 2
    &&& is_eq_token(args[0])
    &&& match args[1] {
        Token::Literal { text, .. } => text@.len() > 0 && all_digits(text@) && dec_val(text@)
            <= u64::MAX,
        _ => false,
    }
}

/// The value of a well-formed `= <integer>` argument.
pub open spec fn num_arg_val(args: Seq<Token>) -> u64 {
    match args[1] {
        Token::Literal { text, .. } => dec_val(text@) as u64,
        _ => 0,
    }
}

/// The error a malformed `= <integer>` argument is rejected with.
/// `rule_span` is the range of the rule name the argument belongs to; it is
/// used where the argument is missing altogether.
pub open spec fn num_arg_err(args: Seq<Token>, rule_span: Span) -> ParseErrorV {
    if args.len() == 0 {
        ParseErrorV { span: rule_span, kind: ParseErrorKindV::ExpectedEquals }
    } else if !is_eq_token(args[0]) {
        ParseErrorV { span: token_span(args[0]), kind: ParseErrorKindV::ExpectedEquals }
    } else if args.len() == 1 {
        ParseErrorV { span: token_span(args[0]), kind: ParseErrorKindV::ExpectedNumber }
    } else {
        match args[1] {
            Token::Punct { span, ch } => if ch == '-' {
                ParseErrorV { span, kind: ParseErrorKindV::NegativeNumber }
            } else {
                ParseErrorV { span, kind: ParseErrorKindV::ExpectedNumber }
            },
            Token::Literal { span, text } => if text@.len() > 0 && all_digits(text@) {
                ParseErrorV { span, kind: ParseErrorKindV::NumberTooLarge }
            } else {
                ParseErrorV { span, kind: ParseErrorKindV::ExpectedNumber }
            },
            t => ParseErrorV { span: token_span(t), kind: ParseErrorKindV::ExpectedNumber },
        }
    }
}

/// Consumes an `=` token and a single numeric literal from the cursor
/// position `pos`, and returns the literal's value together with the cursor
/// position after it.  Fails if the `=` or the literal is missing, if the
/// literal is not a run of decimal digits, if it does not fit a `u64`, or if
/// a minus sign stands where the literal was expected (a negative argument).
pub fn parse_value_as_number(tokens: &Vec<Token>, pos: usize, rule_span: Span) -> (r: Result<
    (u64, usize),
    ParseError,
>)
    requires
        pos <= tokens@.len(),
    ensures
        match r {
            Result::Ok((value, next)) => {
                &&& next == pos + 2
                &&& num_arg_ok(tokens@.skip(pos as int))
                &&& value == num_arg_val(tokens@.skip(pos as int))
            },
            Result::Err(e) => {
                &&& !num_arg_ok(tokens@.skip(pos as int))
                &&& e@ == num_arg_err(tokens@.skip(pos as int), rule_span)
            },
        },
{
    let ghost args = tokens@.skip(pos as int);
    if pos == tokens.len() {
        return Result::Err(ParseError { span: rule_span, kind: ParseErrorKind::ExpectedEquals });
    }
    let t0 = &tokens[pos];
    proof {
        assert(args[0] == tokens@[pos as int]);
    }
    if !is_eq(t0) {
        return Result::Err(
            ParseError { span: span_of(t0), kind: ParseErrorKind::ExpectedEquals },
        );
    }
    if pos + 1 == tokens.len() {
        return Result::Err(
            ParseError { span: span_of(t0), kind: ParseErrorKind::ExpectedNumber },
        );
    }
    let t1 = &tokens[pos + 1];
    proof {
        assert(args[1] == tokens@[pos as int + 1]);
    }
    match t1 {
        Token::Punct { span, ch } => {
            if *ch == '-' {
                Result::Err(ParseError { span: *span, kind: ParseErrorKind::NegativeNumber })
            } else {
                Result::Err(ParseError { span: *span, kind: ParseErrorKind::ExpectedNumber })
            }
        },
        Token::Literal { span, text } => {
            if !is_decimal(text.as_str()) {
                Result::Err(ParseError { span: *span, kind: ParseErrorKind::ExpectedNumber })
            } else {
                match decimal_value(text.as_str()) {
                    Option::Some(v) => Result::Ok((v, pos + 2)),
                    Option::None => Result::Err(
                        ParseError { span: *span, kind: ParseErrorKind::NumberTooLarge },
                    ),
                }
            }
        },
        _ => Result::Err(
            ParseError { span: span_of(t1), kind: ParseErrorKind::ExpectedNumber },
        ),
    }
}

} // verus!
