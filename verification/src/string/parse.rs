//! Rule parsers of the text family: sanitizer rules are parsed per
//! comma-separated run; validator rules are parsed by repeated consumption
//! from one shared cursor, because a bare rule (`present`) must not consume
//! the separator meant for the next rule.

use vstd::prelude::*;

use crate::common::{
    all_digits, dec_val, is_comma, is_eq, num_arg_err, num_arg_ok, num_arg_val,
    parse_nutype_attributes, parse_value_as_number, spec_shell, spec_split_runs, split_on_commas,
    text_is,
};
use crate::errors::{ParseError, ParseErrorKind, ParseErrorKindV, ParseErrorV};
use crate::models::RawNewtypeMeta;
use crate::string::models::{
    NewtypeStringMeta, RawNewtypeStringMeta, RawStringMetaV, SpannedStringSanitizer,
    SpannedStringSanitizerV, SpannedStringValidator, StringMetaV, StringSanitizer,
    StringSanitizerV, StringValidator,
};
use crate::string::validate::{
    lemma_validation_succeeds, no_duplicate_rules, satisfiable_bounds, spec_strip_sanitizers,
    spec_strip_validators, spec_validate_string_meta, validate_string_meta,
};
use crate::tokens::{is_comma_token, is_eq_token, span_of, token_span, Delimiter, Span, Token};

verus! {

/// What parsing one comma-separated run as a sanitizer rule yields.  The
/// run must start with a rule-name identifier; `with` requires an `=` and
/// keeps every following token as an opaque custom payload; the bare rules
/// ignore trailing tokens, preserving the leniency of the attribute grammar.
pub open spec fn spec_parse_sanitize_attr(run: Seq<Token>) -> Result<
    SpannedStringSanitizerV,
    ParseErrorV,
> {
    if run.len() == 0 {
        Result::Err(
            ParseErrorV { span: Span { lo: 0, hi: 0 }, kind: ParseErrorKindV::ExpectedIdent },
        )
    } else {
        match run[0] {
            Token::Ident { span, text } => {
                if text@ == "trim"@ {
                    Result::Ok(SpannedStringSanitizerV { span, item: StringSanitizerV::Trim })
                } else if text@ == "lowercase"@ {
                    Result::Ok(SpannedStringSanitizerV { span, item: StringSanitizerV::Lowercase })
                } else if text@ == "uppercase"@ {
                    Result::Ok(SpannedStringSanitizerV { span, item: StringSanitizerV::Uppercase })
                } else if text@ == "with"@ {
                    if run.len() == 1 {
                        Result::Err(ParseErrorV { span, kind: ParseErrorKindV::ExpectedEquals })
                    } else if !is_eq_token(run[1]) {
                        Result::Err(
                            ParseErrorV {
                                span: Span { lo: span.lo, hi: token_span(run[1]).hi },
                                kind: ParseErrorKindV::ExpectedEquals,
                            },
                        )
                    } else {
                        Result::Ok(
                            SpannedStringSanitizerV {
                                span,
                                item: StringSanitizerV::With(run.skip(2)),
                            },
                        )
                    }
                } else {
                    Result::Err(
                        ParseErrorV { span, kind: ParseErrorKindV::UnknownSanitizer(text@) },
                    )
                }
            },
            t => Result::Err(
                ParseErrorV { span: token_span(t), kind: ParseErrorKindV::ExpectedIdent },
            ),
        }
    }
}

/// Parses one comma-separated run as a sanitizer rule.
pub fn parse_sanitize_attr(tokens: Vec<Token>) -> (r: Result<SpannedStringSanitizer, ParseError>)
    ensures
        match r {
            Result::Ok(s) => spec_parse_sanitize_attr(tokens@) == Result::Ok::<
                SpannedStringSanitizerV,
                ParseErrorV,
            >(s@),
            Result::Err(e) => spec_parse_sanitize_attr(tokens@) == Result::Err::<
                SpannedStringSanitizerV,
                ParseErrorV,
            >(e@),
        },
{
    let ghost run0 = tokens@;
    let mut run = tokens;
    if run.len() == 0 {
        return Result::Err(
            ParseError { span: Span { lo: 0, hi: 0 }, kind: ParseErrorKind::ExpectedIdent },
        );
    }
    let t0 = run.remove(0);
    proof {
        assert(run0.remove(0) =~= run0.drop_first());
    }
    match t0 {
        Token::Ident { span, text } => {
            if text_is(&text, "trim") {
                Result::Ok(SpannedStringSanitizer { span, item: StringSanitizer::Trim })
            } else if text_is(&text, "lowercase") {
                Result::Ok(SpannedStringSanitizer { span, item: StringSanitizer::Lowercase })
            } else if text_is(&text, "uppercase") {
                Result::Ok(SpannedStringSanitizer { span, item: StringSanitizer::Uppercase })
            } else if text_is(&text, "with") {
                if run.len() == 0 {
                    return Result::Err(
                        ParseError { span, kind: ParseErrorKind::ExpectedEquals },
                    );
                }
                let t1 = run.remove(0);
                proof {
                    assert(run0.drop_first().remove(0) =~= run0.skip(2));
                    assert(t1 == run0[1]);
                }
                if !is_eq(&t1) {
                    return Result::Err(
                        ParseError {
                            span: Span { lo: span.lo, hi: span_of(&t1).hi },
                            kind: ParseErrorKind::ExpectedEquals,
                        },
                    );
                }
                Result::Ok(SpannedStringSanitizer { span, item: StringSanitizer::With(run) })
            } else {
                Result::Err(ParseError { span, kind: ParseErrorKind::UnknownSanitizer(text) })
            }
        },
        t => Result::Err(
            ParseError { span: span_of(&t), kind: ParseErrorKind::ExpectedIdent },
        ),
    }
}

/// What parsing each run of a split sanitizer section yields: the parsed
/// rules in run order, or the first error.
pub open spec fn spec_parse_sanitize_runs(runs: Seq<Seq<Token>>) -> Result<
    Seq<SpannedStringSanitizerV>,
    ParseErrorV,
>
    decreases runs.len(),
{
    if runs.len() == 0 {
        Result::Ok(Seq::empty())
    } else {
        match spec_parse_sanitize_attr(runs[0]) {
            Result::Err(e) => Result::Err(e),
            Result::Ok(s) => match spec_parse_sanitize_runs(runs.drop_first()) {
                Result::Ok(more) => Result::Ok(seq![s] + more),
                Result::Err(e) => Result::Err(e),
            },
        }
    }
}

/// What parsing a whole `sanitize(...)` section yields: the section is
/// split on commas, and each run is parsed as one sanitizer rule.
pub open spec fn spec_parse_sanitizers(ts: Seq<Token>) -> Result<
    Seq<SpannedStringSanitizerV>,
    ParseErrorV,
> {
    match spec_split_runs(ts, Seq::empty(), Option::None) {
        Result::Ok(runs) => spec_parse_sanitize_runs(runs),
        Result::Err(e) => Result::Err(e),
    }
}

/// Parses the inner token stream of a `sanitize(...)` section into spanned
/// sanitizer rules, in declaration order.
#[verifier::loop_isolation(false)]
pub fn parse_sanitize_attrs(stream: Vec<Token>) -> (r: Result<
    Vec<SpannedStringSanitizer>,
    ParseError,
>)
    ensures
        match r {
            Result::Ok(v) => spec_parse_sanitizers(stream@) == Result::Ok::<
                Seq<SpannedStringSanitizerV>,
                ParseErrorV,
            >(v.deep_view()),
            Result::Err(e) => spec_parse_sanitizers(stream@) == Result::Err::<
                Seq<SpannedStringSanitizerV>,
                ParseErrorV,
            >(e@),
        },
{
    let ghost ts = stream@;
    let runs = match split_on_commas(stream) {
        Result::Ok(rs) => rs,
        Result::Err(e) => {
            return Result::Err(e);
        },
    };
    let ghost all_runs = runs.deep_view();
    let mut runs = runs;
    let mut out: Vec<SpannedStringSanitizer> = Vec::new();
    proof {
        assert(out.deep_view() =~= Seq::<SpannedStringSanitizerV>::empty());
    }
    while runs.len() > 0
        invariant
            match spec_parse_sanitize_runs(runs.deep_view()) {
                Result::Ok(more) => spec_parse_sanitize_runs(all_runs) == Result::Ok::<
                    Seq<SpannedStringSanitizerV>,
                    ParseErrorV,
                >(out.deep_view() + more),
                Result::Err(e) => spec_parse_sanitize_runs(all_runs) == Result::Err::<
                    Seq<SpannedStringSanitizerV>,
                    ParseErrorV,
                >(e),
            },
        decreases runs@.len(),
    {
        let ghost runs0 = runs.deep_view();
        let ghost rvec0 = runs@;
        let run = runs.remove(0);
        proof {
            assert(rvec0.remove(0) =~= rvec0.drop_first());
            assert(runs.deep_view() =~= runs0.drop_first()) by {
                assert(forall|i: int|
                    0 <= i < runs@.len() ==> runs.deep_view()[i] == #[trigger] runs@[i].deep_view()
                        && runs@[i] == rvec0[i + 1]);
            }
            crate::tokens::lemma_tokens_deep_view(run);
            assert(runs0[0] == run@);
        }
        match parse_sanitize_attr(run) {
            Result::Ok(s) => {
                let ghost out0 = out.deep_view();
                out.push(s);
                proof {
                    assert(out.deep_view() =~= out0.push(s@)) by {
                        assert(forall|i: int|
                            0 <= i < out0.len() ==> out.deep_view()[i] == out0[i]);
                    }
                    match spec_parse_sanitize_runs(runs.deep_view()) {
                        Result::Ok(more) => {
                            assert((out0 + (seq![s@] + more)) =~= (out0.push(s@) + more));
                        },
                        Result::Err(e) => {},
                    }
                }
            },
            Result::Err(e) => {
                return Result::Err(e);
            },
        }
    }
    proof {
        assert(runs.deep_view() =~= Seq::<Seq<Token>>::empty());
        assert((out.deep_view() + Seq::<SpannedStringSanitizerV>::empty()) =~= out.deep_view());
    }
    Result::Ok(out)
}

/// What parsing a whole `validate(...)` section yields.  At each step one
/// separator comma may be skipped; the next token must be a rule-name
/// identifier; `max_len` and `min_len` consume an `= <integer>` argument,
/// `present` consumes nothing further.  A trailing separator ends the
/// section.
pub open spec fn spec_parse_validators(ts: Seq<Token>) -> Result<
    Seq<SpannedStringValidator>,
    ParseErrorV,
>
    decreases ts.len(),
{
    if ts.len() == 0 {
        Result::Ok(Seq::empty())
    } else {
        let rest = if is_comma_token(ts[0]) {
            ts.drop_first()
        } else {
            ts
        };
        if rest.len() == 0 {
            Result::Ok(Seq::empty())
        } else {
            match rest[0] {
                Token::Ident { span, text } => {
                    if text@ == "max_len"@ || text@ == "min_len"@ {
                        let args = rest.drop_first();
                        if !num_arg_ok(args) {
                            Result::Err(num_arg_err(args, span))
                        } else {
                            let item = if text@ == "max_len"@ {
                                StringValidator::MaxLen(num_arg_val(args))
                            } else {
                                StringValidator::MinLen(num_arg_val(args))
                            };
                            match spec_parse_validators(rest.skip(3)) {
                                Result::Ok(more) => Result::Ok(
                                    seq![SpannedStringValidator { span, item }] + more,
                                ),
                                Result::Err(e) => Result::Err(e),
                            }
                        }
                    } else if text@ == "present"@ {
                        match spec_parse_validators(rest.drop_first()) {
                            Result::Ok(more) => Result::Ok(
                                seq![
                                    SpannedStringValidator {
                                        span,
                                        item: StringValidator::Present,
                                    },
                                ] + more,
                            ),
                            Result::Err(e) => Result::Err(e),
                        }
                    } else {
                        Result::Err(
                            ParseErrorV { span, kind: ParseErrorKindV::UnknownValidator(text@) },
                        )
                    }
                },
                t => Result::Err(
                    ParseErrorV { span: token_span(t), kind: ParseErrorKindV::ExpectedIdent },
                ),
            }
        }
    }
}

/// Parses the inner token stream of a `validate(...)` section into spanned
/// validator rules, in declaration order.
#[verifier::loop_isolation(false)]
pub fn parse_validate_attrs(stream: Vec<Token>) -> (r: Result<
    Vec<SpannedStringValidator>,
    ParseError,
>)
    ensures
        match r {
            Result::Ok(v) => spec_parse_validators(stream@) == Result::Ok::<
                Seq<SpannedStringValidator>,
                ParseErrorV,
            >(v@),
            Result::Err(e) => spec_parse_validators(stream@) == Result::Err::<
                Seq<SpannedStringValidator>,
                ParseErrorV,
            >(e@),
        },
{
    let ghost ts = stream@;
    let mut out: Vec<SpannedStringValidator> = Vec::new();
    let mut i: usize = 0;
    proof {
        assert(ts.skip(0) =~= ts);
        match spec_parse_validators(ts) {
            Result::Ok(more) => {
                assert((out@ + more) =~= more);
            },
            Result::Err(e) => {},
        }
    }
    while i < stream.len()
        invariant
            i <= ts.len(),
            stream@ == ts,
            match spec_parse_validators(ts.skip(i as int)) {
                Result::Ok(more) => spec_parse_validators(ts) == Result::Ok::<
                    Seq<SpannedStringValidator>,
                    ParseErrorV,
                >(out@ + more),
                Result::Err(e) => spec_parse_validators(ts) == Result::Err::<
                    Seq<SpannedStringValidator>,
                    ParseErrorV,
                >(e),
            },
        decreases ts.len() - i,
    {
        let ghost i0 = i as int;
        let ghost suffix = ts.skip(i0);
        let start: usize = if is_comma(&stream[i]) {
            i + 1
        } else {
            i
        };
        let ghost rest = ts.skip(start as int);
        proof {
            assert(suffix[0] == ts[i0]);
            assert(suffix.drop_first() =~= ts.skip(i0 + 1));
            if is_comma_token(suffix[0]) {
                assert(rest =~= suffix.drop_first());
            } else {
                assert(rest =~= suffix);
            }
        }
        if start == stream.len() {
            proof {
                assert((out@ + Seq::<SpannedStringValidator>::empty()) =~= out@);
            }
            return Result::Ok(out);
        }
        match &stream[start] {
            Token::Ident { span, text } => {
                let span = *span;
                proof {
                    assert(rest[0] == ts[start as int]);
                    assert(rest.drop_first() =~= ts.skip(start as int + 1));
                }
                let is_max = text_is(text, "max_len");
                let is_min = text_is(text, "min_len");
                if is_max || is_min {
                    match parse_value_as_number(&stream, start + 1, span) {
                        Result::Ok((value, next)) => {
                            let item = if is_max {
                                StringValidator::MaxLen(value)
                            } else {
                                StringValidator::MinLen(value)
                            };
                            let ghost out0 = out@;
                            out.push(SpannedStringValidator { span, item });
                            i = next;
                            proof {
                                assert(rest.skip(3) =~= ts.skip(i as int));
                                match spec_parse_validators(ts.skip(i as int)) {
                                    Result::Ok(more) => {
                                        assert((out0 + (seq![
                                            SpannedStringValidator { span, item },
                                        ] + more)) =~= (out@ + more));
                                    },
                                    Result::Err(e) => {},
                                }
                            }
                        },
                        Result::Err(e) => {
                            return Result::Err(e);
                        },
                    }
                } else if text_is(text, "present") {
                    let ghost out0 = out@;
                    out.push(SpannedStringValidator { span, item: StringValidator::Present });
                    i = start + 1;
                    proof {
                        match spec_parse_validators(ts.skip(i as int)) {
                            Result::Ok(more) => {
                                assert((out0 + (seq![
                                    SpannedStringValidator {
                                        span,
                                        item: StringValidator::Present,
                                    },
                                ] + more)) =~= (out@ + more));
                            },
                            Result::Err(e) => {},
                        }
                    }
                } else {
                    return Result::Err(
                        ParseError {
                            span,
                            kind: ParseErrorKind::UnknownValidator(text.clone()),
                        },
                    );
                }
            },
            t => {
                return Result::Err(
                    ParseError { span: span_of(t), kind: ParseErrorKind::ExpectedIdent },
                );
            },
        }
    }
    proof {
        assert(ts.skip(ts.len() as int) =~= Seq::<Token>::empty());
        assert((out@ + Seq::<SpannedStringValidator>::empty()) =~= out@);
    }
    Result::Ok(out)
}

/// What parsing the whole attribute stream into the raw rule set yields:
/// the stream is split into its two sections, the sanitize section's error
/// comes before the validate section's.
pub open spec fn spec_parse_raw_attributes(ts: Seq<Token>) -> Result<
    RawStringMetaV,
    ParseErrorV,
> {
    match spec_shell(ts, Option::None, Option::None) {
        Result::Err(e) => Result::Err(e),
        Result::Ok(streams) => match spec_parse_sanitizers(streams.0) {
            Result::Err(e) => Result::Err(e),
            Result::Ok(sans) => match spec_parse_validators(streams.1) {
                Result::Err(e) => Result::Err(e),
                Result::Ok(vals) => Result::Ok(
                    RawStringMetaV { sanitizers: sans, validators: vals },
                ),
            },
        },
    }
}

/// Parses the whole attribute stream attached to a type into the raw rule
/// set of the text family, in declaration order.
pub fn parse_raw_attributes(stream: Vec<Token>) -> (r: Result<RawNewtypeStringMeta, ParseError>)
    ensures
        match r {
            Result::Ok(raw) => spec_parse_raw_attributes(stream@) == Result::Ok::<
                RawStringMetaV,
                ParseErrorV,
            >(raw@),
            Result::Err(e) => spec_parse_raw_attributes(stream@) == Result::Err::<
                RawStringMetaV,
                ParseErrorV,
            >(e@),
        },
{
    let streams = match parse_nutype_attributes(stream) {
        Result::Ok(streams) => streams,
        Result::Err(e) => {
            return Result::Err(e);
        },
    };
    let (san_stream, val_stream) = streams;
    let sanitizers = match parse_sanitize_attrs(san_stream) {
        Result::Ok(sans) => sans,
        Result::Err(e) => {
            return Result::Err(e);
        },
    };
    let validators = match parse_validate_attrs(val_stream) {
        Result::Ok(vals) => vals,
        Result::Err(e) => {
            return Result::Err(e);
        },
    };
    Result::Ok(RawNewtypeMeta { sanitizers, validators })
}

/// What parsing followed by semantic validation yields.
pub open spec fn spec_parse_attributes(ts: Seq<Token>) -> Result<StringMetaV, ParseErrorV> {
    match spec_parse_raw_attributes(ts) {
        Result::Ok(raw) => spec_validate_string_meta(raw),
        Result::Err(e) => Result::Err(e),
    }
}

/// Parses the attribute stream attached to a type and validates the parsed
/// rule set, yielding the model code emission consumes: the first parse or
/// validation error, or the validated model with rule order preserved.
pub fn parse_attributes(stream: Vec<Token>) -> (r: Result<NewtypeStringMeta, ParseError>)
    ensures
        match r {
            Result::Ok(m) => spec_parse_attributes(stream@) == Result::Ok::<
                StringMetaV,
                ParseErrorV,
            >(m@),
            Result::Err(e) => spec_parse_attributes(stream@) == Result::Err::<
                StringMetaV,
                ParseErrorV,
            >(e@),
        },
{
    match parse_raw_attributes(stream) {
        Result::Ok(raw) => validate_string_meta(raw),
        Result::Err(e) => Result::Err(e),
    }
}

/// The number of tokens one validator rule occupies in the grammar.
pub open spec fn rule_len(v: SpannedStringValidator) -> int {
    match v.item {
        StringValidator::MaxLen(_) => 3,
        StringValidator::MinLen(_) => 3,
        StringValidator::Present => 1,
    }
}

/// Whether `run` spells exactly the validator rule `v`: its rule-name
/// identifier carrying the rule's span, and for the length rules an `=`
/// sign followed by a decimal literal spelling the bound.
pub open spec fn spells_rule(run: Seq<Token>, v: SpannedStringValidator) -> bool {
    &&& run.len() == rule_len(v)
    &&& (run[0] matches Token::Ident { span, text } && span == v.span && text@ == (match v.item {
        StringValidator::MaxLen(_) => "max_len"@,
        StringValidator::MinLen(_) => "min_len"@,
        StringValidator::Present => "present"@,
    }))
    &&& match v.item {
        StringValidator::MaxLen(m) => is_eq_token(run[1]) && (run[2] matches Token::Literal {
            text,
            ..
        } && text@.len() > 0 && all_digits(text@) && dec_val(text@) == m),
        StringValidator::MinLen(n) => is_eq_token(run[1]) && (run[2] matches Token::Literal {
            text,
            ..
        } && text@.len() > 0 && all_digits(text@) && dec_val(text@) == n),
        StringValidator::Present => true,
    }
}

/// Whether `ts` spells the validator rules `vals` in declaration order,
/// separated by single commas.
pub open spec fn spells_validators(ts: Seq<Token>, vals: Seq<SpannedStringValidator>) -> bool
    decreases vals.len(),
{
    if vals.len() == 0 {
        ts.len() == 0
    } else {
        let k = rule_len(vals[0]);
        &&& ts.len() >= k
        &&& spells_rule(ts.take(k), vals[0])
        &&& if vals.len() == 1 {
            ts.len() == k
        } else {
            ts.len() > k && is_comma_token(ts[k]) && spells_validators(
                ts.skip(k + 1),
                vals.drop_first(),
            )
        }
    }
}

/// A single separator comma before a rule does not change what the
/// validator parser yields.
proof fn lemma_parse_after_comma(ts: Seq<Token>)
    requires
        ts.len() >= 2,
        is_comma_token(ts[0]),
        !is_comma_token(ts[1]),
    ensures
        spec_parse_validators(ts) == spec_parse_validators(ts.drop_first()),
{
    let rest = ts.drop_first();
    assert(rest.len() > 0);
    assert(rest[0] == ts[1]);
    assert(rest.drop_first() =~= rest.drop_first());
    assert(spec_parse_validators(ts) == spec_parse_validators(rest));
}

/// Law: the validator parser accepts every well-spelled rule sequence and
/// yields exactly those rules, in declaration order.
pub proof fn lemma_parse_validators_complete(ts: Seq<Token>, vals: Seq<SpannedStringValidator>)
    requires
        spells_validators(ts, vals),
    ensures
        spec_parse_validators(ts) == Result::Ok::<Seq<SpannedStringValidator>, ParseErrorV>(vals),
    decreases vals.len(),
{
    reveal_strlit("max_len");
    reveal_strlit("min_len");
    reveal_strlit("present");
    assert(("min_len"@)[1] == 'i' && ("max_len"@)[1] == 'a');
    assert(("present"@)[0] == 'p' && ("max_len"@)[0] == 'm' && ("min_len"@)[0] == 'm');
    assert("min_len"@ != "max_len"@);
    assert("present"@ != "max_len"@ && "present"@ != "min_len"@);
    if vals.len() == 0 {
        assert(vals =~= Seq::<SpannedStringValidator>::empty());
    } else {
        let v = vals[0];
        let k = rule_len(v);
        let run = ts.take(k);
        assert(run[0] == ts[0]);
        assert(!is_comma_token(ts[0]));
        let tail_vals = vals.drop_first();
        if vals.len() == 1 {
            assert(ts.len() == k);
        } else {
            assert(spells_validators(ts.skip(k + 1), tail_vals));
            assert(tail_vals.len() > 0);
            assert(ts.skip(k + 1).take(rule_len(tail_vals[0]))[0] == ts.skip(k + 1)[0]);
            assert(!is_comma_token(ts[k + 1])) by {
                assert(ts.skip(k + 1)[0] == ts[k + 1]);
            }
        }
        match v.item {
            StringValidator::MaxLen(m) => {
                let args = ts.drop_first();
                assert(run[1] == ts[1] && args[0] == ts[1]);
                assert(run[2] == ts[2] && args[1] == ts[2]);
                assert(num_arg_ok(args));
                assert(num_arg_val(args) == m);
                assert(SpannedStringValidator { span: v.span, item: StringValidator::MaxLen(m) }
                    == v);
                if vals.len() == 1 {
                    assert(ts.skip(3) =~= Seq::<Token>::empty());
                    assert(spec_parse_validators(ts.skip(3)) == Result::Ok::<
                        Seq<SpannedStringValidator>,
                        ParseErrorV,
                    >(Seq::empty()));
                    assert((seq![v] + Seq::<SpannedStringValidator>::empty()) =~= vals);
                } else {
                    lemma_parse_validators_complete(ts.skip(4), tail_vals);
                    assert(ts.skip(3).len() >= 2) by {
                        assert(ts.skip(4).len() >= rule_len(tail_vals[0]));
                    }
                    assert(is_comma_token(ts.skip(3)[0]));
                    assert(!is_comma_token(ts.skip(3)[1])) by {
                        assert(ts.skip(3)[1] == ts[4]);
                        assert(ts.skip(4)[0] == ts[4]);
                        assert(spells_rule(
                            ts.skip(4).take(rule_len(tail_vals[0])),
                            tail_vals[0],
                        ));
                        assert(ts.skip(4).take(rule_len(tail_vals[0]))[0] == ts[4]);
                    }
                    lemma_parse_after_comma(ts.skip(3));
                    assert(ts.skip(3).drop_first() =~= ts.skip(4));
                    assert((seq![v] + tail_vals) =~= vals);
                }
            },
            StringValidator::MinLen(n) => {
                let args = ts.drop_first();
                assert(run[1] == ts[1] && args[0] == ts[1]);
                assert(run[2] == ts[2] && args[1] == ts[2]);
                assert(num_arg_ok(args));
                assert(num_arg_val(args) == n);
                assert(SpannedStringValidator { span: v.span, item: StringValidator::MinLen(n) }
                    == v);
                if vals.len() == 1 {
                    assert(ts.skip(3) =~= Seq::<Token>::empty());
                    assert(spec_parse_validators(ts.skip(3)) == Result::Ok::<
                        Seq<SpannedStringValidator>,
                        ParseErrorV,
                    >(Seq::empty()));
                    assert((seq![v] + Seq::<SpannedStringValidator>::empty()) =~= vals);
                } else {
                    lemma_parse_validators_complete(ts.skip(4), tail_vals);
                    assert(ts.skip(3).len() >= 2) by {
                        assert(ts.skip(4).len() >= rule_len(tail_vals[0]));
                    }
                    assert(is_comma_token(ts.skip(3)[0]));
                    assert(!is_comma_token(ts.skip(3)[1])) by {
                        assert(ts.skip(3)[1] == ts[4]);
                        assert(ts.skip(4)[0] == ts[4]);
                        assert(spells_rule(
                            ts.skip(4).take(rule_len(tail_vals[0])),
                            tail_vals[0],
                        ));
                        assert(ts.skip(4).take(rule_len(tail_vals[0]))[0] == ts[4]);
                    }
                    lemma_parse_after_comma(ts.skip(3));
                    assert(ts.skip(3).drop_first() =~= ts.skip(4));
                    assert((seq![v] + tail_vals) =~= vals);
                }
            },
            StringValidator::Present => {
                assert(SpannedStringValidator { span: v.span, item: StringValidator::Present }
                    == v);
                if vals.len() == 1 {
                    assert(ts.drop_first() =~= Seq::<Token>::empty());
                    assert(spec_parse_validators(ts.drop_first()) == Result::Ok::<
                        Seq<SpannedStringValidator>,
                        ParseErrorV,
                    >(Seq::empty()));
                    assert((seq![v] + Seq::<SpannedStringValidator>::empty()) =~= vals);
                } else {
                    lemma_parse_validators_complete(ts.skip(2), tail_vals);
                    assert(ts.drop_first().len() >= 2) by {
                        assert(ts.skip(2).len() >= rule_len(tail_vals[0]));
                    }
                    assert(ts.drop_first() =~= ts.skip(1));
                    assert(is_comma_token(ts.skip(1)[0]));
                    assert(!is_comma_token(ts.skip(1)[1])) by {
                        assert(ts.skip(1)[1] == ts[2]);
                        assert(ts.skip(2)[0] == ts[2]);
                        assert(spells_rule(
                            ts.skip(2).take(rule_len(tail_vals[0])),
                            tail_vals[0],
                        ));
                        assert(ts.skip(2).take(rule_len(tail_vals[0]))[0] == ts[2]);
                    }
                    lemma_parse_after_comma(ts.skip(1));
                    assert(ts.skip(1).drop_first() =~= ts.skip(2));
                    assert((seq![v] + tail_vals) =~= vals);
                }
            },
        }
    }
}

/// Law: a validator section that spells out rules with no duplicate
/// single-occurrence rule and a satisfiable length range parses
/// successfully, passes semantic validation, and the validated model lists
/// the rules in their declaration order, spans stripped.
pub proof fn lemma_valid_rules_accepted(
    ts: Seq<Token>,
    vals: Seq<SpannedStringValidator>,
    sanitizers: Seq<SpannedStringSanitizerV>,
)
    requires
        spells_validators(ts, vals),
        no_duplicate_rules(vals),
        satisfiable_bounds(vals),
    ensures
        spec_parse_validators(ts) == Result::Ok::<Seq<SpannedStringValidator>, ParseErrorV>(vals),
        spec_validate_string_meta(RawStringMetaV { sanitizers, validators: vals })
            == Result::Ok::<StringMetaV, ParseErrorV>(
            if vals.len() == 0 {
                StringMetaV::Infallible { sanitizers: spec_strip_sanitizers(sanitizers) }
            } else {
                StringMetaV::Fallible {
                    sanitizers: spec_strip_sanitizers(sanitizers),
                    validators: spec_strip_validators(vals),
                }
            },
        ),
{
    lemma_parse_validators_complete(ts, vals);
    lemma_validation_succeeds(RawStringMetaV { sanitizers, validators: vals });
}

/// The runs joined by single separator commas.
pub open spec fn join_runs(runs: Seq<Seq<Token>>, comma: Token) -> Seq<Token>
    decreases runs.len(),
{
    if runs.len() == 0 {
        Seq::empty()
    } else if runs.len() == 1 {
        runs[0]
    } else {
        runs[0] + seq![comma] + join_runs(runs.drop_first(), comma)
    }
}

/// Whether a run holds no separator comma.
pub open spec fn comma_free(run: Seq<Token>) -> bool {
    forall|i: int| 0 <= i < run.len() ==> !is_comma_token(#[trigger] run[i])
}

/// Whether `run` spells exactly the sanitizer rule `s`: the bare rules as
/// their name identifier alone, `with` as its name, an `=` sign and the
/// custom payload (which must hold no top-level comma, or splitting would
/// cut it apart).
pub open spec fn spells_sanitizer(run: Seq<Token>, s: SpannedStringSanitizerV) -> bool {
    match s.item {
        StringSanitizerV::Trim => run.len() == 1 && (run[0] matches Token::Ident { span, text }
            && span == s.span && text@ == "trim"@),
        StringSanitizerV::Lowercase => run.len() == 1 && (run[0] matches Token::Ident {
            span,
            text,
        } && span == s.span && text@ == "lowercase"@),
        StringSanitizerV::Uppercase => run.len() == 1 && (run[0] matches Token::Ident {
            span,
            text,
        } && span == s.span && text@ == "uppercase"@),
        StringSanitizerV::With(payload) => run.len() >= 2 && (run[0] matches Token::Ident {
            span,
            text,
        } && span == s.span && text@ == "with"@) && is_eq_token(run[1]) && run.skip(2) == payload
            && comma_free(payload),
    }
}

/// Splitting walks over a comma-free prefix, gathering it into the current
/// run.
proof fn lemma_split_prefix(run: Seq<Token>, tail: Seq<Token>, cur: Seq<Token>, lc: Option<Span>)
    requires
        comma_free(run),
    ensures
        spec_split_runs(run + tail, cur, lc) == spec_split_runs(tail, cur + run, lc),
    decreases run.len(),
{
    if run.len() == 0 {
        assert(run + tail =~= tail);
        assert(cur + run =~= cur);
    } else {
        let ts = run + tail;
        assert(ts[0] == run[0]);
        assert(!is_comma_token(ts[0]));
        assert(ts.drop_first() =~= run.drop_first() + tail);
        assert(comma_free(run.drop_first())) by {
            assert(forall|i: int| 0 <= i < run.len() - 1 ==> #[trigger] run.drop_first()[i]
                == run[i + 1]);
        }
        lemma_split_prefix(run.drop_first(), tail, cur.push(run[0]), lc);
        assert((cur.push(run[0]) + run.drop_first()) =~= (cur + run));
    }
}

/// Splitting accepts comma-separated non-empty comma-free runs and yields
/// exactly those runs.
proof fn lemma_split_complete(runs: Seq<Seq<Token>>, comma: Token, lc: Option<Span>)
    requires
        is_comma_token(comma),
        forall|i: int|
            0 <= i < runs.len() ==> (#[trigger] runs[i]).len() > 0 && comma_free(runs[i]),
        runs.len() > 0 || lc is None,
    ensures
        spec_split_runs(join_runs(runs, comma), Seq::empty(), lc) == Result::Ok::<
            Seq<Seq<Token>>,
            ParseErrorV,
        >(runs),
    decreases runs.len(),
{
    if runs.len() == 0 {
        assert(runs =~= Seq::<Seq<Token>>::empty());
    } else if runs.len() == 1 {
        lemma_split_prefix(runs[0], Seq::empty(), Seq::empty(), lc);
        assert((runs[0] + Seq::<Token>::empty()) =~= runs[0]);
        assert((Seq::<Token>::empty() + runs[0]) =~= runs[0]);
        assert(seq![runs[0]] =~= runs);
    } else {
        let jr = join_runs(runs.drop_first(), comma);
        let after = seq![comma] + jr;
        assert((runs[0] + seq![comma] + jr) =~= (runs[0] + after));
        lemma_split_prefix(runs[0], after, Seq::empty(), lc);
        assert((Seq::<Token>::empty() + runs[0]) =~= runs[0]);
        assert(after[0] == comma);
        assert(after.drop_first() =~= jr);
        assert(forall|i: int|
            0 <= i < runs.len() - 1 ==> #[trigger] runs.drop_first()[i] == runs[i + 1]);
        lemma_split_complete(runs.drop_first(), comma, Option::Some(token_span(comma)));
        assert((seq![runs[0]] + runs.drop_first()) =~= runs);
    }
}

/// The sanitizer-rule parser accepts every well-spelled run and yields
/// exactly its rule.
proof fn lemma_parse_sanitize_attr_complete(run: Seq<Token>, s: SpannedStringSanitizerV)
    requires
        spells_sanitizer(run, s),
    ensures
        spec_parse_sanitize_attr(run) == Result::Ok::<SpannedStringSanitizerV, ParseErrorV>(s),
{
    reveal_strlit("trim");
    reveal_strlit("lowercase");
    reveal_strlit("uppercase");
    reveal_strlit("with");
    assert("trim"@.len() == 4 && "with"@.len() == 4 && "lowercase"@.len() == 9 && "uppercase"@.len()
        == 9);
    assert(("trim"@)[0] == 't' && ("with"@)[0] == 'w' && ("lowercase"@)[0] == 'l' && ("uppercase"@)[
        0] == 'u');
    match s.item {
        StringSanitizerV::Trim => {},
        StringSanitizerV::Lowercase => {},
        StringSanitizerV::Uppercase => {},
        StringSanitizerV::With(payload) => {
            assert(SpannedStringSanitizerV {
                span: s.span,
                item: StringSanitizerV::With(run.skip(2)),
            } == s);
        },
    }
}

/// Parsing each run of a well-spelled sequence of runs yields exactly the
/// spelled rules, in run order.
proof fn lemma_parse_sanitize_runs_complete(
    runs: Seq<Seq<Token>>,
    sans: Seq<SpannedStringSanitizerV>,
)
    requires
        runs.len() == sans.len(),
        forall|i: int| 0 <= i < runs.len() ==> spells_sanitizer(#[trigger] runs[i], sans[i]),
    ensures
        spec_parse_sanitize_runs(runs) == Result::Ok::<Seq<SpannedStringSanitizerV>, ParseErrorV>(
            sans,
        ),
    decreases runs.len(),
{
    if runs.len() == 0 {
        assert(sans =~= Seq::<SpannedStringSanitizerV>::empty());
    } else {
        lemma_parse_sanitize_attr_complete(runs[0], sans[0]);
        assert(forall|i: int|
            0 <= i < runs.len() - 1 ==> #[trigger] runs.drop_first()[i] == runs[i + 1]
                && sans.drop_first()[i] == sans[i + 1]);
        lemma_parse_sanitize_runs_complete(runs.drop_first(), sans.drop_first());
        assert((seq![sans[0]] + sans.drop_first()) =~= sans);
    }
}

/// Law: a sanitize section whose comma-separated runs spell the given
/// sanitizer rules parses to exactly those rules, in declaration order,
/// custom payloads preserved token for token.
pub proof fn lemma_parse_sanitizers_complete(
    runs: Seq<Seq<Token>>,
    sans: Seq<SpannedStringSanitizerV>,
    comma: Token,
)
    requires
        is_comma_token(comma),
        runs.len() == sans.len(),
        forall|i: int| 0 <= i < runs.len() ==> spells_sanitizer(#[trigger] runs[i], sans[i]),
    ensures
        spec_parse_sanitizers(join_runs(runs, comma)) == Result::Ok::<
            Seq<SpannedStringSanitizerV>,
            ParseErrorV,
        >(sans),
{
    assert forall|i: int|
        0 <= i < runs.len() implies (#[trigger] runs[i]).len() > 0 && comma_free(runs[i]) by {
        assert(spells_sanitizer(runs[i], sans[i]));
        match sans[i].item {
            StringSanitizerV::Trim => {},
            StringSanitizerV::Lowercase => {},
            StringSanitizerV::Uppercase => {},
            StringSanitizerV::With(payload) => {
                assert(forall|j: int|
                    2 <= j < runs[i].len() ==> #[trigger] runs[i][j] == runs[i].skip(2)[j - 2]);
                assert(forall|j: int|
                    0 <= j < runs[i].len() ==> !is_comma_token(#[trigger] runs[i][j]));
            },
        }
    }
    lemma_split_complete(runs, comma, Option::None);
    lemma_parse_sanitize_runs_complete(runs, sans);
}

/// Law: for an attribute stream holding a `sanitize(...)` section whose
/// runs spell the given sanitizer rules and a `validate(...)` section that
/// spells validator rules with no duplicate single-occurrence rule and a
/// satisfiable length range, parsing followed by semantic validation
/// succeeds, and the validated model lists both rule sets in their
/// declaration order, spans stripped.
pub proof fn lemma_pipeline_accepts_valid_rules(
    top: Seq<Token>,
    sanitize_runs: Seq<Seq<Token>>,
    sans: Seq<SpannedStringSanitizerV>,
    comma: Token,
    vts: Seq<Token>,
    vals: Seq<SpannedStringValidator>,
)
    requires
        top.len() == 4,
        top[0] matches Token::Ident { span: _, text } && text@ == "sanitize"@,
        (top[1] matches Token::Group { delimiter: Delimiter::Parenthesis, tokens, .. } && tokens@
            == join_runs(sanitize_runs, comma)),
        top[2] matches Token::Ident { span: _, text } && text@ == "validate"@,
        (top[3] matches Token::Group { delimiter: Delimiter::Parenthesis, tokens, .. } && tokens@
            == vts),
        is_comma_token(comma),
        sanitize_runs.len() == sans.len(),
        forall|i: int|
            0 <= i < sanitize_runs.len() ==> spells_sanitizer(
                #[trigger] sanitize_runs[i],
                sans[i],
            ),
        spells_validators(vts, vals),
        no_duplicate_rules(vals),
        satisfiable_bounds(vals),
    ensures
        spec_parse_attributes(top) == Result::Ok::<StringMetaV, ParseErrorV>(
            if vals.len() == 0 {
                StringMetaV::Infallible { sanitizers: spec_strip_sanitizers(sans) }
            } else {
                StringMetaV::Fallible {
                    sanitizers: spec_strip_sanitizers(sans),
                    validators: spec_strip_validators(vals),
                }
            },
        ),
{
    reveal_strlit("sanitize");
    reveal_strlit("validate");
    assert(("sanitize"@)[0] == 's' && ("validate"@)[0] == 'v');
    assert("sanitize"@ != "validate"@);
    let st = join_runs(sanitize_runs, comma);
    assert(!is_comma_token(top[0]));
    assert(spec_shell(top, Option::None, Option::None) == spec_shell(
        top.skip(2),
        Option::Some(st),
        Option::None,
    ));
    assert(top.skip(2).len() == 2);
    assert(top.skip(2)[0] == top[2]);
    assert(top.skip(2)[1] == top[3]);
    assert(!is_comma_token(top.skip(2)[0]));
    assert(spec_shell(top.skip(2), Option::Some(st), Option::None) == spec_shell(
        top.skip(2).skip(2),
        Option::Some(st),
        Option::Some(vts),
    ));
    assert(top.skip(2).skip(2) =~= Seq::<Token>::empty());
    assert(spec_shell(top, Option::None, Option::None) == Result::Ok::<
        (Seq<Token>, Seq<Token>),
        ParseErrorV,
    >((st, vts)));
    lemma_parse_sanitizers_complete(sanitize_runs, sans, comma);
    lemma_parse_validators_complete(vts, vals);
    assert(spec_parse_raw_attributes(top) == Result::Ok::<RawStringMetaV, ParseErrorV>(
        RawStringMetaV { sanitizers: sans, validators: vals },
    ));
    lemma_validation_succeeds(RawStringMetaV { sanitizers: sans, validators: vals });
}

} // verus!
