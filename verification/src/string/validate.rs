//! Semantic validation of the parsed rule set: single-occurrence rules may
//! not repeat, declared length bounds must be satisfiable, and the result
//! records whether the generated constructor can fail.

use vstd::prelude::*;

use crate::errors::{ParseError, ParseErrorKind, ParseErrorKindV, ParseErrorV};
use crate::models::NewtypeMeta;
use crate::string::models::{
    NewtypeStringMeta, RawNewtypeStringMeta, RawStringMetaV, SpannedStringSanitizer,
    SpannedStringSanitizerV, SpannedStringValidator, StringMetaV, StringSanitizer,
    StringSanitizerV, StringValidator,
};

verus! {

/// Scans the validator rules in declaration order, carrying which
/// single-occurrence rules were already seen (and the declared bounds), and
/// yields the error the first offending rule is rejected with, if any.
pub open spec fn spec_check_validators(
    vs: Seq<SpannedStringValidator>,
    seen_max: Option<u64>,
    seen_min: Option<u64>,
    seen_present: bool,
) -> Option<ParseErrorV>
    decreases vs.len(),
{
    if vs.len() == 0 {
        Option::None
    } else {
        let v = vs[0];
        match v.item {
            StringValidator::MaxLen(m) => if seen_max is Some {
                Option::Some(
                    ParseErrorV { span: v.span, kind: ParseErrorKindV::DuplicateValidator },
                )
            } else if seen_min matches Some(n) && m < n {
                Option::Some(
                    ParseErrorV { span: v.span, kind: ParseErrorKindV::IncompatibleBounds },
                )
            } else {
                spec_check_validators(vs.drop_first(), Option::Some(m), seen_min, seen_present)
            },
            StringValidator::MinLen(n) => if seen_min is Some {
                Option::Some(
                    ParseErrorV { span: v.span, kind: ParseErrorKindV::DuplicateValidator },
                )
            } else if seen_max matches Some(m) && m < n {
                Option::Some(
                    ParseErrorV { span: v.span, kind: ParseErrorKindV::IncompatibleBounds },
                )
            } else {
                spec_check_validators(vs.drop_first(), seen_max, Option::Some(n), seen_present)
            },
            StringValidator::Present => if seen_present {
                Option::Some(
                    ParseErrorV { span: v.span, kind: ParseErrorKindV::DuplicateValidator },
                )
            } else {
                spec_check_validators(vs.drop_first(), seen_max, seen_min, true)
            },
        }
    }
}

/// The sanitizer rules with their spans stripped, order preserved.
pub open spec fn spec_strip_sanitizers(sans: Seq<SpannedStringSanitizerV>) -> Seq<
    StringSanitizerV,
> {
    sans.map_values(|s: SpannedStringSanitizerV| s.item)
}

/// The validator rules with their spans stripped, order preserved.
pub open spec fn spec_strip_validators(vals: Seq<SpannedStringValidator>) -> Seq<
    StringValidator,
> {
    vals.map_values(|v: SpannedStringValidator| v.item)
}

/// What semantic validation of a raw rule set yields: the first offending
/// validator's error, or the validated model — infallible exactly when no
/// validator was declared, with rule order preserved in both rule lists.
pub open spec fn spec_validate_string_meta(raw: RawStringMetaV) -> Result<
    StringMetaV,
    ParseErrorV,
> {
    match spec_check_validators(raw.validators, Option::None, Option::None, false) {
        Option::Some(e) => Result::Err(e),
        Option::None => if raw.validators.len() == 0 {
            Result::Ok(
                StringMetaV::Infallible { sanitizers: spec_strip_sanitizers(raw.sanitizers) },
            )
        } else {
            Result::Ok(
                StringMetaV::Fallible {
                    sanitizers: spec_strip_sanitizers(raw.sanitizers),
                    validators: spec_strip_validators(raw.validators),
                },
            )
        },
    }
}

/// Validates the parsed rule set: rejects a duplicate occurrence of a
/// single-occurrence validator at the span of the second occurrence, and a
/// `max_len` bound strictly smaller than a declared `min_len` bound at the
/// span of whichever bound is declared second; otherwise yields the
/// validated model, infallible exactly when no validator was declared.
#[verifier::loop_isolation(false)]
pub fn validate_string_meta(raw: RawNewtypeStringMeta) -> (r: Result<
    NewtypeStringMeta,
    ParseError,
>)
    ensures
        match r {
            Result::Ok(m) => spec_validate_string_meta(raw@) == Result::Ok::<
                StringMetaV,
                ParseErrorV,
            >(m@),
            Result::Err(e) => spec_validate_string_meta(raw@) == Result::Err::<
                StringMetaV,
                ParseErrorV,
            >(e@),
        },
{
    let ghost rawv = raw@;
    let mut sanitizers = raw.sanitizers;
    let validators = raw.validators;
    let ghost vs = validators@;
    let ghost sans0 = sanitizers.deep_view();

    let mut seen_max: Option<u64> = Option::None;
    let mut seen_min: Option<u64> = Option::None;
    let mut seen_present = false;
    let mut i: usize = 0;
    proof {
        assert(vs.skip(0) =~= vs);
    }
    while i < validators.len()
        invariant
            i <= vs.len(),
            validators@ == vs,
            spec_check_validators(vs, Option::None, Option::None, false)
                == spec_check_validators(vs.skip(i as int), seen_max, seen_min, seen_present),
        decreases vs.len() - i,
    {
        let v = validators[i];
        proof {
            assert(vs.skip(i as int)[0] == vs[i as int]);
            assert(vs.skip(i as int).drop_first() =~= vs.skip(i as int + 1));
        }
        match v.item {
            StringValidator::MaxLen(m) => {
                match seen_max {
                    Option::Some(_) => {
                        return Result::Err(
                            ParseError { span: v.span, kind: ParseErrorKind::DuplicateValidator },
                        );
                    },
                    Option::None => {},
                }
                match seen_min {
                    Option::Some(n) => {
                        if m < n {
                            return Result::Err(
                                ParseError {
                                    span: v.span,
                                    kind: ParseErrorKind::IncompatibleBounds,
                                },
                            );
                        }
                    },
                    Option::None => {},
                }
                seen_max = Option::Some(m);
            },
            StringValidator::MinLen(n) => {
                match seen_min {
                    Option::Some(_) => {
                        return Result::Err(
                            ParseError { span: v.span, kind: ParseErrorKind::DuplicateValidator },
                        );
                    },
                    Option::None => {},
                }
                match seen_max {
                    Option::Some(m) => {
                        if m < n {
                            return Result::Err(
                                ParseError {
                                    span: v.span,
                                    kind: ParseErrorKind::IncompatibleBounds,
                                },
                            );
                        }
                    },
                    Option::None => {},
                }
                seen_min = Option::Some(n);
            },
            StringValidator::Present => {
                if seen_present {
                    return Result::Err(
                        ParseError { span: v.span, kind: ParseErrorKind::DuplicateValidator },
                    );
                }
                seen_present = true;
            },
        }
        i = i + 1;
    }
    proof {
        assert(vs.skip(vs.len() as int) =~= Seq::<SpannedStringValidator>::empty());
    }

    let mut plain_sans: Vec<StringSanitizer> = Vec::new();
    proof {
        assert(plain_sans.deep_view() =~= spec_strip_sanitizers(sans0.take(0)));
    }
    let ghost mut consumed: int = 0;
    while sanitizers.len() > 0
        invariant
            0 <= consumed <= sans0.len(),
            sanitizers.deep_view() =~= sans0.skip(consumed),
            plain_sans.deep_view() =~= spec_strip_sanitizers(sans0.take(consumed)),
        decreases sanitizers@.len(),
    {
        let ghost svec0 = sanitizers@;
        let ghost sdeep0 = sanitizers.deep_view();
        let s = sanitizers.remove(0);
        proof {
            assert(svec0.remove(0) =~= svec0.drop_first());
            assert(sanitizers.deep_view() =~= sdeep0.drop_first()) by {
                assert(forall|k: int|
                    0 <= k < sanitizers@.len() ==> sanitizers.deep_view()[k]
                        == #[trigger] sanitizers@[k].deep_view() && sanitizers@[k] == svec0[k
                        + 1]);
            }
            assert(s.deep_view() == sdeep0[0]);
            assert(sdeep0[0] == sans0[consumed]);
        }
        let SpannedStringSanitizer { span: _, item } = s;
        let ghost plain0 = plain_sans.deep_view();
        plain_sans.push(item);
        proof {
            assert(plain_sans.deep_view() =~= plain0.push(item@)) by {
                assert(forall|k: int|
                    0 <= k < plain0.len() ==> plain_sans.deep_view()[k] == plain0[k]);
            }
            consumed = consumed + 1;
            assert(sanitizers.deep_view() =~= sans0.skip(consumed));
            assert(plain_sans.deep_view() =~= spec_strip_sanitizers(sans0.take(consumed)));
        }
    }
    proof {
        assert(sans0.take(sans0.len() as int) =~= sans0);
        assert(plain_sans.deep_view() =~= spec_strip_sanitizers(rawv.sanitizers));
    }

    if validators.len() == 0 {
        Result::Ok(NewtypeMeta::From { sanitizers: plain_sans })
    } else {
        let mut plain_vals: Vec<StringValidator> = Vec::new();
        let mut j: usize = 0;
        while j < validators.len()
            invariant
                j <= vs.len(),
                validators@ == vs,
                plain_vals@ =~= spec_strip_validators(vs.take(j as int)),
            decreases vs.len() - j,
        {
            let v = validators[j];
            plain_vals.push(v.item);
            proof {
                assert(plain_vals@ =~= spec_strip_validators(vs.take(j as int + 1)));
            }
            j = j + 1;
        }
        proof {
            assert(vs.take(vs.len() as int) =~= vs);
        }
        Result::Ok(NewtypeMeta::TryFrom { sanitizers: plain_sans, validators: plain_vals })
    }
}

/// Whether two validator rules are occurrences of the same
/// single-occurrence rule.
pub open spec fn same_rule(a: StringValidator, b: StringValidator) -> bool {
    match (a, b) {
        (StringValidator::MaxLen(_), StringValidator::MaxLen(_)) => true,
        (StringValidator::MinLen(_), StringValidator::MinLen(_)) => true,
        (StringValidator::Present, StringValidator::Present) => true,
        _ => false,
    }
}

/// Whether no single-occurrence rule occurs twice.
pub open spec fn no_duplicate_rules(vals: Seq<SpannedStringValidator>) -> bool {
    forall|i: int, j: int|
        0 <= i < j < vals.len() ==> !same_rule(#[trigger] vals[i].item, #[trigger] vals[j].item)
}

/// Whether a pair of rules declares compatible length bounds.
pub open spec fn bounds_compatible(a: StringValidator, b: StringValidator) -> bool {
    match (a, b) {
        (StringValidator::MaxLen(m), StringValidator::MinLen(n)) => m >= n,
        _ => true,
    }
}

/// Whether every declared `max_len` bound is at least every declared
/// `min_len` bound.
pub open spec fn satisfiable_bounds(vals: Seq<SpannedStringValidator>) -> bool {
    forall|i: int, j: int|
        0 <= i < vals.len() && 0 <= j < vals.len() ==> bounds_compatible(
            #[trigger] vals[i].item,
            #[trigger] vals[j].item,
        )
}

/// The scan accepts a clean rule sequence: one whose rules neither repeat a
/// single-occurrence rule already seen nor contradict a bound already seen.
proof fn lemma_check_validators_clean(
    vs: Seq<SpannedStringValidator>,
    seen_max: Option<u64>,
    seen_min: Option<u64>,
    seen_present: bool,
)
    requires
        no_duplicate_rules(vs),
        satisfiable_bounds(vs),
        seen_max matches Some(m) ==> (forall|i: int|
            0 <= i < vs.len() ==> !(#[trigger] vs[i].item matches StringValidator::MaxLen(_))
                && bounds_compatible(StringValidator::MaxLen(m), vs[i].item)),
        seen_min matches Some(n) ==> (forall|i: int|
            0 <= i < vs.len() ==> !(#[trigger] vs[i].item matches StringValidator::MinLen(_))
                && bounds_compatible(vs[i].item, StringValidator::MinLen(n))),
        seen_present ==> (forall|i: int|
            0 <= i < vs.len() ==> !(#[trigger] vs[i].item matches StringValidator::Present)),
    ensures
        spec_check_validators(vs, seen_max, seen_min, seen_present) is None,
    decreases vs.len(),
{
    if vs.len() > 0 {
        let v = vs[0];
        let tail = vs.drop_first();
        assert(forall|i: int| 0 <= i < tail.len() ==> #[trigger] tail[i] == vs[i + 1]);
        assert(no_duplicate_rules(tail));
        assert(satisfiable_bounds(tail));
        match v.item {
            StringValidator::MaxLen(m) => {
                assert(seen_max is None);
                assert(forall|i: int|
                    0 <= i < tail.len() ==> !(#[trigger] tail[i].item
                        matches StringValidator::MaxLen(_)) && bounds_compatible(
                        StringValidator::MaxLen(m),
                        tail[i].item,
                    )) by {
                    assert(forall|j: int|
                        1 <= j < vs.len() ==> !same_rule(vs[0].item, #[trigger] vs[j].item)
                            && bounds_compatible(vs[0].item, vs[j].item));
                }
                lemma_check_validators_clean(tail, Option::Some(m), seen_min, seen_present);
            },
            StringValidator::MinLen(n) => {
                assert(seen_min is None);
                assert(forall|i: int|
                    0 <= i < tail.len() ==> !(#[trigger] tail[i].item
                        matches StringValidator::MinLen(_)) && bounds_compatible(
                        tail[i].item,
                        StringValidator::MinLen(n),
                    )) by {
                    assert(forall|j: int|
                        1 <= j < vs.len() ==> !same_rule(vs[0].item, #[trigger] vs[j].item)
                            && bounds_compatible(vs[j].item, vs[0].item));
                }
                lemma_check_validators_clean(tail, seen_max, Option::Some(n), seen_present);
            },
            StringValidator::Present => {
                assert(!seen_present);
                assert(forall|i: int|
                    0 <= i < tail.len() ==> !(#[trigger] tail[i].item
                        matches StringValidator::Present)) by {
                    assert(forall|j: int|
                        1 <= j < vs.len() ==> !same_rule(vs[0].item, #[trigger] vs[j].item));
                }
                lemma_check_validators_clean(tail, seen_max, seen_min, true);
            },
        }
    }
}

/// Law: a rule set whose validator sequence repeats no single-occurrence
/// rule and declares a satisfiable length range passes semantic validation,
/// and the validated model holds exactly the given sanitizer and validator
/// rules, spans stripped, in declaration order.
pub proof fn lemma_validation_succeeds(raw: RawStringMetaV)
    requires
        no_duplicate_rules(raw.validators),
        satisfiable_bounds(raw.validators),
    ensures
        spec_validate_string_meta(raw) == Result::Ok::<StringMetaV, ParseErrorV>(
            if raw.validators.len() == 0 {
                StringMetaV::Infallible { sanitizers: spec_strip_sanitizers(raw.sanitizers) }
            } else {
                StringMetaV::Fallible {
                    sanitizers: spec_strip_sanitizers(raw.sanitizers),
                    validators: spec_strip_validators(raw.validators),
                }
            },
        ),
{
    lemma_check_validators_clean(raw.validators, Option::None, Option::None, false);
}

/// Law: a validated model is infallible exactly when the raw rule set
/// declared no validator, and a fallible model enumerates at least one
/// validator rule.
pub proof fn lemma_fallibility(raw: RawStringMetaV)
    ensures
        match spec_validate_string_meta(raw) {
            Result::Ok(m) => match m {
                StringMetaV::Infallible { .. } => raw.validators.len() == 0,
                StringMetaV::Fallible { validators, .. } => raw.validators.len() > 0
                    && validators.len() == raw.validators.len(),
            },
            Result::Err(_) => true,
        },
{
}

} // verus!
