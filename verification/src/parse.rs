//! Parse dispatch: a capability, resolved per target type, that converts a
//! raw string into a value of that type or a parse error.
//!
//! Dispatch is static: the rule for a type `T` is the implementation of
//! [`EnvarParse<T>`] for [`EnvarParser<T>`], so adding a type means supplying
//! a new rule, not changing existing ones.  Built-in rules cover the integer
//! types, `String`, `bool` and `Option<T>`; the delimited-list rule lives in
//! the list module.

use crate::chars::all_digits;
use crate::chars::digit_val;
use crate::chars::digits_val;
use crate::chars::eq_ci;
use crate::chars::eq_ci_str;
use crate::chars::is_digit;
use crate::chars::lemma_digits_val_nonneg;
use crate::chars::lemma_digits_val_prefix;
use crate::chars::lower_code;
use crate::chars::trim;
use crate::chars::trim_str;
use crate::error::EnvarError;
use crate::error::parse_error;
use crate::error_reason::NumFailKind;
use crate::error_reason::ReasonInput;
use crate::error_reason::num_fail_text;
use vstd::prelude::*;
use vstd::string::StrSliceExecFns;

verus! {

/// What a parse rule decides for a given raw string.
pub enum ParseOutcome {
    /// The string converts to a value.
    Success,
    /// The string is rejected with a `ParseError`.
    Failure,
    /// The string is treated as absent; the caller's default policy decides.
    UseDefault,
}

/// The capability table: the rule for target type `T` is the implementation
/// of [`EnvarParse<T>`] for `EnvarParser<T>`.
pub struct EnvarParser<T: ?Sized>(core::marker::PhantomData<T>);

/// A parsing rule for target type `T`.
///
/// The specification functions pin the rule down: `outcome` says whether a
/// raw string converts, is rejected, or defers to the default policy;
/// `good_value` characterizes the returned value on success; and the
/// remaining three give the fields of the `ParseError` on rejection.
pub trait EnvarParse<T> {
    /// Whether a raw string converts, is rejected, or defers to the default
    /// policy.
    spec fn outcome(s: Seq<char>) -> ParseOutcome;

    /// Characterizes the value returned when `outcome(s)` is `Success`.
    spec fn good_value(s: Seq<char>, v: T) -> bool;

    /// The type name a `ParseError` carries.
    spec fn type_label() -> Seq<char>;

    /// The offending value a `ParseError` carries.
    spec fn err_value(s: Seq<char>) -> Seq<char>;

    /// The text the `ParseError`'s deferred reason resolves to.
    spec fn fail_text(s: Seq<char>) -> Seq<char>;

    /// Converts a raw string into a value of the target type or an error,
    /// attributing failures to the named variable.
    fn parse(varname: &str, value: &str) -> (r: Result<T, EnvarError>)
        ensures
            match r {
                Ok(v) => Self::outcome(value@) is Success && Self::good_value(value@, v),
                Err(e) => match e {
                    EnvarError::ParseError { varname: vn, typename: tn, value: off, reason } => {
                        &&& Self::outcome(value@) is Failure
                        &&& vn@ == varname@
                        &&& tn@ == Self::type_label()
                        &&& off@ == Self::err_value(value@)
                        &&& reason.wf()
                        &&& !reason.resolved()
                        &&& reason.text() == Self::fail_text(value@)
                    },
                    EnvarError::TryDefault(vn) => Self::outcome(value@) is UseDefault && vn@
                        == varname@,
                    EnvarError::NotSet(_) => false,
                },
            },
    ;

    /// An exact duplicate of a parsed value, for caching one copy and
    /// returning another.
    fn dup(v: &T) -> (r: T)
        ensures
            r == *v,
    ;
}

/// The sign written at the front of an integer literal.
pub open spec fn int_sign(s: Seq<char>) -> int {
    if s.len() > 0 && s[0] == '-' {
        -1
    } else {
        1
    }
}

/// The digits of an integer literal, after the optional sign.
pub open spec fn int_body(s: Seq<char>) -> Seq<char> {
    if s.len() > 0 && (s[0] == '+' || s[0] == '-') {
        s.subrange(1, s.len() as int)
    } else {
        s
    }
}

/// A well-formed integer literal: an optional sign (`-` only for signed
/// types) followed by at least one decimal digit.
pub open spec fn is_int_literal(s: Seq<char>, signed: bool) -> bool {
    &&& int_body(s).len() > 0
    &&& all_digits(int_body(s))
    &&& (s[0] == '-' ==> signed)
}

/// The number an integer literal writes.
pub open spec fn int_literal_val(s: Seq<char>) -> int {
    int_sign(s) * digits_val(int_body(s))
}

/// An integer rule succeeds exactly on well-formed literals within the
/// target type's range; there is no deferred-to-default case.
pub open spec fn int_outcome(s: Seq<char>, signed: bool, min: int, max: int) -> ParseOutcome {
    if is_int_literal(s, signed) && min <= int_literal_val(s) && int_literal_val(s) <= max {
        ParseOutcome::Success
    } else {
        ParseOutcome::Failure
    }
}

/// How an integer rule classifies a rejected string.
pub open spec fn int_fail_kind(s: Seq<char>, signed: bool, min: int, max: int) -> NumFailKind {
    if s.len() == 0 {
        NumFailKind::Empty
    } else if !is_int_literal(s, signed) {
        NumFailKind::InvalidDigit
    } else if int_literal_val(s) > max {
        NumFailKind::TooLarge
    } else {
        NumFailKind::TooSmall
    }
}

/// Parses a decimal integer literal into a value within `[min, max]`, or
/// classifies the failure.  Shared by every integer rule.
fn parse_int_core(s: &str, signed: bool, min: i128, max: i128) -> (r: Result<i128, NumFailKind>)
    requires
        min <= 0 < max,
        max <= 0xffff_ffff_ffff_ffff,
        -0x8000_0000_0000_0000 <= min,
    ensures
        match r {
            Ok(v) => is_int_literal(s@, signed) && min <= v && v <= max && v as int
                == int_literal_val(s@),
            Err(k) => int_outcome(s@, signed, min as int, max as int) is Failure && k
                == int_fail_kind(s@, signed, min as int, max as int),
        },
{
    let n = s.unicode_len();
    if n == 0 {
        return Err(NumFailKind::Empty);
    }
    let c0 = s.get_char(0);
    let neg = c0 == '-';
    let start: usize = if c0 == '-' || c0 == '+' {
        1
    } else {
        0
    };
    proof {
        assert(int_body(s@) =~= s@.subrange(start as int, n as int));
    }
    if neg && !signed {
        return Err(NumFailKind::InvalidDigit);
    }
    if start == n {
        return Err(NumFailKind::InvalidDigit);
    }
    let mut i = start;
    while i < n
        invariant
            start <= i <= n,
            n == s@.len(),
            int_body(s@) == s@.subrange(start as int, n as int),
            forall|j: int| start <= j < i ==> is_digit(s@[j]),
        decreases n - i,
    {
        let c = s.get_char(i);
        let u = c as u32;
        if u < 48 || u > 57 {
            proof {
                assert(!is_digit(s@[i as int]));
                assert(int_body(s@)[i - start] == s@[i as int]);
                assert(!all_digits(int_body(s@)));
            }
            return Err(NumFailKind::InvalidDigit);
        }
        i = i + 1;
    }
    proof {
        assert(all_digits(int_body(s@)));
        assert(is_int_literal(s@, signed));
    }
    let bound: u128 = if neg {
        (-min) as u128
    } else {
        max as u128
    };
    let ghost body = int_body(s@);
    let mut mag: u128 = 0;
    let mut k = start;
    while k < n
        invariant
            start <= k <= n,
            n == s@.len(),
            body == int_body(s@),
            body =~= s@.subrange(start as int, n as int),
            all_digits(body),
            is_int_literal(s@, signed),
            mag as int == digits_val(s@.subrange(start as int, k as int)),
            mag <= bound,
            bound <= 0xffff_ffff_ffff_ffff,
            neg ==> bound == -min,
            !neg ==> bound == max,
            neg ==> signed,
            neg == (s@[0] == '-'),
            0 < n,
            min <= 0 < max,
        decreases n - k,
    {
        let c = s.get_char(k);
        proof {
            assert(body[k - start] == s@[k as int]);
            assert(is_digit(s@[k as int]));
        }
        let d = (c as u32) - 48;
        let next = mag * 10 + (d as u128);
        proof {
            let pre = s@.subrange(start as int, k as int);
            let cur = s@.subrange(start as int, k + 1 as int);
            assert(cur.drop_last() =~= pre);
            assert(cur.last() == s@[k as int]);
            assert(digits_val(cur) == digits_val(pre) * 10 + digit_val(s@[k as int]));
        }
        if next > bound {
            proof {
                let cur = s@.subrange(start as int, k + 1 as int);
                assert(all_digits(cur));
                lemma_digits_val_prefix(body, k + 1 - start as int);
                assert(body.subrange(0, k + 1 - start as int) =~= cur);
                assert(digits_val(body) >= digits_val(cur));
                assert(digits_val(body) > bound);
                if neg {
                    assert(int_literal_val(s@) < min);
                } else {
                    assert(int_literal_val(s@) > max);
                }
            }
            return Err(
                if neg {
                    NumFailKind::TooSmall
                } else {
                    NumFailKind::TooLarge
                },
            );
        }
        mag = next;
        k = k + 1;
    }
    proof {
        assert(s@.subrange(start as int, n as int) =~= body);
        assert(mag as int == digits_val(body));
        lemma_digits_val_nonneg(body);
    }
    let v: i128 = if neg {
        -(mag as i128)
    } else {
        mag as i128
    };
    Ok(v)
}

impl EnvarParse<u8> for EnvarParser<u8> {
    open spec fn outcome(s: Seq<char>) -> ParseOutcome {
        int_outcome(s, false, 0, u8::MAX as int)
    }

    open spec fn good_value(s: Seq<char>, v: u8) -> bool {
        v as int == int_literal_val(s)
    }

    open spec fn type_label() -> Seq<char> {
        "u8"@
    }

    open spec fn err_value(s: Seq<char>) -> Seq<char> {
        s
    }

    open spec fn fail_text(s: Seq<char>) -> Seq<char> {
        num_fail_text(int_fail_kind(s, false, 0, u8::MAX as int))
    }

    fn parse(varname: &str, value: &str) -> (r: Result<u8, EnvarError>) {
        match parse_int_core(value, false, 0, u8::MAX as i128) {
            Ok(v) => Ok(v as u8),
            Err(k) => Err(parse_error(varname, "u8", value, ReasonInput::NumFail(k))),
        }
    }

    fn dup(v: &u8) -> (r: u8) {
        *v
    }
}

impl EnvarParse<u16> for EnvarParser<u16> {
    open spec fn outcome(s: Seq<char>) -> ParseOutcome {
        int_outcome(s, false, 0, u16::MAX as int)
    }

    open spec fn good_value(s: Seq<char>, v: u16) -> bool {
        v as int == int_literal_val(s)
    }

    open spec fn type_label() -> Seq<char> {
        "u16"@
    }

    open spec fn err_value(s: Seq<char>) -> Seq<char> {
        s
    }

    open spec fn fail_text(s: Seq<char>) -> Seq<char> {
        num_fail_text(int_fail_kind(s, false, 0, u16::MAX as int))
    }

    fn parse(varname: &str, value: &str) -> (r: Result<u16, EnvarError>) {
        match parse_int_core(value, false, 0, u16::MAX as i128) {
            Ok(v) => Ok(v as u16),
            Err(k) => Err(parse_error(varname, "u16", value, ReasonInput::NumFail(k))),
        }
    }

    fn dup(v: &u16) -> (r: u16) {
        *v
    }
}

impl EnvarParse<u32> for EnvarParser<u32> {
    open spec fn outcome(s: Seq<char>) -> ParseOutcome {
        int_outcome(s, false, 0, u32::MAX as int)
    }

    open spec fn good_value(s: Seq<char>, v: u32) -> bool {
        v as int == int_literal_val(s)
    }

    open spec fn type_label() -> Seq<char> {
        "u32"@
    }

    open spec fn err_value(s: Seq<char>) -> Seq<char> {
        s
    }

    open spec fn fail_text(s: Seq<char>) -> Seq<char> {
        num_fail_text(int_fail_kind(s, false, 0, u32::MAX as int))
    }

    fn parse(varname: &str, value: &str) -> (r: Result<u32, EnvarError>) {
        match parse_int_core(value, false, 0, u32::MAX as i128) {
            Ok(v) => Ok(v as u32),
            Err(k) => Err(parse_error(varname, "u32", value, ReasonInput::NumFail(k))),
        }
    }

    fn dup(v: &u32) -> (r: u32) {
        *v
    }
}

impl EnvarParse<u64> for EnvarParser<u64> {
    open spec fn outcome(s: Seq<char>) -> ParseOutcome {
        int_outcome(s, false, 0, u64::MAX as int)
    }

    open spec fn good_value(s: Seq<char>, v: u64) -> bool {
        v as int == int_literal_val(s)
    }

    open spec fn type_label() -> Seq<char> {
        "u64"@
    }

    open spec fn err_value(s: Seq<char>) -> Seq<char> {
        s
    }

    open spec fn fail_text(s: Seq<char>) -> Seq<char> {
        num_fail_text(int_fail_kind(s, false, 0, u64::MAX as int))
    }

    fn parse(varname: &str, value: &str) -> (r: Result<u64, EnvarError>) {
        match parse_int_core(value, false, 0, u64::MAX as i128) {
            Ok(v) => Ok(v as u64),
            Err(k) => Err(parse_error(varname, "u64", value, ReasonInput::NumFail(k))),
        }
    }

    fn dup(v: &u64) -> (r: u64) {
        *v
    }
}

impl EnvarParse<usize> for EnvarParser<usize> {
    open spec fn outcome(s: Seq<char>) -> ParseOutcome {
        int_outcome(s, false, 0, usize::MAX as int)
    }

    open spec fn good_value(s: Seq<char>, v: usize) -> bool {
        v as int == int_literal_val(s)
    }

    open spec fn type_label() -> Seq<char> {
        "usize"@
    }

    open spec fn err_value(s: Seq<char>) -> Seq<char> {
        s
    }

    open spec fn fail_text(s: Seq<char>) -> Seq<char> {
        num_fail_text(int_fail_kind(s, false, 0, usize::MAX as int))
    }

    fn parse(varname: &str, value: &str) -> (r: Result<usize, EnvarError>) {
        match parse_int_core(value, false, 0, usize::MAX as i128) {
            Ok(v) => Ok(v as usize),
            Err(k) => Err(parse_error(varname, "usize", value, ReasonInput::NumFail(k))),
        }
    }

    fn dup(v: &usize) -> (r: usize) {
        *v
    }
}

impl EnvarParse<i8> for EnvarParser<i8> {
    open spec fn outcome(s: Seq<char>) -> ParseOutcome {
        int_outcome(s, true, i8::MIN as int, i8::MAX as int)
    }

    open spec fn good_value(s: Seq<char>, v: i8) -> bool {
        v as int == int_literal_val(s)
    }

    open spec fn type_label() -> Seq<char> {
        "i8"@
    }

    open spec fn err_value(s: Seq<char>) -> Seq<char> {
        s
    }

    open spec fn fail_text(s: Seq<char>) -> Seq<char> {
        num_fail_text(int_fail_kind(s, true, i8::MIN as int, i8::MAX as int))
    }

    fn parse(varname: &str, value: &str) -> (r: Result<i8, EnvarError>) {
        match parse_int_core(value, true, i8::MIN as i128, i8::MAX as i128) {
            Ok(v) => Ok(v as i8),
            Err(k) => Err(parse_error(varname, "i8", value, ReasonInput::NumFail(k))),
        }
    }

    fn dup(v: &i8) -> (r: i8) {
        *v
    }
}

impl EnvarParse<i16> for EnvarParser<i16> {
    open spec fn outcome(s: Seq<char>) -> ParseOutcome {
        int_outcome(s, true, i16::MIN as int, i16::MAX as int)
    }

    open spec fn good_value(s: Seq<char>, v: i16) -> bool {
        v as int == int_literal_val(s)
    }

    open spec fn type_label() -> Seq<char> {
        "i16"@
    }

    open spec fn err_value(s: Seq<char>) -> Seq<char> {
        s
    }

    open spec fn fail_text(s: Seq<char>) -> Seq<char> {
        num_fail_text(int_fail_kind(s, true, i16::MIN as int, i16::MAX as int))
    }

    fn parse(varname: &str, value: &str) -> (r: Result<i16, EnvarError>) {
        match parse_int_core(value, true, i16::MIN as i128, i16::MAX as i128) {
            Ok(v) => Ok(v as i16),
            Err(k) => Err(parse_error(varname, "i16", value, ReasonInput::NumFail(k))),
        }
    }

    fn dup(v: &i16) -> (r: i16) {
        *v
    }
}

impl EnvarParse<i32> for EnvarParser<i32> {
    open spec fn outcome(s: Seq<char>) -> ParseOutcome {
        int_outcome(s, true, i32::MIN as int, i32::MAX as int)
    }

    open spec fn good_value(s: Seq<char>, v: i32) -> bool {
        v as int == int_literal_val(s)
    }

    open spec fn type_label() -> Seq<char> {
        "i32"@
    }

    open spec fn err_value(s: Seq<char>) -> Seq<char> {
        s
    }

    open spec fn fail_text(s: Seq<char>) -> Seq<char> {
        num_fail_text(int_fail_kind(s, true, i32::MIN as int, i32::MAX as int))
    }

    fn parse(varname: &str, value: &str) -> (r: Result<i32, EnvarError>) {
        match parse_int_core(value, true, i32::MIN as i128, i32::MAX as i128) {
            Ok(v) => Ok(v as i32),
            Err(k) => Err(parse_error(varname, "i32", value, ReasonInput::NumFail(k))),
        }
    }

    fn dup(v: &i32) -> (r: i32) {
        *v
    }
}

impl EnvarParse<i64> for EnvarParser<i64> {
    open spec fn outcome(s: Seq<char>) -> ParseOutcome {
        int_outcome(s, true, i64::MIN as int, i64::MAX as int)
    }

    open spec fn good_value(s: Seq<char>, v: i64) -> bool {
        v as int == int_literal_val(s)
    }

    open spec fn type_label() -> Seq<char> {
        "i64"@
    }

    open spec fn err_value(s: Seq<char>) -> Seq<char> {
        s
    }

    open spec fn fail_text(s: Seq<char>) -> Seq<char> {
        num_fail_text(int_fail_kind(s, true, i64::MIN as int, i64::MAX as int))
    }

    fn parse(varname: &str, value: &str) -> (r: Result<i64, EnvarError>) {
        match parse_int_core(value, true, i64::MIN as i128, i64::MAX as i128) {
            Ok(v) => Ok(v as i64),
            Err(k) => Err(parse_error(varname, "i64", value, ReasonInput::NumFail(k))),
        }
    }

    fn dup(v: &i64) -> (r: i64) {
        *v
    }
}

impl EnvarParse<isize> for EnvarParser<isize> {
    open spec fn outcome(s: Seq<char>) -> ParseOutcome {
        int_outcome(s, true, isize::MIN as int, isize::MAX as int)
    }

    open spec fn good_value(s: Seq<char>, v: isize) -> bool {
        v as int == int_literal_val(s)
    }

    open spec fn type_label() -> Seq<char> {
        "isize"@
    }

    open spec fn err_value(s: Seq<char>) -> Seq<char> {
        s
    }

    open spec fn fail_text(s: Seq<char>) -> Seq<char> {
        num_fail_text(int_fail_kind(s, true, isize::MIN as int, isize::MAX as int))
    }

    fn parse(varname: &str, value: &str) -> (r: Result<isize, EnvarError>) {
        match parse_int_core(value, true, isize::MIN as i128, isize::MAX as i128) {
            Ok(v) => Ok(v as isize),
            Err(k) => Err(parse_error(varname, "isize", value, ReasonInput::NumFail(k))),
        }
    }

    fn dup(v: &isize) -> (r: isize) {
        *v
    }
}

impl EnvarParse<String> for EnvarParser<String> {
    /// The identity rule: no transformation, no trimming, never fails.
    open spec fn outcome(s: Seq<char>) -> ParseOutcome {
        ParseOutcome::Success
    }

    open spec fn good_value(s: Seq<char>, v: String) -> bool {
        v@ == s
    }

    open spec fn type_label() -> Seq<char> {
        "String"@
    }

    open spec fn err_value(s: Seq<char>) -> Seq<char> {
        s
    }

    open spec fn fail_text(s: Seq<char>) -> Seq<char> {
        Seq::<char>::empty()
    }

    fn parse(varname: &str, value: &str) -> (r: Result<String, EnvarError>) {
        Ok(value.to_owned())
    }

    fn dup(v: &String) -> (r: String) {
        v.clone()
    }
}

/// The true-alternatives a boolean raw string may match, case-insensitively.
pub open spec fn bool_lit_true(t: Seq<char>) -> bool {
    ||| eq_ci(t, "true"@)
    ||| eq_ci(t, "1"@)
    ||| eq_ci(t, "yes"@)
    ||| eq_ci(t, "y"@)
    ||| eq_ci(t, "on"@)
    ||| eq_ci(t, "enabled"@)
}

/// The false-alternatives a boolean raw string may match, case-insensitively.
pub open spec fn bool_lit_false(t: Seq<char>) -> bool {
    ||| eq_ci(t, "false"@)
    ||| eq_ci(t, "0"@)
    ||| eq_ci(t, "no"@)
    ||| eq_ci(t, "n"@)
    ||| eq_ci(t, "off"@)
    ||| eq_ci(t, "disabled"@)
}

/// The boolean rule is total over the two literal sets plus empty and
/// whitespace-only strings.
pub open spec fn bool_outcome(s: Seq<char>) -> ParseOutcome {
    let t = trim(s);
    if t.len() == 0 || bool_lit_true(t) || bool_lit_false(t) {
        ParseOutcome::Success
    } else {
        ParseOutcome::Failure
    }
}

/// The value the boolean rule returns: `true` exactly on the
/// true-alternatives; empty, whitespace-only and false-alternative strings
/// give `false`.
pub open spec fn bool_value(s: Seq<char>) -> bool {
    bool_lit_true(trim(s))
}

proof fn lemma_eq_ci_first(t: Seq<char>, a: Seq<char>, b: Seq<char>)
    requires
        eq_ci(t, a),
        eq_ci(t, b),
        a.len() > 0,
    ensures
        lower_code(a[0]) == lower_code(b[0]),
{
    assert(lower_code(t[0]) == lower_code(a[0]));
    assert(lower_code(t[0]) == lower_code(b[0]));
}

/// No string matches both a true-alternative and a false-alternative.
pub proof fn lemma_bool_lits_disjoint(t: Seq<char>)
    requires
        bool_lit_false(t),
    ensures
        !bool_lit_true(t),
{
    reveal_strlit("true");
    reveal_strlit("1");
    reveal_strlit("yes");
    reveal_strlit("y");
    reveal_strlit("on");
    reveal_strlit("enabled");
    reveal_strlit("false");
    reveal_strlit("0");
    reveal_strlit("no");
    reveal_strlit("n");
    reveal_strlit("off");
    reveal_strlit("disabled");
    if bool_lit_true(t) {
        if eq_ci(t, "1"@) && eq_ci(t, "0"@) {
            lemma_eq_ci_first(t, "1"@, "0"@);
        }
        if eq_ci(t, "1"@) && eq_ci(t, "n"@) {
            lemma_eq_ci_first(t, "1"@, "n"@);
        }
        if eq_ci(t, "y"@) && eq_ci(t, "0"@) {
            lemma_eq_ci_first(t, "y"@, "0"@);
        }
        if eq_ci(t, "y"@) && eq_ci(t, "n"@) {
            lemma_eq_ci_first(t, "y"@, "n"@);
        }
        if eq_ci(t, "yes"@) && eq_ci(t, "off"@) {
            lemma_eq_ci_first(t, "yes"@, "off"@);
        }
        if eq_ci(t, "on"@) && eq_ci(t, "no"@) {
            lemma_eq_ci_first(t, "on"@, "no"@);
        }
        assert(false);
    }
}

/// An integer rule accepts exactly the well-formed literals whose value lies
/// within the target type's range; everything else is rejected.
pub proof fn lemma_int_rule_exact(s: Seq<char>, signed: bool, min: int, max: int)
    ensures
        int_outcome(s, signed, min, max) is Success <==> (is_int_literal(s, signed) && min
            <= int_literal_val(s) && int_literal_val(s) <= max),
{
}

/// The boolean rule is total over the documented literal sets plus empty and
/// whitespace-only strings: it returns `true` exactly on the
/// true-alternatives, `false` on the false-alternatives and on blank input,
/// and rejects everything else.
pub proof fn lemma_bool_total(s: Seq<char>)
    ensures
        bool_outcome(s) is Success <==> (trim(s).len() == 0 || bool_lit_true(trim(s))
            || bool_lit_false(trim(s))),
        bool_value(s) <==> bool_lit_true(trim(s)),
        trim(s).len() == 0 ==> !bool_value(s),
        bool_lit_false(trim(s)) ==> !bool_value(s),
{
    if trim(s).len() == 0 {
        reveal_strlit("true");
        reveal_strlit("1");
        reveal_strlit("yes");
        reveal_strlit("y");
        reveal_strlit("on");
        reveal_strlit("enabled");
    }
    if bool_lit_false(trim(s)) {
        lemma_bool_lits_disjoint(trim(s));
    }
}

impl EnvarParse<bool> for EnvarParser<bool> {
    open spec fn outcome(s: Seq<char>) -> ParseOutcome {
        bool_outcome(s)
    }

    open spec fn good_value(s: Seq<char>, v: bool) -> bool {
        v == bool_value(s)
    }

    open spec fn type_label() -> Seq<char> {
        "bool"@
    }

    open spec fn err_value(s: Seq<char>) -> Seq<char> {
        trim(s)
    }

    open spec fn fail_text(s: Seq<char>) -> Seq<char> {
        trim(s)
    }

    fn parse(varname: &str, value: &str) -> (r: Result<bool, EnvarError>) {
        let t = trim_str(value);
        if t.is_empty() {
            proof {
                reveal_strlit("true");
                reveal_strlit("1");
                reveal_strlit("yes");
                reveal_strlit("y");
                reveal_strlit("on");
                reveal_strlit("enabled");
            }
            return Ok(false);
        }
        if eq_ci_str(t, "true") || eq_ci_str(t, "1") || eq_ci_str(t, "yes") || eq_ci_str(t, "y")
            || eq_ci_str(t, "on") || eq_ci_str(t, "enabled") {
            return Ok(true);
        }
        if eq_ci_str(t, "false") || eq_ci_str(t, "0") || eq_ci_str(t, "no") || eq_ci_str(t, "n")
            || eq_ci_str(t, "off") || eq_ci_str(t, "disabled") {
            proof {
                lemma_bool_lits_disjoint(t@);
            }
            return Ok(false);
        }
        Err(parse_error(varname, "bool", t, ReasonInput::Verbatim(t.to_owned())))
    }

    fn dup(v: &bool) -> (r: bool) {
        *v
    }
}

impl<T> EnvarParse<Option<T>> for EnvarParser<Option<T>> where EnvarParser<T>: EnvarParse<T> {
    /// Empty or whitespace-only defers to the default policy; anything else
    /// follows the element type's rule on the trimmed string, wrapped as
    /// present.
    open spec fn outcome(s: Seq<char>) -> ParseOutcome {
        if trim(s).len() == 0 {
            ParseOutcome::UseDefault
        } else {
            <EnvarParser<T> as EnvarParse<T>>::outcome(trim(s))
        }
    }

    open spec fn good_value(s: Seq<char>, v: Option<T>) -> bool {
        v matches Some(u) && <EnvarParser<T> as EnvarParse<T>>::good_value(trim(s), u)
    }

    open spec fn type_label() -> Seq<char> {
        <EnvarParser<T> as EnvarParse<T>>::type_label()
    }

    open spec fn err_value(s: Seq<char>) -> Seq<char> {
        <EnvarParser<T> as EnvarParse<T>>::err_value(trim(s))
    }

    open spec fn fail_text(s: Seq<char>) -> Seq<char> {
        <EnvarParser<T> as EnvarParse<T>>::fail_text(trim(s))
    }

    fn parse(varname: &str, value: &str) -> (r: Result<Option<T>, EnvarError>) {
        let t = trim_str(value);
        if t.is_empty() {
            return Err(EnvarError::TryDefault(varname.to_owned()));
        }
        match <EnvarParser<T> as EnvarParse<T>>::parse(varname, t) {
            Ok(v) => Ok(Some(v)),
            Err(e) => Err(e),
        }
    }

    fn dup(v: &Option<T>) -> (r: Option<T>) {
        match v {
            Some(u) => Some(<EnvarParser<T> as EnvarParse<T>>::dup(u)),
            None => None,
        }
    }
}

} // verus!
