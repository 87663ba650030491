//! Typed, cached access to named configuration variables.
//!
//! A caller declares a variable with a name, a default policy and a caching
//! policy, and later reads a parsed, strongly-typed value instead of a raw
//! string.  The crate covers the caching/staleness state machine that decides
//! when to (re)parse, the per-type parse dispatch, the delimited-list adapter
//! built on top of it, and the lazily-computed diagnostic attached to parse
//! failures.  Fetching the raw string from the process environment is left to
//! the embedding program, which hands the raw value (present or absent) to
//! [`Envar::value`].

mod chars;
mod envar;
mod error;
mod error_reason;
mod list_envar;
mod parse;

pub use chars::all_digits;
pub use chars::digit_val;
pub use chars::digits_val;
pub use chars::eq_ci;
pub use chars::eq_ci_str;
pub use chars::is_digit;
pub use chars::is_ws;
pub use chars::lemma_digits_val_nonneg;
pub use chars::lemma_digits_val_prefix;
pub use chars::lemma_trim_empty;
pub use chars::lower_code;
pub use chars::trim;
pub use chars::trim_end;
pub use chars::trim_start;
pub use chars::trim_str;
pub use envar::Envar;
pub use envar::EnvarDef;
pub use envar::StoreModel;
pub use envar::demand_step;
pub use envar::is_parse_err;
pub use envar::lemma_demand_follows_env;
pub use envar::lemma_demand_stable;
pub use envar::lemma_optional_blank_startup;
pub use envar::lemma_optional_blank_uses_default;
pub use envar::lemma_optional_follows_element;
pub use envar::lemma_startup_pinned;
pub use envar::lemma_startup_reads_agree;
pub use envar::opt_view;
pub use envar::startup_step;
pub use error::EnvarError;
pub use error::parse_error;
pub use error_reason::ErrorReason;
pub use error_reason::NumFailKind;
pub use error_reason::ReasonInput;
pub use error_reason::num_fail_text;
pub use error_reason::reason_text;
pub use list_envar::CommaConfig;
pub use list_envar::ListEnvar;
pub use list_envar::ListEnvarConfig;
pub use list_envar::NoFilterConfig;
pub use list_envar::SemicolonConfig;
pub use list_envar::find_sep;
pub use list_envar::join_with;
pub use list_envar::kept_segments;
pub use list_envar::lemma_first_bad_append;
pub use list_envar::lemma_kept_append;
pub use list_envar::list_first_bad;
pub use list_envar::list_kept;
pub use list_envar::match_at;
pub use list_envar::split_from;
pub use list_envar::str_views;
pub use list_envar::string_views;
pub use parse::EnvarParse;
pub use parse::EnvarParser;
pub use parse::ParseOutcome;
pub use parse::bool_lit_false;
pub use parse::bool_lit_true;
pub use parse::bool_outcome;
pub use parse::bool_value;
pub use parse::int_body;
pub use parse::int_fail_kind;
pub use parse::int_literal_val;
pub use parse::int_outcome;
pub use parse::int_sign;
pub use parse::is_int_literal;
pub use parse::lemma_bool_lits_disjoint;
pub use parse::lemma_bool_total;
pub use parse::lemma_int_rule_exact;
