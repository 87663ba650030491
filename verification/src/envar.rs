//! The cached variable: binds a name, a default policy and a caching policy,
//! and exposes a single read operation implementing the staleness/caching
//! state machine.
//!
//! Reading the raw string from the process environment is the embedding
//! program's job: it hands the current raw value (present or absent) to
//! [`Envar::value`], which decides from the cache state whether to return a
//! cached value, reparse, fall back to the default policy, or fail.

use crate::chars::trim;
use crate::error::EnvarError;
use crate::parse::EnvarParse;
use crate::parse::EnvarParser;
use crate::parse::ParseOutcome;
use vstd::prelude::*;

verus! {

/// The result of a default policy: no default, or a concrete default value.
pub enum EnvarDef<T> {
    Unset,
    Default(T),
}

impl<T> EnvarDef<T> {
    /// The default as an option: `Default(v)` is present, `Unset` is absent.
    pub fn to_option(self) -> (r: Option<T>)
        ensures
            r == match self {
                EnvarDef::Default(v) => Some(v),
                EnvarDef::Unset => None::<T>,
            },
    {
        match self {
            EnvarDef::Default(value) => Some(value),
            EnvarDef::Unset => None,
        }
    }
}

enum EnvarStore<T> {
    /// Write-once slot, used when loaded on startup.
    OnStartup(Option<T>),
    /// Last observed raw value (or absence) and last parsed value.
    OnDemand(Option<String>, Option<T>),
}

/// The visible cache state of a variable.
pub enum StoreModel<T> {
    /// Write-once slot: empty, or holding the committed value.
    Startup(Option<T>),
    /// The last observed raw string (or absence) and the last parsed value.
    Demand(Option<Seq<char>>, Option<T>),
}

/// A typed, cached variable: a name, a default policy and a caching policy,
/// fixed at construction, plus the mutable cache state the policy needs.
pub struct Envar<T> {
    name: &'static str,
    default: EnvarDef<T>,
    store: EnvarStore<T>,
}

/// The view of a raw environment value.
pub open spec fn opt_view(o: Option<String>) -> Option<Seq<char>> {
    match o {
        None => None,
        Some(s) => Some(s@),
    }
}

/// A `ParseError` with the fields the rule for `T` prescribes for the raw
/// string `s`, attributed to the variable `name`, its reason still pending.
pub open spec fn is_parse_err<T>(e: EnvarError, name: Seq<char>, s: Seq<char>) -> bool where
    EnvarParser<T>: EnvarParse<T>
 {
    e matches EnvarError::ParseError { varname, typename, value, reason } && varname@ == name
        && typename@ == <EnvarParser<T> as EnvarParse<T>>::type_label() && value@ == <EnvarParser<
        T,
    > as EnvarParse<T>>::err_value(s) && reason.wf() && !reason.resolved() && reason.text()
        == <EnvarParser<T> as EnvarParse<T>>::fail_text(s)
}

/// How one read steps a startup (write-once) variable.
///
/// A committed slot answers every read with the committed value.  An empty
/// slot resolves the raw value: a parse success or a default commits; a
/// rejection leaves the slot empty, so a later read may still succeed.
pub open spec fn startup_step<T>(
    name: Seq<char>,
    default: EnvarDef<T>,
    pre: Option<T>,
    raw: Option<Seq<char>>,
    post: Option<T>,
    r: Result<T, EnvarError>,
) -> bool where EnvarParser<T>: EnvarParse<T> {
    match pre {
        Some(c) => post == pre && r == Ok::<T, EnvarError>(c),
        None => match raw {
            Some(s) => match <EnvarParser<T> as EnvarParse<T>>::outcome(s) {
                ParseOutcome::Success => r matches Ok(v) && <EnvarParser<T> as EnvarParse<
                    T,
                >>::good_value(s, v) && post == Some(v),
                ParseOutcome::Failure => {
                    &&& post == pre
                    &&& r matches Err(e) && is_parse_err::<T>(e, name, s)
                },
                ParseOutcome::UseDefault => match default {
                    EnvarDef::Default(d) => post == Some(d) && r == Ok::<T, EnvarError>(d),
                    EnvarDef::Unset => {
                        &&& post == pre
                        &&& r matches Err(EnvarError::NotSet(n)) && n@ == name
                    },
                },
            },
            None => match default {
                EnvarDef::Default(d) => post == Some(d) && r == Ok::<T, EnvarError>(d),
                EnvarDef::Unset => {
                    &&& post == pre
                    &&& r matches Err(EnvarError::NotSet(n)) && n@ == name
                },
            },
        },
    }
}

/// How one read steps an on-demand variable.
///
/// A read first compares the current raw value with the stored one: on exact
/// agreement with a cached parsed value it is a cache hit.  Otherwise it
/// recomputes: an absent raw value resolves (and caches) the default or
/// fails; a present one is parsed, with success cached, a deferred-to-default
/// outcome resolved without caching, and a rejection returned without
/// touching the cache.
pub open spec fn demand_step<T>(
    name: Seq<char>,
    default: EnvarDef<T>,
    pre_raw: Option<Seq<char>>,
    pre_val: Option<T>,
    raw: Option<Seq<char>>,
    post_raw: Option<Seq<char>>,
    post_val: Option<T>,
    r: Result<T, EnvarError>,
) -> bool where EnvarParser<T>: EnvarParse<T> {
    if pre_raw == raw && pre_val is Some {
        post_raw == pre_raw && post_val == pre_val && r == Ok::<T, EnvarError>(pre_val->0)
    } else {
        match raw {
            None => match default {
                EnvarDef::Default(d) => post_raw is None && post_val == Some(d) && r == Ok::<
                    T,
                    EnvarError,
                >(d),
                EnvarDef::Unset => {
                    &&& post_raw == pre_raw
                    &&& post_val == pre_val
                    &&& r matches Err(EnvarError::NotSet(n)) && n@ == name
                },
            },
            Some(s) => match <EnvarParser<T> as EnvarParse<T>>::outcome(s) {
                ParseOutcome::Success => r matches Ok(v) && <EnvarParser<T> as EnvarParse<
                    T,
                >>::good_value(s, v) && post_raw == Some(s) && post_val == Some(v),
                ParseOutcome::Failure => {
                    &&& post_raw == pre_raw
                    &&& post_val == pre_val
                    &&& r matches Err(e) && is_parse_err::<T>(e, name, s)
                },
                ParseOutcome::UseDefault => {
                    &&& post_raw == pre_raw
                    &&& post_val == pre_val
                    &&& match default {
                        EnvarDef::Default(d) => r == Ok::<T, EnvarError>(d),
                        EnvarDef::Unset => r matches Err(EnvarError::NotSet(n)) && n@ == name,
                    }
                },
            },
        }
    }
}

fn opt_str_eq(a: &Option<String>, b: &Option<String>) -> (r: bool)
    ensures
        r == (opt_view(*a) == opt_view(*b)),
{
    match (a, b) {
        (None, None) => true,
        (Some(x), Some(y)) => x.eq(y),
        _ => false,
    }
}

impl<T> Envar<T> {
    /// The bound variable name.
    pub closed spec fn spec_name(&self) -> Seq<char> {
        self.name@
    }

    /// The default policy's result.
    pub closed spec fn spec_default(&self) -> EnvarDef<T> {
        self.default
    }

    /// The cache state.
    pub closed spec fn model(&self) -> StoreModel<T> {
        match self.store {
            EnvarStore::OnStartup(c) => StoreModel::Startup(c),
            EnvarStore::OnDemand(sraw, v) => StoreModel::Demand(
                match sraw {
                    None => None,
                    Some(s) => Some(s@),
                },
                v,
            ),
        }
    }

    /// Declares a variable that always reflects the latest raw value, with
    /// cache-hit shortcutting when the raw string is unchanged.
    pub fn on_demand(name: &'static str, default: EnvarDef<T>) -> (r: Self)
        ensures
            r.spec_name() == name@,
            r.spec_default() == default,
            r.model() == StoreModel::Demand(None::<Seq<char>>, None::<T>),
    {
        Envar { name, default, store: EnvarStore::OnDemand(None, None) }
    }

    /// Declares a variable permanently pinned to the first successfully
    /// resolved value.
    pub fn on_startup(name: &'static str, default: EnvarDef<T>) -> (r: Self)
        ensures
            r.spec_name() == name@,
            r.spec_default() == default,
            r.model() == StoreModel::Startup(None::<T>),
    {
        Envar { name, default, store: EnvarStore::OnStartup(None) }
    }

    /// The bound variable name, verbatim.
    pub fn name(&self) -> (r: &'static str)
        ensures
            r@ == self.spec_name(),
    {
        self.name
    }
}

impl<T> Envar<T> where EnvarParser<T>: EnvarParse<T> {
    /// Reads the variable's typed value, given the current raw environment
    /// value for its name (present, or absent).  The name and the default
    /// policy never change; the cache state and the result step as the
    /// variable's caching policy prescribes.
    pub fn value(&mut self, raw: Option<String>) -> (r: Result<T, EnvarError>)
        ensures
            final(self).spec_name() == old(self).spec_name(),
            final(self).spec_default() == old(self).spec_default(),
            match old(self).model() {
                StoreModel::Startup(pre) => final(self).model() matches StoreModel::Startup(post)
                    && startup_step::<T>(
                    old(self).spec_name(),
                    old(self).spec_default(),
                    pre,
                    opt_view(raw),
                    post,
                    r,
                ),
                StoreModel::Demand(pre_raw, pre_val) => final(self).model() matches StoreModel::Demand(
                    post_raw,
                    post_val,
                ) && demand_step::<T>(
                    old(self).spec_name(),
                    old(self).spec_default(),
                    pre_raw,
                    pre_val,
                    opt_view(raw),
                    post_raw,
                    post_val,
                    r,
                ),
            },
    {
        match &self.store {
            EnvarStore::OnStartup(committed) => {
                if let Some(c) = committed {
                    return Ok(<EnvarParser<T> as EnvarParse<T>>::dup(c));
                }
                match raw {
                    Some(s) => match <EnvarParser<T> as EnvarParse<T>>::parse(
                        self.name,
                        s.as_str(),
                    ) {
                        Ok(v) => {
                            let out = <EnvarParser<T> as EnvarParse<T>>::dup(&v);
                            self.store = EnvarStore::OnStartup(Some(v));
                            Ok(out)
                        },
                        Err(e) => match e {
                            EnvarError::TryDefault(vn) => match &self.default {
                                EnvarDef::Default(d) => {
                                    let v = <EnvarParser<T> as EnvarParse<T>>::dup(d);
                                    let out = <EnvarParser<T> as EnvarParse<T>>::dup(&v);
                                    self.store = EnvarStore::OnStartup(Some(v));
                                    Ok(out)
                                },
                                EnvarDef::Unset => Err(EnvarError::NotSet(vn)),
                            },
                            other => Err(other),
                        },
                    },
                    None => match &self.default {
                        EnvarDef::Default(d) => {
                            let v = <EnvarParser<T> as EnvarParse<T>>::dup(d);
                            let out = <EnvarParser<T> as EnvarParse<T>>::dup(&v);
                            self.store = EnvarStore::OnStartup(Some(v));
                            Ok(out)
                        },
                        EnvarDef::Unset => Err(EnvarError::NotSet(self.name.to_owned())),
                    },
                }
            },
            EnvarStore::OnDemand(stored_raw, stored_val) => {
                if opt_str_eq(stored_raw, &raw) {
                    if let Some(v) = stored_val {
                        return Ok(<EnvarParser<T> as EnvarParse<T>>::dup(v));
                    }
                }
                match raw {
                    None => match &self.default {
                        EnvarDef::Default(d) => {
                            let v = <EnvarParser<T> as EnvarParse<T>>::dup(d);
                            let out = <EnvarParser<T> as EnvarParse<T>>::dup(&v);
                            self.store = EnvarStore::OnDemand(None, Some(v));
                            Ok(out)
                        },
                        EnvarDef::Unset => Err(EnvarError::NotSet(self.name.to_owned())),
                    },
                    Some(s) => match <EnvarParser<T> as EnvarParse<T>>::parse(
                        self.name,
                        s.as_str(),
                    ) {
                        Ok(v) => {
                            let out = <EnvarParser<T> as EnvarParse<T>>::dup(&v);
                            self.store = EnvarStore::OnDemand(Some(s), Some(v));
                            Ok(out)
                        },
                        Err(e) => match e {
                            EnvarError::TryDefault(vn) => match &self.default {
                                EnvarDef::Default(d) => Ok(
                                    <EnvarParser<T> as EnvarParse<T>>::dup(d),
                                ),
                                EnvarDef::Unset => Err(EnvarError::NotSet(vn)),
                            },
                            other => Err(other),
                        },
                    },
                }
            },
        }
    }
}

/// Once a startup variable has committed a value, a read returns exactly the
/// committed value and leaves the state unchanged, whatever raw value the
/// environment now holds: no later environment mutation affects the
/// variable's observed value.
pub proof fn lemma_startup_pinned<T>(
    name: Seq<char>,
    default: EnvarDef<T>,
    c: T,
    raw: Option<Seq<char>>,
    post: Option<T>,
    r: Result<T, EnvarError>,
) where EnvarParser<T>: EnvarParse<T>
    requires
        startup_step::<T>(name, default, Some(c), raw, post, r),
    ensures
        post == Some(c),
        r == Ok::<T, EnvarError>(c),
{
}

/// All reads of a startup variable after a commit observe the identical
/// committed value: two successive reads, under any two raw values, both
/// return it and leave it committed.
pub proof fn lemma_startup_reads_agree<T>(
    name: Seq<char>,
    default: EnvarDef<T>,
    c: T,
    raw1: Option<Seq<char>>,
    post1: Option<T>,
    r1: Result<T, EnvarError>,
    raw2: Option<Seq<char>>,
    post2: Option<T>,
    r2: Result<T, EnvarError>,
) where EnvarParser<T>: EnvarParse<T>
    requires
        startup_step::<T>(name, default, Some(c), raw1, post1, r1),
        startup_step::<T>(name, default, post1, raw2, post2, r2),
    ensures
        r1 == Ok::<T, EnvarError>(c),
        r2 == Ok::<T, EnvarError>(c),
        post2 == Some(c),
{
}

/// Two successive on-demand reads with an unchanged raw value: when the
/// first succeeds, the second returns an equal value and leaves the cache
/// state unchanged.
pub proof fn lemma_demand_stable<T>(
    name: Seq<char>,
    default: EnvarDef<T>,
    pre_raw: Option<Seq<char>>,
    pre_val: Option<T>,
    raw: Option<Seq<char>>,
    mid_raw: Option<Seq<char>>,
    mid_val: Option<T>,
    v: T,
    post_raw: Option<Seq<char>>,
    post_val: Option<T>,
    r2: Result<T, EnvarError>,
) where EnvarParser<T>: EnvarParse<T>
    requires
        demand_step::<T>(name, default, pre_raw, pre_val, raw, mid_raw, mid_val, Ok(v)),
        demand_step::<T>(name, default, mid_raw, mid_val, raw, post_raw, post_val, r2),
    ensures
        r2 == Ok::<T, EnvarError>(v),
        post_raw == mid_raw,
        post_val == mid_val,
{
}

/// An on-demand read that sees a parseable raw string returns the newly
/// parsed value, whatever was cached before.
pub proof fn lemma_demand_follows_env<T>(
    name: Seq<char>,
    default: EnvarDef<T>,
    pre_raw: Option<Seq<char>>,
    pre_val: Option<T>,
    s: Seq<char>,
    post_raw: Option<Seq<char>>,
    post_val: Option<T>,
    r: Result<T, EnvarError>,
) where EnvarParser<T>: EnvarParse<T>
    requires
        demand_step::<T>(name, default, pre_raw, pre_val, Some(s), post_raw, post_val, r),
        <EnvarParser<T> as EnvarParse<T>>::outcome(s) is Success,
        !(pre_raw == Some(s) && pre_val is Some),
    ensures
        r matches Ok(v) && <EnvarParser<T> as EnvarParse<T>>::good_value(s, v),
        post_raw == Some(s),
        post_val is Some && r == Ok::<T, EnvarError>(post_val->0),
{
}

/// An optional-typed on-demand variable whose raw string is empty or
/// whitespace-only resolves to the configured default when one exists and to
/// `NotSet` otherwise, without touching the cache (unless a cache hit
/// answers first).
pub proof fn lemma_optional_blank_uses_default<T>(
    name: Seq<char>,
    default: EnvarDef<Option<T>>,
    pre_raw: Option<Seq<char>>,
    pre_val: Option<Option<T>>,
    s: Seq<char>,
    post_raw: Option<Seq<char>>,
    post_val: Option<Option<T>>,
    r: Result<Option<T>, EnvarError>,
) where EnvarParser<T>: EnvarParse<T>
    requires
        demand_step::<Option<T>>(name, default, pre_raw, pre_val, Some(s), post_raw, post_val, r),
        trim(s).len() == 0,
        !(pre_raw == Some(s) && pre_val is Some),
    ensures
        match default {
            EnvarDef::Default(d) => r == Ok::<Option<T>, EnvarError>(d),
            EnvarDef::Unset => r matches Err(EnvarError::NotSet(n)) && n@ == name,
        },
        post_raw == pre_raw,
        post_val == pre_val,
{
}

/// An optional-typed startup variable whose first read sees an empty or
/// whitespace-only raw string commits the configured default when one
/// exists, and fails with `NotSet`, committing nothing, otherwise.
pub proof fn lemma_optional_blank_startup<T>(
    name: Seq<char>,
    default: EnvarDef<Option<T>>,
    s: Seq<char>,
    post: Option<Option<T>>,
    r: Result<Option<T>, EnvarError>,
) where EnvarParser<T>: EnvarParse<T>
    requires
        startup_step::<Option<T>>(name, default, None::<Option<T>>, Some(s), post, r),
        trim(s).len() == 0,
    ensures
        match default {
            EnvarDef::Default(d) => r == Ok::<Option<T>, EnvarError>(d) && post == Some(d),
            EnvarDef::Unset => (r matches Err(EnvarError::NotSet(n)) && n@ == name) && post
                is None,
        },
{
}

/// For a raw string that does not trim to nothing, the optional rule decides
/// exactly as the element rule does on the trimmed string, and wraps an
/// accepted value as present.
pub proof fn lemma_optional_follows_element<T>(s: Seq<char>, v: Option<T>) where
    EnvarParser<T>: EnvarParse<T>

    requires
        trim(s).len() > 0,
    ensures
        <EnvarParser<Option<T>> as EnvarParse<Option<T>>>::outcome(s) == <EnvarParser<
            T,
        > as EnvarParse<T>>::outcome(trim(s)),
        <EnvarParser<Option<T>> as EnvarParse<Option<T>>>::good_value(s, v) <==> (v matches Some(u)
            && <EnvarParser<T> as EnvarParse<T>>::good_value(trim(s), u)),
{
}

} // verus!
