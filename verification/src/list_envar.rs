//! The delimited-list adapter: parses a separated string into an ordered
//! sequence of elements, with a configurable separator and filtering.
//!
//! List contents are owned by shared, reference-counted storage, so cloning a
//! list handle is cheap and never duplicates or mutates the elements.

use crate::chars::trim;
use crate::chars::trim_str;
use crate::error::EnvarError;
use crate::parse::EnvarParse;
use crate::parse::EnvarParser;
use crate::parse::ParseOutcome;
use std::sync::Arc;
use vstd::prelude::*;
use vstd::string::StrSliceExecFns;
use vstd::string::StringExecFns;

verus! {

/// Relies on `Arc::clone`: the returned handle refers to the same vector as
/// the argument.
#[verifier::external_body]
fn shared_vec_dup<E>(v: &Arc<Vec<E>>) -> (r: Arc<Vec<E>>)
    ensures
        r == *v,
{
    Arc::clone(v)
}

/// Relies on `Arc::deref`: borrows the vector the handle refers to.
#[verifier::external_body]
fn shared_vec_borrow<E>(v: &Arc<Vec<E>>) -> (r: &Vec<E>)
    ensures
        *r == **v,
{
    &**v
}

/// An ordered sequence of parsed elements in shared, logically-immutable
/// storage.  The order is the order of appearance in the source string,
/// after filtering.
#[derive(Debug)]
pub struct ListEnvar<E, C> {
    config: core::marker::PhantomData<C>,
    vec: Arc<Vec<E>>,
}

/// Configuration for the [`ListEnvar`] type: the separator literal and the
/// two segment filters.
pub trait ListEnvarConfig {
    /// The separator, as a sequence of characters.
    spec fn spec_sep() -> Seq<char>;

    /// Whether empty segments are dropped.
    spec fn spec_filter_empty() -> bool;

    /// Whether segments that trim to nothing are dropped.
    spec fn spec_filter_whitespace() -> bool;

    /// The separator is a fixed, nonempty literal substring.
    proof fn sep_nonempty()
        ensures
            Self::spec_sep().len() > 0,
    ;

    /// The separator to use when parsing the list.
    fn sep() -> (s: &'static str)
        ensures
            s@ == Self::spec_sep(),
    ;

    /// Whether to filter empty segments.
    fn filter_empty_str() -> (b: bool)
        ensures
            b == Self::spec_filter_empty(),
    ;

    /// Whether to filter whitespace-only segments.
    fn filter_whitespace() -> (b: bool)
        ensures
            b == Self::spec_filter_whitespace(),
    ;
}

/// Comma-separated, dropping empty and whitespace-only segments.
#[derive(Debug)]
pub struct CommaConfig;

impl ListEnvarConfig for CommaConfig {
    open spec fn spec_sep() -> Seq<char> {
        ","@
    }

    open spec fn spec_filter_empty() -> bool {
        true
    }

    open spec fn spec_filter_whitespace() -> bool {
        true
    }

    proof fn sep_nonempty() {
        reveal_strlit(",");
    }

    fn sep() -> (s: &'static str) {
        ","
    }

    fn filter_empty_str() -> (b: bool) {
        true
    }

    fn filter_whitespace() -> (b: bool) {
        true
    }
}

/// Semicolon-separated, keeping every segment.
#[derive(Debug)]
pub struct SemicolonConfig;

impl ListEnvarConfig for SemicolonConfig {
    open spec fn spec_sep() -> Seq<char> {
        ";"@
    }

    open spec fn spec_filter_empty() -> bool {
        false
    }

    open spec fn spec_filter_whitespace() -> bool {
        false
    }

    proof fn sep_nonempty() {
        reveal_strlit(";");
    }

    fn sep() -> (s: &'static str) {
        ";"
    }

    fn filter_empty_str() -> (b: bool) {
        false
    }

    fn filter_whitespace() -> (b: bool) {
        false
    }
}

/// Comma-separated, keeping every segment.
#[derive(Debug)]
pub struct NoFilterConfig;

impl ListEnvarConfig for NoFilterConfig {
    open spec fn spec_sep() -> Seq<char> {
        ","@
    }

    open spec fn spec_filter_empty() -> bool {
        false
    }

    open spec fn spec_filter_whitespace() -> bool {
        false
    }

    proof fn sep_nonempty() {
        reveal_strlit(",");
    }

    fn sep() -> (s: &'static str) {
        ","
    }

    fn filter_empty_str() -> (b: bool) {
        false
    }

    fn filter_whitespace() -> (b: bool) {
        false
    }
}

impl<E, C> ListEnvar<E, C> {
    /// The elements the list holds, in order.
    pub closed spec fn elems(&self) -> Seq<E> {
        self.vec@
    }

    /// Wraps a vector of parsed elements in shared storage.
    pub fn new(vec: Vec<E>) -> (r: Self)
        ensures
            r.elems() == vec@,
    {
        ListEnvar { config: core::marker::PhantomData, vec: Arc::new(vec) }
    }

    /// The number of elements.
    pub fn len(&self) -> (r: usize)
        ensures
            r == self.elems().len(),
    {
        shared_vec_borrow(&self.vec).len()
    }

    /// The element at a position.
    pub fn get(&self, i: usize) -> (r: &E)
        requires
            i < self.elems().len(),
        ensures
            *r == self.elems()[i as int],
    {
        &shared_vec_borrow(&self.vec)[i]
    }
}

/// The separator occurs at position `i`.
pub open spec fn match_at(s: Seq<char>, sep: Seq<char>, i: int) -> bool {
    0 <= i && i + sep.len() <= s.len() && s.subrange(i, i + sep.len()) == sep
}

/// The first occurrence of the separator at or after `pos`.
pub open spec fn find_sep(s: Seq<char>, sep: Seq<char>, pos: int) -> Option<int>
    decreases s.len() - pos,
{
    if pos < 0 || pos + sep.len() > s.len() || sep.len() <= 0 {
        None
    } else if match_at(s, sep, pos) {
        Some(pos)
    } else {
        find_sep(s, sep, pos + 1)
    }
}

proof fn lemma_find_sep_bounds(s: Seq<char>, sep: Seq<char>, pos: int)
    requires
        find_sep(s, sep, pos) is Some,
    ensures
        pos <= find_sep(s, sep, pos)->0,
        find_sep(s, sep, pos)->0 + sep.len() <= s.len(),
        match_at(s, sep, find_sep(s, sep, pos)->0),
    decreases s.len() - pos,
{
    if !(pos < 0 || pos + sep.len() > s.len() || sep.len() <= 0) && !match_at(s, sep, pos) {
        lemma_find_sep_bounds(s, sep, pos + 1);
    }
}

proof fn lemma_find_sep_here(s: Seq<char>, sep: Seq<char>, pos: int, i: int)
    requires
        0 <= pos <= i,
        sep.len() > 0,
        match_at(s, sep, i),
        forall|j: int| pos <= j < i ==> !match_at(s, sep, j),
    ensures
        find_sep(s, sep, pos) == Some(i),
    decreases i - pos,
{
    if pos < i {
        lemma_find_sep_here(s, sep, pos + 1, i);
    }
}

proof fn lemma_find_sep_none(s: Seq<char>, sep: Seq<char>, pos: int, end: int)
    requires
        0 <= pos <= end,
        sep.len() > 0,
        end + sep.len() > s.len(),
        forall|j: int| pos <= j < end ==> !match_at(s, sep, j),
    ensures
        find_sep(s, sep, pos) is None,
    decreases end - pos,
{
    if pos < end {
        lemma_find_sep_none(s, sep, pos + 1, end);
    }
}

/// The segments of `s` from `pos` on, split on the separator.
pub open spec fn split_from(s: Seq<char>, sep: Seq<char>, pos: int) -> Seq<Seq<char>>
    decreases s.len() - pos when 0 <= pos <= s.len() && sep.len() > 0
    via split_from_decreases
{
    match find_sep(s, sep, pos) {
        None => seq![s.subrange(pos, s.len() as int)],
        Some(i) => seq![s.subrange(pos, i)] + split_from(s, sep, i + sep.len()),
    }
}

#[via_fn]
proof fn split_from_decreases(s: Seq<char>, sep: Seq<char>, pos: int) {
    if find_sep(s, sep, pos) is Some {
        lemma_find_sep_bounds(s, sep, pos);
    }
}

/// The views of a vector of borrowed segments.
pub open spec fn str_views(v: Seq<&str>) -> Seq<Seq<char>> {
    Seq::new(v.len(), |i: int| v[i]@)
}

/// Whether the separator occurs at position `i`, by character comparison.
fn match_at_str(s: &str, n: usize, sep: &str, m: usize, i: usize) -> (r: bool)
    requires
        n == s@.len(),
        m == sep@.len(),
        i + m <= n,
    ensures
        r == match_at(s@, sep@, i as int),
{
    let mut j: usize = 0;
    while j < m
        invariant
            0 <= j <= m,
            n == s@.len(),
            m == sep@.len(),
            i + m <= n,
            forall|k: int| 0 <= k < j ==> s@[i + k] == sep@[k],
        decreases m - j,
    {
        if s.get_char(i + j) != sep.get_char(j) {
            proof {
                assert(s@.subrange(i as int, i + m) != sep@) by {
                    assert(s@.subrange(i as int, i + m)[j as int] == s@[i + j]);
                }
            }
            return false;
        }
        j = j + 1;
    }
    proof {
        assert(s@.subrange(i as int, i + m) =~= sep@);
    }
    true
}

/// Splits on the separator, a fixed literal substring.
fn split_str<'a>(s: &'a str, sep: &str) -> (r: Vec<&'a str>)
    requires
        sep@.len() > 0,
    ensures
        str_views(r@) == split_from(s@, sep@, 0),
{
    let n = s.unicode_len();
    let m = sep.unicode_len();
    let mut out: Vec<&'a str> = Vec::new();
    let mut start: usize = 0;
    let mut i: usize = 0;
    loop
        invariant
            0 <= start <= i <= n,
            n == s@.len(),
            m == sep@.len(),
            m > 0,
            str_views(out@) + split_from(s@, sep@, start as int) == split_from(s@, sep@, 0),
            forall|j: int| start <= j < i ==> !match_at(s@, sep@, j),
        ensures
            0 <= start <= i <= n,
            i + m > n,
            str_views(out@) + split_from(s@, sep@, start as int) == split_from(s@, sep@, 0),
            forall|j: int| start <= j < i ==> !match_at(s@, sep@, j),
        decreases n - i,
    {
        if n - i < m {
            break;
        }
        if match_at_str(s, n, sep, m, i) {
            proof {
                lemma_find_sep_here(s@, sep@, start as int, i as int);
            }
            let seg = s.substring_char(start, i);
            out.push(seg);
            proof {
                assert(str_views(out@) =~= str_views(out@.drop_last()).push(seg@));
                assert(str_views(out@) + split_from(s@, sep@, i + m) =~= split_from(
                    s@,
                    sep@,
                    0,
                ));
            }
            start = i + m;
            i = start;
        } else {
            i = i + 1;
        }
    }
    proof {
        lemma_find_sep_none(s@, sep@, start as int, i as int);
    }
    let last = s.substring_char(start, n);
    out.push(last);
    proof {
        assert(str_views(out@) =~= str_views(out@.drop_last()).push(last@));
        assert(str_views(out@) =~= split_from(s@, sep@, 0));
    }
    out
}

/// The elements joined with the separator between consecutive ones.
pub open spec fn join_with(elems: Seq<Seq<char>>, sep: Seq<char>) -> Seq<char>
    decreases elems.len(),
{
    if elems.len() == 0 {
        Seq::empty()
    } else if elems.len() == 1 {
        elems[0]
    } else {
        elems[0] + sep + join_with(elems.drop_first(), sep)
    }
}

/// The views of a sequence of owned strings.
pub open spec fn string_views(elems: Seq<String>) -> Seq<Seq<char>> {
    Seq::new(elems.len(), |i: int| elems[i]@)
}

proof fn lemma_join_push(elems: Seq<Seq<char>>, x: Seq<char>, sep: Seq<char>)
    ensures
        join_with(elems.push(x), sep) == if elems.len() == 0 {
            x
        } else {
            join_with(elems, sep) + sep + x
        },
    decreases elems.len(),
{
    if elems.len() == 0 {
        assert(elems.push(x)[0] == x);
    } else if elems.len() == 1 {
        assert(elems.push(x).drop_first() =~= seq![x]);
        assert(elems.push(x)[0] == elems[0]);
        assert(join_with(seq![x], sep) == x);
    } else {
        assert(elems.push(x).drop_first() =~= elems.drop_first().push(x));
        lemma_join_push(elems.drop_first(), x, sep);
        assert(elems.push(x)[0] == elems[0]);
        assert((elems[0] + sep + (join_with(elems.drop_first(), sep) + sep + x)) =~= ((elems[0]
            + sep + join_with(elems.drop_first(), sep)) + sep + x));
    }
}

impl<C: ListEnvarConfig> ListEnvar<String, C> {
    /// The elements joined with the configured separator, in order, as a
    /// displayable string.
    pub fn to_display_string(&self) -> (r: String)
        ensures
            r@ == join_with(string_views(self.elems()), C::spec_sep()),
    {
        let v = shared_vec_borrow(&self.vec);
        let sep = C::sep();
        let n = v.len();
        let mut out = String::new();
        let mut i: usize = 0;
        while i < n
            invariant
                0 <= i <= n,
                n == v@.len(),
                v@ == self.elems(),
                sep@ == C::spec_sep(),
                out@ == join_with(string_views(v@).take(i as int), C::spec_sep()),
            decreases n - i,
        {
            proof {
                assert(string_views(v@).take(i + 1 as int) =~= string_views(v@).take(
                    i as int,
                ).push(v@[i as int]@));
                lemma_join_push(string_views(v@).take(i as int), v@[i as int]@, C::spec_sep());
            }
            if i > 0 {
                out.append(sep);
            }
            out.append(v[i].as_str());
            i = i + 1;
        }
        proof {
            assert(string_views(v@).take(n as int) =~= string_views(v@));
        }
        out
    }
}

impl<E, C> Clone for ListEnvar<E, C> {
    /// Cloning shares the same storage; the elements are not duplicated.
    fn clone(&self) -> (r: Self)
        ensures
            r == *self,
    {
        ListEnvar { config: core::marker::PhantomData, vec: shared_vec_dup(&self.vec) }
    }
}

/// The segments that survive filtering, trimmed, in order: an empty segment
/// is dropped when `fe` is set; otherwise the segment is trimmed, and dropped
/// when it trims to nothing and `fw` is set.
pub open spec fn kept_segments(segs: Seq<Seq<char>>, fe: bool, fw: bool) -> Seq<Seq<char>>
    decreases segs.len(),
{
    if segs.len() == 0 {
        Seq::empty()
    } else {
        let rest = kept_segments(segs.drop_first(), fe, fw);
        if fe && segs[0].len() == 0 {
            rest
        } else if fw && trim(segs[0]).len() == 0 {
            rest
        } else {
            seq![trim(segs[0])] + rest
        }
    }
}

pub proof fn lemma_kept_append(a: Seq<Seq<char>>, b: Seq<Seq<char>>, fe: bool, fw: bool)
    ensures
        kept_segments(a + b, fe, fw) == kept_segments(a, fe, fw) + kept_segments(b, fe, fw),
    decreases a.len(),
{
    if a.len() == 0 {
        assert(a + b =~= b);
        assert(kept_segments(a, fe, fw) + kept_segments(b, fe, fw) =~= kept_segments(b, fe, fw));
    } else {
        assert((a + b).drop_first() =~= a.drop_first() + b);
        lemma_kept_append(a.drop_first(), b, fe, fw);
        assert((a + b)[0] == a[0]);
        assert((seq![trim(a[0])] + kept_segments(a.drop_first(), fe, fw)) + kept_segments(
            b,
            fe,
            fw,
        ) =~= seq![trim(a[0])] + (kept_segments(a.drop_first(), fe, fw) + kept_segments(
            b,
            fe,
            fw,
        )));
    }
}

/// The position of the first surviving segment the element rule does not
/// accept, if any.
pub open spec fn list_first_bad<T>(kept: Seq<Seq<char>>) -> Option<int> where
    EnvarParser<T>: EnvarParse<T>

    decreases kept.len(),
{
    if kept.len() == 0 {
        None
    } else if !(<EnvarParser<T> as EnvarParse<T>>::outcome(kept[0]) is Success) {
        Some(0)
    } else {
        match list_first_bad::<T>(kept.drop_first()) {
            None => None,
            Some(k) => Some(k + 1),
        }
    }
}

pub proof fn lemma_first_bad_append<T>(a: Seq<Seq<char>>, b: Seq<Seq<char>>) where
    EnvarParser<T>: EnvarParse<T>

    requires
        list_first_bad::<T>(a) is None,
    ensures
        list_first_bad::<T>(a + b) == match list_first_bad::<T>(b) {
            None => None::<int>,
            Some(k) => Some(k + a.len()),
        },
    decreases a.len(),
{
    if a.len() == 0 {
        assert(a + b =~= b);
    } else {
        assert((a + b).drop_first() =~= a.drop_first() + b);
        lemma_first_bad_append::<T>(a.drop_first(), b);
        assert((a + b)[0] == a[0]);
    }
}

proof fn lemma_kept_single(x: Seq<char>, fe: bool, fw: bool)
    ensures
        kept_segments(seq![x], fe, fw) == if fe && x.len() == 0 {
            Seq::<Seq<char>>::empty()
        } else if fw && trim(x).len() == 0 {
            Seq::<Seq<char>>::empty()
        } else {
            seq![trim(x)]
        },
{
    assert(seq![x].drop_first() =~= Seq::<Seq<char>>::empty());
    assert(kept_segments(Seq::<Seq<char>>::empty(), fe, fw) == Seq::<Seq<char>>::empty());
    assert(seq![x][0] == x);
    if !(fe && x.len() == 0) && !(fw && trim(x).len() == 0) {
        assert(seq![trim(x)] + Seq::<Seq<char>>::empty() =~= seq![trim(x)]);
    }
}

proof fn lemma_first_bad_single<T>(x: Seq<char>) where EnvarParser<T>: EnvarParse<T>
    ensures
        list_first_bad::<T>(seq![x]) == if <EnvarParser<T> as EnvarParse<T>>::outcome(
            x,
        ) is Success {
            None::<int>
        } else {
            Some(0int)
        },
{
    assert(seq![x].drop_first() =~= Seq::<Seq<char>>::empty());
    assert(list_first_bad::<T>(Seq::<Seq<char>>::empty()) is None);
    assert(seq![x][0] == x);
}

/// The surviving segments of a raw string under a list configuration.
pub open spec fn list_kept<C: ListEnvarConfig>(s: Seq<char>) -> Seq<Seq<char>> {
    kept_segments(
        split_from(s, C::spec_sep(), 0),
        C::spec_filter_empty(),
        C::spec_filter_whitespace(),
    )
}

impl<T, C> EnvarParse<ListEnvar<T, C>> for EnvarParser<ListEnvar<T, C>> where
    C: ListEnvarConfig,
    EnvarParser<T>: EnvarParse<T>,
 {
    /// The list rule succeeds when every surviving segment parses under the
    /// element rule; the first rejected segment decides the outcome.
    open spec fn outcome(s: Seq<char>) -> ParseOutcome {
        match list_first_bad::<T>(list_kept::<C>(s)) {
            None => ParseOutcome::Success,
            Some(k) => <EnvarParser<T> as EnvarParse<T>>::outcome(list_kept::<C>(s)[k]),
        }
    }

    open spec fn good_value(s: Seq<char>, v: ListEnvar<T, C>) -> bool {
        &&& v.elems().len() == list_kept::<C>(s).len()
        &&& forall|k: int|
            0 <= k < list_kept::<C>(s).len() ==> <EnvarParser<T> as EnvarParse<T>>::good_value(
                list_kept::<C>(s)[k],
                #[trigger] v.elems()[k],
            )
    }

    open spec fn type_label() -> Seq<char> {
        <EnvarParser<T> as EnvarParse<T>>::type_label()
    }

    open spec fn err_value(s: Seq<char>) -> Seq<char> {
        <EnvarParser<T> as EnvarParse<T>>::err_value(
            list_kept::<C>(s)[list_first_bad::<T>(list_kept::<C>(s))->0],
        )
    }

    open spec fn fail_text(s: Seq<char>) -> Seq<char> {
        <EnvarParser<T> as EnvarParse<T>>::fail_text(
            list_kept::<C>(s)[list_first_bad::<T>(list_kept::<C>(s))->0],
        )
    }

    fn parse(varname: &str, value: &str) -> (r: Result<ListEnvar<T, C>, EnvarError>) {
        let sep = C::sep();
        let fe = C::filter_empty_str();
        let fw = C::filter_whitespace();
        proof {
            C::sep_nonempty();
        }
        let segs = split_str(value, sep);
        let ghost all = str_views(segs@);
        let ghost kept_all = list_kept::<C>(value@);
        let mut out: Vec<T> = Vec::new();
        let nsegs = segs.len();
        let mut i: usize = 0;
        while i < nsegs
            invariant
                0 <= i <= nsegs,
                nsegs == segs@.len(),
                all == str_views(segs@),
                fe == C::spec_filter_empty(),
                fw == C::spec_filter_whitespace(),
                kept_all == kept_segments(all, fe, fw),
                kept_all == list_kept::<C>(value@),
                list_first_bad::<T>(kept_segments(all.take(i as int), fe, fw)) is None,
                out@.len() == kept_segments(all.take(i as int), fe, fw).len(),
                forall|k: int|
                    0 <= k < out@.len() ==> <EnvarParser<T> as EnvarParse<T>>::good_value(
                        kept_segments(all.take(i as int), fe, fw)[k],
                        #[trigger] out@[k],
                    ),
            decreases nsegs - i,
        {
            let item = segs[i];
            let ghost pre = kept_segments(all.take(i as int), fe, fw);
            let ghost post = kept_segments(all.take(i + 1 as int), fe, fw);
            proof {
                assert(all[i as int] == item@);
                assert(all.take(i + 1 as int) =~= all.take(i as int) + seq![all[i as int]]);
                lemma_kept_append(all.take(i as int), seq![all[i as int]], fe, fw);
                lemma_kept_single(item@, fe, fw);
            }
            if fe && item.is_empty() {
                proof {
                    assert(post =~= pre);
                }
            } else {
                let trimmed = trim_str(item);
                if fw && trimmed.is_empty() {
                    proof {
                        assert(post =~= pre);
                    }
                } else {
                    proof {
                        assert(post =~= pre + seq![trim(item@)]);
                    }
                    match <EnvarParser<T> as EnvarParse<T>>::parse(varname, trimmed) {
                        Ok(v) => {
                            out.push(v);
                            proof {
                                lemma_first_bad_append::<T>(pre, seq![trim(item@)]);
                                lemma_first_bad_single::<T>(trim(item@));
                                assert(post[pre.len() as int] == trim(item@));
                                assert forall|k: int| 0 <= k < out@.len() implies <EnvarParser<
                                    T,
                                > as EnvarParse<T>>::good_value(post[k], #[trigger] out@[k]) by {
                                    if k < pre.len() {
                                        assert(post[k] == pre[k]);
                                        assert(out@[k] == out@.drop_last()[k]);
                                    }
                                }
                            }
                        },
                        Err(e) => {
                            proof {
                                let rest = kept_segments(all.skip(i + 1 as int), fe, fw);
                                assert(all.take(i + 1 as int) + all.skip(i + 1 as int) =~= all);
                                lemma_kept_append(all.take(i + 1 as int), all.skip(i + 1), fe, fw);
                                assert(kept_all == post + rest);
                                assert(kept_all =~= pre + (seq![trim(item@)] + rest));
                                lemma_first_bad_append::<T>(pre, seq![trim(item@)] + rest);
                                assert((seq![trim(item@)] + rest)[0] == trim(item@));
                                assert(list_first_bad::<T>(seq![trim(item@)] + rest) == Some(
                                    0int,
                                ));
                                assert(list_first_bad::<T>(kept_all) == Some(pre.len() as int));
                                assert(kept_all[pre.len() as int] == trim(item@));
                            }
                            return Err(e);
                        },
                    }
                }
            }
            i = i + 1;
        }
        proof {
            assert(all.take(nsegs as int) =~= all);
        }
        Ok(ListEnvar::new(out))
    }

    fn dup(v: &ListEnvar<T, C>) -> (r: ListEnvar<T, C>) {
        v.clone()
    }
}

} // verus!
