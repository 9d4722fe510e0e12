//! Allow/deny lists and scoping.

use vstd::prelude::*;
use crate::config::{FilterMode, Scoping};
use crate::text::{concat3, decimal, u64_to_decimal};

verus! {

/// `Ok(())` when a message or reaction passes, otherwise the reason it fails.
pub type FilterResult = Result<(), String>;

/// What a filter decides, as a specification value: the input passes, is
/// rejected with the given reason, or the decision is not defined because a
/// capture group that the rule reports took no part in a match.
pub enum Verdict {
    Pass,
    Reject(Seq<char>),
    Stuck,
}

/// The verdict that a computed `FilterResult` stands for.
pub open spec fn verdict_of(r: FilterResult) -> Verdict {
    match r {
        Ok(()) => Verdict::Pass,
        Err(e) => Verdict::Reject(e@),
    }
}

/// Whether `v` breaks a list in the given mode.
pub open spec fn offends<A>(mode: FilterMode, list: Seq<A>, v: A) -> bool {
    match mode {
        FilterMode::AllowList => !list.contains(v),
        FilterMode::DenyList => list.contains(v),
    }
}

/// The first of `values` that breaks the list, if any.
pub open spec fn first_offending<A>(mode: FilterMode, list: Seq<A>, values: Seq<A>) -> Option<A>
    decreases values.len(),
{
    if values.len() == 0 {
        None
    } else if offends(mode, list, values[0]) {
        Some(values[0])
    } else {
        first_offending(mode, list, values.drop_first())
    }
}

/// The reason given for a value that breaks a list.
pub open spec fn listing_message(mode: FilterMode, context: Seq<char>, v: Seq<char>) -> Seq<char> {
    match mode {
        FilterMode::AllowList => "contains unallowed "@ + context + " `"@ + v + "`"@,
        FilterMode::DenyList => "contains denied "@ + context + " `"@ + v + "`"@,
    }
}

/// Checking textual values against a list: the first offending value is reported.
pub open spec fn values_verdict(
    mode: FilterMode,
    context: Seq<char>,
    values: Seq<Seq<char>>,
    list: Seq<Seq<char>>,
) -> Verdict {
    match first_offending(mode, list, values) {
        Some(v) => Verdict::Reject(listing_message(mode, context, v)),
        None => Verdict::Pass,
    }
}

/// Checking identifiers against a list: the first offending one is reported
/// in decimal.
pub open spec fn ids_verdict(
    mode: FilterMode,
    context: Seq<char>,
    values: Seq<u64>,
    list: Seq<u64>,
) -> Verdict {
    match first_offending(mode, list, values) {
        Some(v) => Verdict::Reject(listing_message(mode, context, decimal(v as nat))),
        None => Verdict::Pass,
    }
}

proof fn lemma_first_offending_skip<A>(mode: FilterMode, list: Seq<A>, values: Seq<A>, i: int)
    requires
        0 <= i < values.len(),
        !offends(mode, list, values[i]),
    ensures
        first_offending(mode, list, values.skip(i)) == first_offending(mode, list, values.skip(i + 1)),
{
    assert(values.skip(i).drop_first() =~= values.skip(i + 1));
}

/// Whether `v` occurs in `list`.
pub fn contains_str(list: &Vec<String>, v: &str) -> (res: bool)
    ensures
        res == list.deep_view().contains(v@),
{
    let ghost dv = list.deep_view();
    let target = String::from_str(v);
    let mut k: usize = 0;
    while k < list.len()
        invariant
            k <= list.len(),
            dv == list.deep_view(),
            target@ == v@,
            forall|j: int| 0 <= j < k ==> dv[j] != v@,
        decreases list.len() - k,
    {
        assert(dv[k as int] == list@[k as int]@);
        if list[k] == target {
            assert(dv[k as int] == v@);
            return true;
        }
        k = k + 1;
    }
    proof {
        if dv.contains(v@) {
            let j = choose|j: int| 0 <= j < dv.len() && dv[j] == v@;
            assert(dv[j] != v@);
        }
    }
    false
}

/// Whether `v` occurs in `list`.
pub fn contains_id(list: &Vec<u64>, v: u64) -> (res: bool)
    ensures
        res == list@.contains(v),
{
    let mut k: usize = 0;
    while k < list.len()
        invariant
            k <= list.len(),
            forall|j: int| 0 <= j < k ==> list@[j] != v,
        decreases list.len() - k,
    {
        if list[k] == v {
            assert(list@[k as int] == v);
            return true;
        }
        k = k + 1;
    }
    false
}

pub(crate) fn listing_error(mode: &FilterMode, context: &str, v: &str) -> (s: String)
    ensures
        s@ == listing_message(*mode, context@, v@),
{
    let head = match mode {
        FilterMode::AllowList => concat3("contains unallowed ", context, " `"),
        FilterMode::DenyList => concat3("contains denied ", context, " `"),
    };
    concat3(head.as_str(), v, "`")
}

/// Checks values against a list: in allow mode every value must be listed,
/// in deny mode none may be. The first value that breaks the list is
/// reported together with `context`.
pub fn filter_values(
    mode: &FilterMode,
    context: &str,
    values: &Vec<String>,
    list: &Vec<String>,
) -> (res: FilterResult)
    ensures
        verdict_of(res) == values_verdict(*mode, context@, values.deep_view(), list.deep_view()),
{
    let ghost vs = values.deep_view();
    let ghost lv = list.deep_view();
    let mut i: usize = 0;
    assert(vs.skip(0) =~= vs);
    while i < values.len()
        invariant
            i <= values.len(),
            vs == values.deep_view(),
            lv == list.deep_view(),
            first_offending(*mode, lv, vs) == first_offending(*mode, lv, vs.skip(i as int)),
        decreases values.len() - i,
    {
        let listed = contains_str(list, values[i].as_str());
        assert(vs[i as int] == values[i as int]@);
        let bad = match mode {
            FilterMode::AllowList => !listed,
            FilterMode::DenyList => listed,
        };
        if bad {
            assert(vs.skip(i as int)[0] == vs[i as int]);
            return Err(listing_error(mode, context, values[i].as_str()));
        }
        proof { lemma_first_offending_skip(*mode, lv, vs, i as int); }
        i = i + 1;
    }
    assert(vs.skip(i as int).len() == 0);
    Ok(())
}

/// `filter_values` for numeric identifiers, which are reported in decimal.
pub fn filter_ids(
    mode: &FilterMode,
    context: &str,
    values: &Vec<u64>,
    list: &Vec<u64>,
) -> (res: FilterResult)
    ensures
        verdict_of(res) == ids_verdict(*mode, context@, values@, list@),
{
    let ghost vs = values@;
    let ghost lv = list@;
    let mut i: usize = 0;
    assert(vs.skip(0) =~= vs);
    while i < values.len()
        invariant
            i <= values.len(),
            vs == values@,
            lv == list@,
            first_offending(*mode, lv, vs) == first_offending(*mode, lv, vs.skip(i as int)),
        decreases values.len() - i,
    {
        let listed = contains_id(list, values[i]);
        let bad = match mode {
            FilterMode::AllowList => !listed,
            FilterMode::DenyList => listed,
        };
        if bad {
            assert(vs.skip(i as int)[0] == vs[i as int]);
            let shown = u64_to_decimal(values[i]);
            return Err(listing_error(mode, context, shown.as_str()));
        }
        proof { lemma_first_offending_skip(*mode, lv, vs, i as int); }
        i = i + 1;
    }
    assert(vs.skip(i as int).len() == 0);
    Ok(())
}

impl Scoping {
    /// Whether a filter with this scoping applies to a message in `channel`
    /// whose author holds `author_roles`.
    pub open spec fn includes(&self, channel: u64, author_roles: Seq<u64>) -> bool {
        &&& (self.include_channels matches Some(chans) ==> chans@.contains(channel))
        &&& (self.exclude_channels matches Some(chans) ==> !chans@.contains(channel))
        &&& (self.exclude_roles matches Some(roles) ==>
            forall|i: int| 0 <= i < roles@.len() ==> !author_roles.contains(#[trigger] roles@[i]))
    }

    /// Decides whether the filter applies: the channel must be among the
    /// included channels (when they are given) and not among the excluded
    /// ones, and the author must hold none of the excluded roles.
    pub fn is_included(&self, channel: u64, author_roles: &[u64]) -> (res: bool)
        ensures
            res == self.includes(channel, author_roles@),
    {
        if let Some(chans) = &self.include_channels {
            if !contains_id(chans, channel) {
                return false;
            }
        }
        if let Some(chans) = &self.exclude_channels {
            if contains_id(chans, channel) {
                return false;
            }
        }
        if let Some(roles) = &self.exclude_roles {
            let mut i: usize = 0;
            while i < roles.len()
                invariant
                    i <= roles.len(),
                    self.exclude_roles == Some(*roles),
                    forall|j: int| 0 <= j < i ==> !author_roles@.contains(#[trigger] roles@[j]),
                decreases roles.len() - i,
            {
                if slice_contains_id(author_roles, roles[i]) {
                    assert(author_roles@.contains(roles@[i as int]));
                    assert(!self.includes(channel, author_roles@)) by {
                        let r = self.exclude_roles->0;
                        assert(r@[i as int] == roles@[i as int]);
                    }
                    return false;
                }
                i = i + 1;
            }
        }
        true
    }
}

fn slice_contains_id(list: &[u64], v: u64) -> (res: bool)
    ensures
        res == list@.contains(v),
{
    let mut k: usize = 0;
    while k < list.len()
        invariant
            k <= list.len(),
            forall|j: int| 0 <= j < k ==> list@[j] != v,
        decreases list.len() - k,
    {
        if list[k] == v {
            assert(list@[k as int] == v);
            return true;
        }
        k = k + 1;
    }
    false
}

} // verus!
