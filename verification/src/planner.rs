//! The planner's parts of the presence: progress through a candle run and
//! along a route.

use vstd::prelude::*;
use crate::presence::{or_default, PresenceSource};
use crate::text::{decimal, owned, push_i64, push_str, push_u64, signed_decimal, str_eq};

verus! {

/// A group of candles in a candle run, with the wax of each candle when it
/// has a whole number.
pub struct CandleGroupInfo {
    pub name: Option<String>,
    pub candles: Option<Vec<Option<i64>>>,
}

/// A candle run, with its groups when it lists them.
pub struct CandleRunInfo {
    pub name: Option<String>,
    pub groups: Option<Vec<CandleGroupInfo>>,
}

/// An entry of the planner's completed groups: the group's key and its flag
/// when that is a boolean.
pub struct CompletedGroup {
    pub key: String,
    pub done: Option<bool>,
}

/// The target of a route that is under way.
pub struct RouteTargetInfo {
    pub completed_count: Option<u64>,
    pub total: Option<u64>,
}

/// The area of a route.
pub struct AreaInfo {
    pub realm_name: Option<String>,
    pub name: Option<String>,
}

/// The key under which the planner records that a group of a run is done.
pub open spec fn group_key(run_guid: Seq<char>, group_name: Seq<char>, index: nat) -> Seq<char> {
    run_guid + ":"@ + decimal(index) + ":"@ + group_name
}

pub open spec fn sum(s: Seq<int>) -> int
    decreases s.len(),
{
    if s.len() == 0 {
        0
    } else {
        sum(s.drop_last()) + s.last()
    }
}

pub open spec fn in_i64(x: int) -> bool {
    i64::MIN <= x <= i64::MAX
}

/// The wax values that candles have.
pub open spec fn candle_values(candles: Seq<Option<i64>>) -> Seq<int>
    decreases candles.len(),
{
    if candles.len() == 0 {
        Seq::empty()
    } else {
        match candles.last() {
            Some(c) => candle_values(candles.drop_last()).push(c as int),
            None => candle_values(candles.drop_last()),
        }
    }
}

pub open spec fn group_candles(group: CandleGroupInfo) -> Seq<Option<i64>> {
    match group.candles {
        Some(c) => c@,
        None => Seq::empty(),
    }
}

/// The wax that a group of candles is worth.
pub open spec fn group_wax(group: CandleGroupInfo) -> int {
    sum(candle_values(group_candles(group)))
}

/// Adding up a group's wax, candle by candle, stays within `i64`.
pub open spec fn group_wax_fits(group: CandleGroupInfo) -> bool {
    forall|k: int|
        0 <= k <= group_candles(group).len() ==> in_i64(
            #[trigger] sum(candle_values(group_candles(group).take(k))),
        )
}

/// The flag recorded under `key`: that of the first entry with it.
pub open spec fn lookup(entries: Seq<CompletedGroup>, key: Seq<char>) -> Option<Option<bool>>
    decreases entries.len(),
{
    if entries.len() == 0 {
        None
    } else if entries[0].key@ == key {
        Some(entries[0].done)
    } else {
        lookup(entries.drop_first(), key)
    }
}

/// Whether group `i` of a run is recorded as done.
pub open spec fn is_completed(
    run_guid: Seq<char>,
    groups: Seq<CandleGroupInfo>,
    i: int,
    entries: Seq<CompletedGroup>,
) -> bool {
    lookup(entries, group_key(run_guid, or_default(groups[i].name, Seq::empty()), i as nat))
        == Some(Some(true))
}

pub open spec fn completed_flags(
    run_guid: Seq<char>,
    groups: Seq<CandleGroupInfo>,
    entries: Seq<CompletedGroup>,
) -> Seq<bool> {
    Seq::new(groups.len(), |i: int| is_completed(run_guid, groups, i, entries))
}

pub open spec fn waxes(groups: Seq<CandleGroupInfo>) -> Seq<int> {
    Seq::new(groups.len(), |i: int| group_wax(groups[i]))
}

/// The values whose flag is set.
pub open spec fn selected(values: Seq<int>, flags: Seq<bool>) -> Seq<int>
    decreases values.len(),
{
    if values.len() == 0 || flags.len() == 0 {
        Seq::empty()
    } else if flags.last() {
        selected(values.drop_last(), flags.drop_last()).push(values.last())
    } else {
        selected(values.drop_last(), flags.drop_last())
    }
}

pub open spec fn count_true(flags: Seq<bool>) -> nat
    decreases flags.len(),
{
    if flags.len() == 0 {
        0
    } else {
        count_true(flags.drop_last()) + if flags.last() {
            1nat
        } else {
            0nat
        }
    }
}

/// Adding up the wax of all groups, and of the done ones, group by group,
/// stays within `i64`, as does each group's own sum.
pub open spec fn candle_run_fits(
    run_guid: Seq<char>,
    groups: Seq<CandleGroupInfo>,
    entries: Seq<CompletedGroup>,
) -> bool {
    let w = waxes(groups);
    let f = completed_flags(run_guid, groups, entries);
    &&& forall|i: int| 0 <= i < groups.len() ==> group_wax_fits(#[trigger] groups[i])
    &&& forall|k: int| 0 <= k <= groups.len() ==> in_i64(#[trigger] sum(w.take(k)))
    &&& forall|k: int|
        0 <= k <= groups.len() ==> in_i64(#[trigger] sum(selected(w.take(k), f.take(k))))
}

/// The presence for a candle run that lists its groups: how many groups are
/// done, and how much of the run's wax they hold.
pub open spec fn candle_texts(
    run_guid: Seq<char>,
    run: CandleRunInfo,
    entries: Seq<CompletedGroup>,
) -> Option<(Seq<char>, Seq<char>)> {
    match run.groups {
        None => None,
        Some(gs) => {
            let groups = gs@;
            let w = waxes(groups);
            let f = completed_flags(run_guid, groups, entries);
            Some(
                (
                    "Candle run: "@ + or_default(run.name, "Sky route"@),
                    decimal(count_true(f)) + "/"@ + decimal(groups.len()) + " groups, "@
                        + signed_decimal(sum(selected(w, f))) + "/"@ + signed_decimal(sum(w))
                        + " wax"@,
                ),
            )
        },
    }
}

/// The key under which the planner records that a group of a run is done.
pub fn candle_group_key(run_guid: &str, group_name: &str, index: usize) -> (r: String)
    ensures
        r@ == group_key(run_guid@, group_name@, index as nat),
{
    let mut r = owned(run_guid);
    push_str(&mut r, ":");
    push_u64(&mut r, index as u64);
    push_str(&mut r, ":");
    push_str(&mut r, group_name);
    r
}

/// The wax that a group of candles is worth.
pub fn count_candle_group_wax_value(group: &CandleGroupInfo) -> (r: i64)
    requires
        group_wax_fits(*group),
    ensures
        r == group_wax(*group),
{
    let ghost cs = group_candles(*group);
    match &group.candles {
        None => 0,
        Some(candles) => {
            let mut total: i64 = 0;
            for i in 0..candles.len()
                invariant
                    cs == candles@,
                    group_candles(*group) == cs,
                    group_wax_fits(*group),
                    total == sum(candle_values(cs.take(i as int))),
            {
                assert(cs.take(i + 1).drop_last() == cs.take(i as int));
                assert(in_i64(sum(candle_values(group_candles(*group).take(i + 1)))));
                let ghost prev = candle_values(cs.take(i as int));
                let ghost next = candle_values(cs.take(i + 1));
                assert(cs.take(i + 1).last() == candles@[i as int]);
                match candles[i] {
                    Some(c) => {
                        assert(next == prev.push(c as int));
                        assert(next.drop_last() =~= prev);
                        total = total + c;
                    },
                    None => {
                        assert(next == prev);
                    },
                }
            }
            assert(cs.take(cs.len() as int) == cs);
            total
        },
    }
}

fn lookup_flag(entries: &[CompletedGroup], key: &str) -> (r: Option<Option<bool>>)
    ensures
        r == lookup(entries@, key@),
{
    let mut i: usize = 0;
    assert(entries@.skip(0) =~= entries@);
    while i < entries.len()
        invariant
            i <= entries@.len(),
            lookup(entries@, key@) == lookup(entries@.skip(i as int), key@),
        decreases entries.len() - i,
    {
        assert(entries@.skip(i as int)[0] == entries@[i as int]);
        if str_eq(entries[i].key.as_str(), key) {
            return Some(entries[i].done);
        }
        assert(entries@.skip(i as int).drop_first() =~= entries@.skip(i + 1));
        i += 1;
    }
    None
}

/// The candle run to show: the planner's active one, else the first of the
/// catalogue.
pub fn candle_run_guid(active_run_guid: &Option<String>, first_run_guid: &Option<String>) -> (r:
    Option<String>)
    ensures
        r == (match active_run_guid {
            Some(a) => Some(*a),
            None => *first_run_guid,
        }),
{
    match active_run_guid {
        Some(a) => Some(a.clone()),
        None => match first_run_guid {
            Some(f) => Some(f.clone()),
            None => None,
        },
    }
}

/// The presence for a candle run, given the run that the run's guid names in
/// the catalogue: none when the catalogue has no such run or it lists no groups.
pub fn candle_run_presence(
    run_guid: &str,
    run: &Option<CandleRunInfo>,
    completed_groups: &[CompletedGroup],
) -> (r: Option<PresenceSource>)
    requires
        run matches Some(rn) && rn.groups matches Some(gs) ==> candle_run_fits(
            run_guid@,
            gs@,
            completed_groups@,
        ),
    ensures
        match run {
            None => r is None,
            Some(rn) => match r {
                Some(p) => candle_texts(run_guid@, *rn, completed_groups@) == Some(
                    (p.details@, p.state@),
                ) && p.end_timestamp is None,
                None => candle_texts(run_guid@, *rn, completed_groups@) is None,
            },
        },
{
    let rn = match run {
        None => {
            return None;
        },
        Some(rn) => rn,
    };
    let groups = match &rn.groups {
        None => {
            return None;
        },
        Some(gs) => gs,
    };
    let ghost w = waxes(groups@);
    let ghost f = completed_flags(run_guid@, groups@, completed_groups@);
    let mut done: usize = 0;
    let mut total_wax: i64 = 0;
    let mut done_wax: i64 = 0;
    for i in 0..groups.len()
        invariant
            w == waxes(groups@),
            f == completed_flags(run_guid@, groups@, completed_groups@),
            candle_run_fits(run_guid@, groups@, completed_groups@),
            done == count_true(f.take(i as int)),
            done <= i,
            total_wax == sum(w.take(i as int)),
            done_wax == sum(selected(w.take(i as int), f.take(i as int))),
    {
        let group = &groups[i];
        let name = match &group.name {
            Some(n) => n.clone(),
            None => String::new(),
        };
        let key = candle_group_key(run_guid, name.as_str(), i);
        let flag = lookup_flag(completed_groups, key.as_str());
        let is_done = match flag {
            Some(Some(b)) => b,
            _ => false,
        };
        assert(is_done == f[i as int]);
        assert(groups@[i as int] == *group);
        let wax = count_candle_group_wax_value(group);
        assert(w.take(i + 1).drop_last() == w.take(i as int));
        assert(f.take(i + 1).drop_last() == f.take(i as int));
        assert(w.take(i + 1).last() == wax);
        assert(f.take(i + 1).last() == is_done);
        assert(in_i64(sum(w.take(i + 1))));
        assert(in_i64(sum(selected(w.take(i + 1), f.take(i + 1)))));
        proof {
            let prev = selected(w.take(i as int), f.take(i as int));
            let next = selected(w.take(i + 1), f.take(i + 1));
            if is_done {
                assert(next == prev.push(wax as int));
                assert(next.drop_last() =~= prev);
            } else {
                assert(next == prev);
            }
            assert(w.take(i + 1).drop_last() =~= w.take(i as int));
        }
        total_wax = total_wax + wax;
        if is_done {
            done = done + 1;
            done_wax = done_wax + wax;
        }
    }
    assert(w.take(groups@.len() as int) == w);
    assert(f.take(groups@.len() as int) == f);
    let mut details = owned("Candle run: ");
    match &rn.name {
        Some(n) => push_str(&mut details, n.as_str()),
        None => push_str(&mut details, "Sky route"),
    }
    let mut state = String::new();
    push_u64(&mut state, done as u64);
    push_str(&mut state, "/");
    push_u64(&mut state, groups.len() as u64);
    push_str(&mut state, " groups, ");
    push_i64(&mut state, done_wax);
    push_str(&mut state, "/");
    push_i64(&mut state, total_wax);
    push_str(&mut state, " wax");
    Some(PresenceSource { details, state, end_timestamp: None })
}

/// The presence for a route under way, given its current target and its area.
pub open spec fn route_texts(target: Option<RouteTargetInfo>, area: Option<AreaInfo>) -> Option<
    (Seq<char>, Seq<char>),
> {
    match (target, area) {
        (Some(t), Some(a)) => {
            let realm = or_default(a.realm_name, Seq::empty());
            let name = or_default(a.name, "Sky route"@);
            let details = if realm.len() == 0 {
                "Route: "@ + name
            } else {
                "Route: "@ + realm + " - "@ + name
            };
            let completed = match t.completed_count {
                Some(c) => c,
                None => 0,
            };
            let total = match t.total {
                Some(c) => c,
                None => 0,
            };
            Some(
                (
                    details,
                    decimal(completed as nat) + "/"@ + decimal(total as nat) + " targets complete"@,
                ),
            )
        },
        _ => None,
    }
}

/// The presence for a route under way, given its current target and its area
/// (none when either is unknown).
pub fn route_presence(target: &Option<RouteTargetInfo>, area: &Option<AreaInfo>) -> (r: Option<
    PresenceSource,
>)
    ensures
        match r {
            Some(p) => route_texts(*target, *area) == Some((p.details@, p.state@))
                && p.end_timestamp is None,
            None => route_texts(*target, *area) is None,
        },
{
    let (t, a) = match (target, area) {
        (Some(t), Some(a)) => (t, a),
        _ => {
            return None;
        },
    };
    let mut details = owned("Route: ");
    match &a.realm_name {
        Some(realm) => {
            if realm.as_str().unicode_len() > 0 {
                push_str(&mut details, realm.as_str());
                push_str(&mut details, " - ");
            }
        },
        None => {},
    }
    match &a.name {
        Some(n) => push_str(&mut details, n.as_str()),
        None => push_str(&mut details, "Sky route"),
    }
    let completed: u64 = match t.completed_count {
        Some(c) => c,
        None => 0,
    };
    let total: u64 = match t.total {
        Some(c) => c,
        None => 0,
    };
    let mut state = String::new();
    push_u64(&mut state, completed);
    push_str(&mut state, "/");
    push_u64(&mut state, total);
    push_str(&mut state, " targets complete");
    Some(PresenceSource { details, state, end_timestamp: None })
}

/// The wax of a group, when adding it up candle by candle stays within `i64`.
fn checked_group_wax(group: &CandleGroupInfo) -> (r: Option<i64>)
    ensures
        r is Some <==> group_wax_fits(*group),
        r matches Some(v) ==> v == group_wax(*group),
{
    let ghost cs = group_candles(*group);
    assert(cs.take(0) =~= Seq::<Option<i64>>::empty());
    match &group.candles {
        None => {
            assert forall|k: int| 0 <= k <= cs.len() implies in_i64(
                #[trigger] sum(candle_values(cs.take(k))),
            ) by {
                assert(cs.take(k) =~= Seq::<Option<i64>>::empty());
            }
            Some(0)
        },
        Some(candles) => {
            let mut total: i64 = 0;
            for i in 0..candles.len()
                invariant
                    cs == candles@,
                    group_candles(*group) == cs,
                    total == sum(candle_values(cs.take(i as int))),
                    forall|k: int| 0 <= k <= i ==> in_i64(#[trigger] sum(candle_values(cs.take(k)))),
            {
                assert(cs.take(i + 1).drop_last() == cs.take(i as int));
                let ghost prev = candle_values(cs.take(i as int));
                let ghost next = candle_values(cs.take(i + 1));
                assert(cs.take(i + 1).last() == candles@[i as int]);
                match candles[i] {
                    Some(c) => {
                        assert(next == prev.push(c as int));
                        assert(next.drop_last() =~= prev);
                        match total.checked_add(c) {
                            Some(t) => {
                                total = t;
                            },
                            None => {
                                assert(!in_i64(sum(candle_values(group_candles(*group).take(i + 1)))));
                                return None;
                            },
                        }
                    },
                    None => {
                        assert(next == prev);
                    },
                }
            }
            assert(cs.take(cs.len() as int) == cs);
            Some(total)
        },
    }
}

/// Whether `candle_run_presence` can add up the run's wax within `i64`.
pub fn candle_run_sums_fit(
    run_guid: &str,
    groups: &Vec<CandleGroupInfo>,
    completed_groups: &[CompletedGroup],
) -> (b: bool)
    ensures
        b == candle_run_fits(run_guid@, groups@, completed_groups@),
{
    let ghost w = waxes(groups@);
    let ghost f = completed_flags(run_guid@, groups@, completed_groups@);
    assert(w.take(0) =~= Seq::<int>::empty());
    assert(f.take(0) =~= Seq::<bool>::empty());
    let mut total_wax: i64 = 0;
    let mut done_wax: i64 = 0;
    for i in 0..groups.len()
        invariant
            w == waxes(groups@),
            f == completed_flags(run_guid@, groups@, completed_groups@),
            forall|j: int| 0 <= j < i ==> group_wax_fits(#[trigger] groups@[j]),
            forall|k: int| 0 <= k <= i ==> in_i64(#[trigger] sum(w.take(k))),
            forall|k: int| 0 <= k <= i ==> in_i64(#[trigger] sum(selected(w.take(k), f.take(k)))),
            total_wax == sum(w.take(i as int)),
            done_wax == sum(selected(w.take(i as int), f.take(i as int))),
    {
        let group = &groups[i];
        assert(groups@[i as int] == *group);
        let wax = match checked_group_wax(group) {
            Some(v) => v,
            None => {
                return false;
            },
        };
        let name = match &group.name {
            Some(n) => n.clone(),
            None => String::new(),
        };
        let key = candle_group_key(run_guid, name.as_str(), i);
        let flag = lookup_flag(completed_groups, key.as_str());
        let is_done = match flag {
            Some(Some(b)) => b,
            _ => false,
        };
        assert(is_done == f[i as int]);
        assert(w.take(i + 1).drop_last() == w.take(i as int));
        assert(f.take(i + 1).drop_last() == f.take(i as int));
        assert(w.take(i + 1).last() == wax);
        assert(f.take(i + 1).last() == is_done);
        proof {
            let prev = selected(w.take(i as int), f.take(i as int));
            let next = selected(w.take(i + 1), f.take(i + 1));
            if is_done {
                assert(next == prev.push(wax as int));
                assert(next.drop_last() =~= prev);
            } else {
                assert(next == prev);
            }
            assert(w.take(i + 1).drop_last() =~= w.take(i as int));
        }
        match total_wax.checked_add(wax) {
            Some(t) => {
                total_wax = t;
            },
            None => {
                assert(!in_i64(sum(w.take(i + 1))));
                return false;
            },
        }
        if is_done {
            match done_wax.checked_add(wax) {
                Some(t) => {
                    done_wax = t;
                },
                None => {
                    assert(!in_i64(sum(selected(w.take(i + 1), f.take(i + 1)))));
                    return false;
                },
            }
        }
    }
    true
}

proof fn lemma_count_true_mono(f1: Seq<bool>, f2: Seq<bool>)
    requires
        f1.len() == f2.len(),
        forall|i: int| 0 <= i < f1.len() && f1[i] ==> f2[i],
    ensures
        count_true(f1) <= count_true(f2),
        count_true(f2) <= f2.len(),
    decreases f1.len(),
{
    if f1.len() > 0 {
        lemma_count_true_mono(f1.drop_last(), f2.drop_last());
    }
}

/// Marking more groups of a run done never lowers the number of done groups,
/// which never exceeds the number of groups; only an entry that is the boolean
/// `true` marks a group done.
pub proof fn law_more_done_groups_never_lower_the_count(
    run_guid: Seq<char>,
    groups: Seq<CandleGroupInfo>,
    entries1: Seq<CompletedGroup>,
    entries2: Seq<CompletedGroup>,
)
    requires
        forall|i: int|
            0 <= i < groups.len() && is_completed(run_guid, groups, i, entries1) ==> is_completed(
                run_guid,
                groups,
                i,
                entries2,
            ),
    ensures
        count_true(completed_flags(run_guid, groups, entries1)) <= count_true(
            completed_flags(run_guid, groups, entries2),
        ),
        count_true(completed_flags(run_guid, groups, entries2)) <= groups.len(),
        forall|i: int|
            0 <= i < groups.len() ==> (#[trigger] completed_flags(run_guid, groups, entries1)[i]
                <==> lookup(
                entries1,
                group_key(run_guid, or_default(groups[i].name, Seq::empty()), i as nat),
            ) == Some(Some(true))),
{
    lemma_count_true_mono(
        completed_flags(run_guid, groups, entries1),
        completed_flags(run_guid, groups, entries2),
    );
}

} // verus!
