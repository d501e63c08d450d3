use vstd::prelude::*;

use crate::pool::{Counter, Pool};
use crate::protocol::{ReplyView, RequestView, ResponseView};
use crate::state::listed_view;
use crate::server::{
    answered, done, exists_message, handled, not_found_message, refused,
};

verus! {

/// A request that is refused leaves every pool as it was.
pub proof fn refusal_changes_nothing(
    old: Map<Seq<char>, Pool>,
    req: RequestView,
    new: Map<Seq<char>, Pool>,
    resp: ResponseView,
)
    requires
        handled(old, req, new, resp),
        resp is Error,
    ensures
        new == old,
{
}

/// Seeking a counter, reading a UUID pool and listing change no pool.
pub proof fn queries_change_nothing(
    old: Map<Seq<char>, Pool>,
    req: RequestView,
    new: Map<Seq<char>, Pool>,
    resp: ResponseView,
)
    requires
        handled(old, req, new, resp),
        req is CounterSeek || req is UuidRead || req is List,
    ensures
        new == old,
{
}

/// A new counter, sought right away, shows its initial value (0 unless
/// given).
pub proof fn new_counter_starts_at_initial(
    s0: Map<Seq<char>, Pool>,
    name: Seq<char>,
    step: Option<i64>,
    initial: Option<i64>,
    s1: Map<Seq<char>, Pool>,
    r1: ResponseView,
    s2: Map<Seq<char>, Pool>,
    r2: ResponseView,
)
    requires
        !s0.contains_key(name),
        handled(s0, RequestView::CounterNew { name, step, initial }, s1, r1),
        handled(s1, RequestView::CounterSeek { name }, s2, r2),
    ensures
        r1 == done(),
        r2 == answered(initial.unwrap_or(0)),
        s2 == s1,
{
}

/// A name that is taken cannot be created again, as a counter or as a UUID
/// pool: the request is refused and the existing pool stays.
pub proof fn taken_name_is_refused(
    s0: Map<Seq<char>, Pool>,
    req: RequestView,
    s1: Map<Seq<char>, Pool>,
    r: ResponseView,
)
    requires
        handled(s0, req, s1, r),
        match req {
            RequestView::CounterNew { name, .. } => s0.contains_key(name),
            RequestView::UuidNew { name } => s0.contains_key(name),
            _ => false,
        },
    ensures
        s1 == s0,
        match req {
            RequestView::CounterNew { name, .. } => r == refused(exists_message(name)),
            RequestView::UuidNew { name } => r == refused(exists_message(name)),
            _ => false,
        },
{
}

/// Two reads in a row hand out the value and then the value plus the step.
pub proof fn reads_advance_by_step(
    s0: Map<Seq<char>, Pool>,
    name: Seq<char>,
    c: Counter,
    s1: Map<Seq<char>, Pool>,
    r1: ResponseView,
    s2: Map<Seq<char>, Pool>,
    r2: ResponseView,
)
    requires
        s0.contains_key(name),
        s0[name] == Pool::Counter(c),
        c.can_read(),
        handled(s0, RequestView::CounterRead { name }, s1, r1),
        handled(s1, RequestView::CounterRead { name }, s2, r2),
    ensures
        r1 == answered(c.value),
        r2 == answered((c.value + c.step) as i64),
        s1[name] == Pool::Counter(c.advanced()),
{
}

/// After a reset, the counter shows its initial value again, and keeps its
/// step and initial value.
pub proof fn reset_restores_initial(
    s0: Map<Seq<char>, Pool>,
    name: Seq<char>,
    c: Counter,
    s1: Map<Seq<char>, Pool>,
    r1: ResponseView,
    s2: Map<Seq<char>, Pool>,
    r2: ResponseView,
)
    requires
        s0.contains_key(name),
        s0[name] == Pool::Counter(c),
        handled(s0, RequestView::CounterReset { name }, s1, r1),
        handled(s1, RequestView::CounterSeek { name }, s2, r2),
    ensures
        r1 == done(),
        r2 == answered(c.initial),
        s1[name] == Pool::Counter(Counter { value: c.initial, step: c.step, initial: c.initial }),
{
}

/// A successful rename moves the pool, unchanged, to the new name, frees
/// the old name and leaves every other pool alone.
pub proof fn rename_moves_pool(
    s0: Map<Seq<char>, Pool>,
    name: Seq<char>,
    new_name: Seq<char>,
    s1: Map<Seq<char>, Pool>,
    r: ResponseView,
)
    requires
        handled(s0, RequestView::CounterRename { name, new_name }, s1, r),
        r == done(),
    ensures
        name != new_name,
        s0.contains_key(name),
        s1.contains_key(new_name),
        s1[new_name] == s0[name],
        !s1.contains_key(name),
        forall|k: Seq<char>|
            k != name && k != new_name ==> (#[trigger] s1.contains_key(k) == s0.contains_key(k)
                && (s1.contains_key(k) ==> s1[k] == s0[k])),
{
}

/// After a pool is removed, looking it up finds nothing.
pub proof fn removed_pool_is_gone(
    s0: Map<Seq<char>, Pool>,
    name: Seq<char>,
    s1: Map<Seq<char>, Pool>,
    r1: ResponseView,
    s2: Map<Seq<char>, Pool>,
    r2: ResponseView,
)
    requires
        handled(s0, RequestView::CounterRm { name }, s1, r1),
        handled(s1, RequestView::CounterSeek { name }, s2, r2),
    ensures
        !s1.contains_key(name),
        r2 == refused(not_found_message(name)),
{
}

/// A pool just created shows up in an unfiltered listing, as it is.
pub proof fn created_pool_is_listed(
    s0: Map<Seq<char>, Pool>,
    name: Seq<char>,
    req: RequestView,
    s1: Map<Seq<char>, Pool>,
    r1: ResponseView,
    s2: Map<Seq<char>, Pool>,
    r2: ResponseView,
)
    requires
        match req {
            RequestView::CounterNew { name: n, .. } => n == name,
            RequestView::UuidNew { name: n } => n == name,
            _ => false,
        },
        handled(s0, req, s1, r1),
        r1 == done(),
        handled(s1, RequestView::List { filter_type: None }, s2, r2),
    ensures
        r2 matches ResponseView::Success { value: Some(ReplyView::List(items)) } && exists|a: int|
            0 <= a < items.len() && #[trigger] items[a] == listed_view(name, s1[name]),
{
    assert(s1.contains_key(name));
    if let ResponseView::Success { value: Some(ReplyView::List(items)) } = r2 {
        let a = choose|a: int| 0 <= a < items.len() && #[trigger] items[a].name() == name;
        assert(items[a] == listed_view(name, s1[name]));
    }
}

/// Whether `req` names the pool `k` (a rename names both of its pools; a
/// listing names none).
pub open spec fn names_pool(req: RequestView, k: Seq<char>) -> bool {
    match req {
        RequestView::CounterNew { name, .. } => name == k,
        RequestView::CounterRead { name } => name == k,
        RequestView::CounterSeek { name } => name == k,
        RequestView::CounterRm { name } => name == k,
        RequestView::CounterRename { name, new_name } => name == k || new_name == k,
        RequestView::CounterReset { name } => name == k,
        RequestView::UuidNew { name } => name == k,
        RequestView::UuidRead { name } => name == k,
        RequestView::UuidRm { name } => name == k,
        RequestView::List { .. } => false,
    }
}

/// A request touches only the pools it names: every other pool is there
/// afterwards exactly when it was there before, and unchanged.
pub proof fn requests_touch_only_named_pools(
    old: Map<Seq<char>, Pool>,
    req: RequestView,
    new: Map<Seq<char>, Pool>,
    resp: ResponseView,
)
    requires
        handled(old, req, new, resp),
    ensures
        forall|k: Seq<char>|
            !names_pool(req, k) ==> {
                &&& #[trigger] new.contains_key(k) == old.contains_key(k)
                &&& old.contains_key(k) ==> new[k] == old[k]
            },
{
}

/// A successful removal (`counter_rm` of any pool, `uuid_rm` of a UUID
/// pool) takes away the named pool and nothing else.
pub proof fn removal_takes_only_named_pool(
    old: Map<Seq<char>, Pool>,
    name: Seq<char>,
    req: RequestView,
    new: Map<Seq<char>, Pool>,
)
    requires
        req == (RequestView::CounterRm { name }) || req == (RequestView::UuidRm { name }),
        handled(old, req, new, done()),
    ensures
        old.contains_key(name),
        req is UuidRm ==> old[name] is Uuid,
        !new.contains_key(name),
        forall|k: Seq<char>|
            k != name ==> {
                &&& #[trigger] new.contains_key(k) == old.contains_key(k)
                &&& old.contains_key(k) ==> new[k] == old[k]
            },
{
    if req is UuidRm {
        if old.contains_key(name) {
            assert(old[name] is Uuid);
        }
    }
}

/// A reset of a counter sets its value back to its initial value, keeps its
/// step and initial value, and leaves every other pool as it was.
pub proof fn reset_touches_only_named_counter(
    old: Map<Seq<char>, Pool>,
    name: Seq<char>,
    c: Counter,
    new: Map<Seq<char>, Pool>,
    resp: ResponseView,
)
    requires
        old.contains_key(name),
        old[name] == Pool::Counter(c),
        handled(old, RequestView::CounterReset { name }, new, resp),
    ensures
        resp == done(),
        new.contains_key(name),
        new[name] matches Pool::Counter(d) && d.value == c.initial && d.step == c.step
            && d.initial == c.initial,
        forall|k: Seq<char>|
            k != name ==> {
                &&& #[trigger] new.contains_key(k) == old.contains_key(k)
                &&& old.contains_key(k) ==> new[k] == old[k]
            },
{
}

/// The counter after `k` reads.
pub open spec fn advanced_times(c: Counter, k: nat) -> Counter
    decreases k,
{
    if k == 0 {
        c
    } else {
        advanced_times(c, (k - 1) as nat).advanced()
    }
}

/// `k` reads in a row move a counter by `k` steps, as long as the value
/// stays within `i64`: the values handed out form an arithmetic sequence.
pub proof fn reads_are_arithmetic(c: Counter, k: nat)
    requires
        i64::MIN <= c.value + k * c.step <= i64::MAX,
    ensures
        advanced_times(c, k) == (Counter {
            value: (c.value + k * c.step) as i64,
            step: c.step,
            initial: c.initial,
        }),
    decreases k,
{
    if k > 0 {
        let j = (k - 1) as nat;
        assert(c.value + j * c.step == c.value + k * c.step - c.step) by (nonlinear_arith)
            requires
                j == k - 1,
        ;
        assert(i64::MIN <= c.value + j * c.step <= i64::MAX) by (nonlinear_arith)
            requires
                j == k - 1,
                i64::MIN <= c.value + k * c.step <= i64::MAX,
                i64::MIN <= c.value <= i64::MAX,
        ;
        reads_are_arithmetic(c, j);
    } else {
        assert(k * c.step == 0) by (nonlinear_arith)
            requires
                k == 0,
        ;
    }
}

} // verus!
