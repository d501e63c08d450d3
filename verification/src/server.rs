use vstd::prelude::*;

use crate::pool::{is_uuid_v4_text, Counter, Pool, UuidPool};
use crate::protocol::{ReplyValue, ReplyView, Request, RequestView, Response, ResponseView};
use crate::state::{lists_exactly, AppState};

verus! {

pub open spec fn exists_message(name: Seq<char>) -> Seq<char> {
    "pool '"@ + name + "' already exists"@
}

pub open spec fn not_found_message(name: Seq<char>) -> Seq<char> {
    "pool '"@ + name + "' not found"@
}

pub open spec fn not_counter_message(name: Seq<char>) -> Seq<char> {
    "'"@ + name + "' is not a counter"@
}

pub open spec fn not_uuid_message(name: Seq<char>) -> Seq<char> {
    "'"@ + name + "' is not a uuid pool"@
}

pub open spec fn refused(message: Seq<char>) -> ResponseView {
    ResponseView::Error { message }
}

pub open spec fn done() -> ResponseView {
    ResponseView::Success { value: None }
}

pub open spec fn answered(n: i64) -> ResponseView {
    ResponseView::Success { value: Some(ReplyView::Int(n)) }
}

/// The counter that a `counter_new` request with these options creates:
/// step 1 and initial value 0 unless given.
pub open spec fn fresh_counter(step: Option<i64>, initial: Option<i64>) -> Counter {
    Counter {
        value: initial.unwrap_or(0),
        step: step.unwrap_or(1),
        initial: initial.unwrap_or(0),
    }
}

/// A `counter_read` of a counter whose next value leaves `i64` is outside
/// what the daemon handles (the addition would overflow).
pub open spec fn read_fits(pools: Map<Seq<char>, Pool>, req: RequestView) -> bool {
    match req {
        RequestView::CounterRead { name } => pools.contains_key(name) ==> match pools[name] {
            Pool::Counter(c) => c.can_read(),
            Pool::Uuid(_) => true,
        },
        _ => true,
    }
}

/// What handling `req` does: the pools go from `old` to `new`, and the
/// answer is `resp`.
pub open spec fn handled(
    old: Map<Seq<char>, Pool>,
    req: RequestView,
    new: Map<Seq<char>, Pool>,
    resp: ResponseView,
) -> bool {
    match req {
        RequestView::CounterNew { name, step, initial } => if old.contains_key(name) {
            new == old && resp == refused(exists_message(name))
        } else {
            new == old.insert(name, Pool::Counter(fresh_counter(step, initial))) && resp == done()
        },
        RequestView::CounterRead { name } => if !old.contains_key(name) {
            new == old && resp == refused(not_found_message(name))
        } else {
            match old[name] {
                Pool::Counter(c) => new == old.insert(name, Pool::Counter(c.advanced())) && resp
                    == answered(c.value),
                Pool::Uuid(_) => new == old && resp == refused(not_counter_message(name)),
            }
        },
        RequestView::CounterSeek { name } => new == old && if !old.contains_key(name) {
            resp == refused(not_found_message(name))
        } else {
            match old[name] {
                Pool::Counter(c) => resp == answered(c.value),
                Pool::Uuid(_) => resp == refused(not_counter_message(name)),
            }
        },
        RequestView::CounterRm { name } => if old.contains_key(name) {
            new == old.remove(name) && resp == done()
        } else {
            new == old && resp == refused(not_found_message(name))
        },
        RequestView::CounterRename { name, new_name } => if old.contains_key(new_name) {
            new == old && resp == refused(exists_message(new_name))
        } else if !old.contains_key(name) {
            new == old && resp == refused(not_found_message(name))
        } else {
            new == old.remove(name).insert(new_name, old[name]) && resp == done()
        },
        RequestView::CounterReset { name } => if !old.contains_key(name) {
            new == old && resp == refused(not_found_message(name))
        } else {
            match old[name] {
                Pool::Counter(c) => new == old.insert(name, Pool::Counter(c.rewound())) && resp
                    == done(),
                Pool::Uuid(_) => new == old && resp == refused(not_counter_message(name)),
            }
        },
        RequestView::UuidNew { name } => if old.contains_key(name) {
            new == old && resp == refused(exists_message(name))
        } else {
            new == old.insert(name, Pool::Uuid(UuidPool)) && resp == done()
        },
        RequestView::UuidRead { name } => new == old && if !old.contains_key(name) {
            resp == refused(not_found_message(name))
        } else {
            match old[name] {
                Pool::Uuid(_) => {
                    &&& resp matches ResponseView::Success { value: Some(ReplyView::Str(s)) }
                    &&& is_uuid_v4_text(s)
                },
                Pool::Counter(_) => resp == refused(not_uuid_message(name)),
            }
        },
        RequestView::UuidRm { name } => if !old.contains_key(name) {
            new == old && resp == refused(not_found_message(name))
        } else {
            match old[name] {
                Pool::Uuid(_) => new == old.remove(name) && resp == done(),
                Pool::Counter(_) => new == old && resp == refused(not_uuid_message(name)),
            }
        },
        RequestView::List { filter_type } => {
            &&& new == old
            &&& resp matches ResponseView::Success { value: Some(ReplyView::List(items)) }
            &&& lists_exactly(old, filter_type, items)
        },
    }
}

/// `prefix`, then `name`, then `suffix`.
fn quoted(prefix: &str, name: &String, suffix: &str) -> (s: String)
    ensures
        s@ == prefix@ + name@ + suffix@,
{
    let mut s = prefix.to_owned();
    s.append(name.as_str());
    s.append(suffix);
    s
}

fn exists_error(name: &String) -> (r: Response)
    ensures
        r@ == refused(exists_message(name@)),
{
    Response::error(quoted("pool '", name, "' already exists"))
}

fn not_found_error(name: &String) -> (r: Response)
    ensures
        r@ == refused(not_found_message(name@)),
{
    Response::error(quoted("pool '", name, "' not found"))
}

fn not_counter_error(name: &String) -> (r: Response)
    ensures
        r@ == refused(not_counter_message(name@)),
{
    Response::error(quoted("'", name, "' is not a counter"))
}

fn not_uuid_error(name: &String) -> (r: Response)
    ensures
        r@ == refused(not_uuid_message(name@)),
{
    Response::error(quoted("'", name, "' is not a uuid pool"))
}

/// Whether `handle_request` can take `req` in this state: false exactly
/// when it is a `counter_read` whose addition would overflow `i64`.
pub fn read_fits_in(state: &AppState, req: &Request) -> (r: bool)
    requires
        state.wf(),
    ensures
        r == read_fits(state@, req@),
{
    match req {
        Request::CounterRead { name } => match state.get(name) {
            Some(Pool::Counter(c)) => c.value.checked_add(c.step).is_some(),
            _ => true,
        },
        _ => true,
    }
}

/// Applies one request to the pools and answers it.
pub fn handle_request(state: &mut AppState, req: Request) -> (resp: Response)
    requires
        old(state).wf(),
        read_fits(old(state)@, req@),
    ensures
        final(state).wf(),
        handled(old(state)@, req@, final(state)@, resp@),
{
    match req {
        Request::CounterNew { name, step, initial } => {
            if state.contains_key(&name) {
                return exists_error(&name);
            }
            let counter = Counter::new(step.unwrap_or(1), initial.unwrap_or(0));
            state.insert(name, Pool::Counter(counter));
            Response::ok_empty()
        },
        Request::CounterRead { name } => match state.get_mut(&name) {
            Some(Pool::Counter(c)) => {
                let v = c.read();
                Response::ok_value(ReplyValue::Int(v))
            },
            Some(_) => {
                proof {
                    assert(old(state)@.insert(name@, old(state)@[name@]) =~= old(state)@);
                }
                not_counter_error(&name)
            },
            None => not_found_error(&name),
        },
        Request::CounterSeek { name } => match state.get(&name) {
            Some(Pool::Counter(c)) => Response::ok_value(ReplyValue::Int(c.seek())),
            Some(_) => not_counter_error(&name),
            None => not_found_error(&name),
        },
        Request::CounterRm { name } => match state.remove(&name) {
            Some(_) => Response::ok_empty(),
            None => not_found_error(&name),
        },
        Request::CounterRename { name, new_name } => {
            if state.contains_key(&new_name) {
                return exists_error(&new_name);
            }
            match state.remove(&name) {
                Some(pool) => {
                    state.insert(new_name, pool);
                    Response::ok_empty()
                },
                None => not_found_error(&name),
            }
        },
        Request::CounterReset { name } => match state.get_mut(&name) {
            Some(Pool::Counter(c)) => {
                c.reset();
                Response::ok_empty()
            },
            Some(_) => {
                proof {
                    assert(old(state)@.insert(name@, old(state)@[name@]) =~= old(state)@);
                }
                not_counter_error(&name)
            },
            None => not_found_error(&name),
        },
        Request::UuidNew { name } => {
            if state.contains_key(&name) {
                return exists_error(&name);
            }
            state.insert(name, Pool::Uuid(UuidPool::new()));
            Response::ok_empty()
        },
        Request::UuidRead { name } => match state.get(&name) {
            Some(Pool::Uuid(u)) => Response::ok_value(ReplyValue::Str(u.read())),
            Some(_) => not_uuid_error(&name),
            None => not_found_error(&name),
        },
        Request::UuidRm { name } => match state.get(&name) {
            Some(Pool::Uuid(_)) => {
                state.remove(&name);
                Response::ok_empty()
            },
            Some(_) => not_uuid_error(&name),
            None => not_found_error(&name),
        },
        Request::List { filter_type } => {
            let list = state.listing(&filter_type);
            Response::ok_value(ReplyValue::List(list))
        },
    }
}

} // verus!
