use vstd::prelude::*;

use crate::protocol::{Request, RequestView};

verus! {

/// How the client prints a listing.
#[derive(Debug, Clone, Copy, PartialEq, Eq, Structural)]
pub enum OutputFormat {
    Table,
    Json,
}

/// The kinds of pool a listing can be restricted to.
#[derive(Debug, Clone, Copy, PartialEq, Eq, Structural)]
pub enum PoolTypeFilter {
    Counter,
    Uuid,
}

/// What the client can ask of a counter.
#[derive(Debug)]
pub enum CounterAction {
    /// Create a new counter
    New { name: String, step: Option<i64>, initial: Option<i64> },
    /// Read current value and increment
    Read { name: String },
    /// Read current value without incrementing
    Seek { name: String },
    /// Remove a counter
    Rm { name: String },
    /// Rename a counter
    Rename { name: String, new_name: String },
    /// Reset a counter to its initial value
    Reset { name: String },
}

/// What the client can ask of a UUID pool.
#[derive(Debug)]
pub enum UuidAction {
    /// Create a new UUID pool
    New { name: String },
    /// Generate a new UUID
    Read { name: String },
    /// Remove a UUID pool
    Rm { name: String },
}

/// A command line of the client, once parsed.
#[derive(Debug)]
pub enum Command {
    /// Manage counters
    Counter { action: CounterAction },
    /// Manage UUID pools
    Uuid { action: UuidAction },
    /// List pools, printed in `format`, of the kind `kind` only where given
    List { format: OutputFormat, kind: Option<PoolTypeFilter> },
}

/// The name by which requests and listings call a kind of pool.
pub open spec fn filter_name(f: PoolTypeFilter) -> Seq<char> {
    match f {
        PoolTypeFilter::Counter => "counter"@,
        PoolTypeFilter::Uuid => "uuid"@,
    }
}

/// The request that a command stands for.
pub open spec fn request_for(cmd: Command) -> RequestView {
    match cmd {
        Command::Counter { action } => match action {
            CounterAction::New { name, step, initial } => RequestView::CounterNew {
                name: name@,
                step,
                initial,
            },
            CounterAction::Read { name } => RequestView::CounterRead { name: name@ },
            CounterAction::Seek { name } => RequestView::CounterSeek { name: name@ },
            CounterAction::Rm { name } => RequestView::CounterRm { name: name@ },
            CounterAction::Rename { name, new_name } => RequestView::CounterRename {
                name: name@,
                new_name: new_name@,
            },
            CounterAction::Reset { name } => RequestView::CounterReset { name: name@ },
        },
        Command::Uuid { action } => match action {
            UuidAction::New { name } => RequestView::UuidNew { name: name@ },
            UuidAction::Read { name } => RequestView::UuidRead { name: name@ },
            UuidAction::Rm { name } => RequestView::UuidRm { name: name@ },
        },
        Command::List { kind, .. } => RequestView::List {
            filter_type: match kind {
                Some(f) => Some(filter_name(f)),
                None => None,
            },
        },
    }
}

/// A command's pool names and options reach the request unchanged: a new
/// counter's step and initial value each pass through on their own (absent
/// stays absent, given stays given), and a listing's filter is the kind's
/// name.
pub proof fn command_options_reach_request(cmd: Command)
    ensures
        cmd matches Command::Counter { action: CounterAction::New { name, step, initial } } ==> (
        request_for(cmd) matches RequestView::CounterNew { name: n, step: s, initial: i } && n
            == name@ && s == step && i == initial),
        cmd matches Command::Counter { action: CounterAction::Rename { name, new_name } } ==> (
        request_for(cmd) matches RequestView::CounterRename { name: n, new_name: m } && n == name@
            && m == new_name@),
        cmd matches Command::List { kind: Some(f), .. } ==> (request_for(cmd) matches RequestView::List {
            filter_type: Some(ft),
        } && ft == filter_name(f)),
        cmd matches Command::List { kind: None, .. } ==> request_for(cmd) == (RequestView::List {
            filter_type: None,
        }),
{
}

fn filter_text(f: PoolTypeFilter) -> (s: String)
    ensures
        s@ == filter_name(f),
{
    match f {
        PoolTypeFilter::Counter => "counter".to_owned(),
        PoolTypeFilter::Uuid => "uuid".to_owned(),
    }
}

/// The request that the client sends for `cmd`.
pub fn to_request(cmd: &Command) -> (r: Request)
    ensures
        r@ == request_for(*cmd),
{
    match cmd {
        Command::Counter { action } => match action {
            CounterAction::New { name, step, initial } => Request::CounterNew {
                name: name.clone(),
                step: *step,
                initial: *initial,
            },
            CounterAction::Read { name } => Request::CounterRead { name: name.clone() },
            CounterAction::Seek { name } => Request::CounterSeek { name: name.clone() },
            CounterAction::Rm { name } => Request::CounterRm { name: name.clone() },
            CounterAction::Rename { name, new_name } => Request::CounterRename {
                name: name.clone(),
                new_name: new_name.clone(),
            },
            CounterAction::Reset { name } => Request::CounterReset { name: name.clone() },
        },
        Command::Uuid { action } => match action {
            UuidAction::New { name } => Request::UuidNew { name: name.clone() },
            UuidAction::Read { name } => Request::UuidRead { name: name.clone() },
            UuidAction::Rm { name } => Request::UuidRm { name: name.clone() },
        },
        Command::List { kind, .. } => Request::List {
            filter_type: match kind {
                Some(f) => Some(filter_text(*f)),
                None => None,
            },
        },
    }
}

} // verus!
