use vstd::prelude::*;

verus! {

/// A request sent by the client to the daemon.
#[derive(Debug)]
pub enum Request {
    CounterNew { name: String, step: Option<i64>, initial: Option<i64> },
    CounterRead { name: String },
    CounterSeek { name: String },
    CounterRm { name: String },
    CounterRename { name: String, new_name: String },
    CounterReset { name: String },
    UuidNew { name: String },
    UuidRead { name: String },
    UuidRm { name: String },
    List { filter_type: Option<String> },
}

/// A request with its strings taken as character sequences.
pub enum RequestView {
    CounterNew { name: Seq<char>, step: Option<i64>, initial: Option<i64> },
    CounterRead { name: Seq<char> },
    CounterSeek { name: Seq<char> },
    CounterRm { name: Seq<char> },
    CounterRename { name: Seq<char>, new_name: Seq<char> },
    CounterReset { name: Seq<char> },
    UuidNew { name: Seq<char> },
    UuidRead { name: Seq<char> },
    UuidRm { name: Seq<char> },
    List { filter_type: Option<Seq<char>> },
}

pub open spec fn opt_string_view(s: Option<String>) -> Option<Seq<char>> {
    match s {
        Some(t) => Some(t@),
        None => None,
    }
}

impl View for Request {
    type V = RequestView;

    open spec fn view(&self) -> RequestView {
        match self {
            Request::CounterNew { name, step, initial } => RequestView::CounterNew {
                name: name@,
                step: *step,
                initial: *initial,
            },
            Request::CounterRead { name } => RequestView::CounterRead { name: name@ },
            Request::CounterSeek { name } => RequestView::CounterSeek { name: name@ },
            Request::CounterRm { name } => RequestView::CounterRm { name: name@ },
            Request::CounterRename { name, new_name } => RequestView::CounterRename {
                name: name@,
                new_name: new_name@,
            },
            Request::CounterReset { name } => RequestView::CounterReset { name: name@ },
            Request::UuidNew { name } => RequestView::UuidNew { name: name@ },
            Request::UuidRead { name } => RequestView::UuidRead { name: name@ },
            Request::UuidRm { name } => RequestView::UuidRm { name: name@ },
            Request::List { filter_type } => RequestView::List {
                filter_type: opt_string_view(*filter_type),
            },
        }
    }
}

/// One pool as a listing shows it.
#[derive(Debug, PartialEq, Eq)]
pub enum ListedPool {
    Counter { name: String, value: i64, step: i64, initial: i64 },
    Uuid { name: String },
}

pub enum ListedPoolView {
    Counter { name: Seq<char>, value: i64, step: i64, initial: i64 },
    Uuid { name: Seq<char> },
}

impl ListedPoolView {
    pub open spec fn name(self) -> Seq<char> {
        match self {
            ListedPoolView::Counter { name, .. } => name,
            ListedPoolView::Uuid { name } => name,
        }
    }
}

impl View for ListedPool {
    type V = ListedPoolView;

    open spec fn view(&self) -> ListedPoolView {
        match self {
            ListedPool::Counter { name, value, step, initial } => ListedPoolView::Counter {
                name: name@,
                value: *value,
                step: *step,
                initial: *initial,
            },
            ListedPool::Uuid { name } => ListedPoolView::Uuid { name: name@ },
        }
    }
}

/// What a successful response carries.
#[derive(Debug, PartialEq, Eq)]
pub enum ReplyValue {
    Int(i64),
    Str(String),
    List(Vec<ListedPool>),
}

pub enum ReplyView {
    Int(i64),
    Str(Seq<char>),
    List(Seq<ListedPoolView>),
}

impl View for ReplyValue {
    type V = ReplyView;

    open spec fn view(&self) -> ReplyView {
        match self {
            ReplyValue::Int(n) => ReplyView::Int(*n),
            ReplyValue::Str(s) => ReplyView::Str(s@),
            ReplyValue::List(items) => ReplyView::List(items@.map_values(|p: ListedPool| p@)),
        }
    }
}

/// The daemon's answer to one request.
#[derive(Debug, PartialEq, Eq)]
pub enum Response {
    Success { value: Option<ReplyValue> },
    Error { message: String },
}

pub enum ResponseView {
    Success { value: Option<ReplyView> },
    Error { message: Seq<char> },
}

impl View for Response {
    type V = ResponseView;

    open spec fn view(&self) -> ResponseView {
        match self {
            Response::Success { value } => ResponseView::Success {
                value: match value {
                    Some(v) => Some(v@),
                    None => None,
                },
            },
            Response::Error { message } => ResponseView::Error { message: message@ },
        }
    }
}

impl Response {
    pub fn ok_empty() -> (r: Self)
        ensures
            r@ == (ResponseView::Success { value: None }),
    {
        Response::Success { value: None }
    }

    pub fn ok_value(value: ReplyValue) -> (r: Self)
        ensures
            r@ == (ResponseView::Success { value: Some(value@) }),
    {
        Response::Success { value: Some(value) }
    }

    pub fn error(message: String) -> (r: Self)
        ensures
            r@ == (ResponseView::Error { message: message@ }),
    {
        Response::Error { message }
    }
}

} // verus!
