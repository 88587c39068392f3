use vstd::prelude::*;
use crate::datetime::{datetime_text, format_datetime, DateTimeFields};
use crate::text::{chars_to_string, dec_of, json_quoted, push_decimal, push_json_quoted, push_str_chars};

verus! {

/// The host's description of one on-disk file.
#[derive(Debug, Clone)]
pub struct FileInfo {
    pub path: String,
    pub kind: String,
    pub size: u64,
}

/// One document record as the host indexes it.
#[derive(Debug, Clone)]
pub struct Info {
    pub title: String,
    pub author: String,
    pub identifier: String,
    pub file: FileInfo,
    pub added: DateTimeFields,
}

/// A request sent to the host over the line protocol.
#[derive(Debug, Clone)]
pub enum Event {
    Notify(String),
    SetWifi(bool),
    Search { path: String, query: String },
    AddDocument(Info),
    UpdateDocument(String, Info),
}

/// A typed response line received from the host.
#[derive(Debug, Clone)]
pub enum Response {
    Search(SearchResults),
    NetworkStatus(NetworkResults),
}

/// The host's answer to a `search` request.
#[derive(Debug, Clone)]
pub struct SearchResults {
    pub event_type: String,
    pub results: Vec<Info>,
}

/// The host's answer to a network request.
#[derive(Debug, Clone)]
pub struct NetworkResults {
    pub event_type: String,
    pub status: String,
}

/// A JSON boolean.
pub open spec fn bool_text(b: bool) -> Seq<char> {
    if b {
        "true"@
    } else {
        "false"@
    }
}

/// The JSON object that describes a file.
pub open spec fn file_info_json(f: FileInfo) -> Seq<char> {
    "{\"path\":"@ + json_quoted(f.path@) + ",\"kind\":"@ + json_quoted(f.kind@) + ",\"size\":"@
        + dec_of(f.size as nat) + "}"@
}

/// The JSON object that describes a document record.
pub open spec fn info_json(i: Info) -> Seq<char> {
    "{\"title\":"@ + json_quoted(i.title@) + ",\"author\":"@ + json_quoted(i.author@)
        + ",\"identifier\":"@ + json_quoted(i.identifier@) + ",\"file\":"@ + file_info_json(i.file)
        + ",\"added\":\""@ + datetime_text(i.added) + "\"}"@
}

/// The one-line JSON form of a user-visible status message.
pub open spec fn notify_json(msg: Seq<char>) -> Seq<char> {
    "{\"type\":\"notify\",\"message\":"@ + json_quoted(msg) + "}"@
}

/// The one-line JSON form of each request, tagged by its `type` field.
pub open spec fn event_json(e: Event) -> Seq<char> {
    match e {
        Event::Notify(msg) => notify_json(msg@),
        Event::SetWifi(enable) => "{\"type\":\"setWifi\",\"enable\":"@ + bool_text(enable) + "}"@,
        Event::Search { path, query } => "{\"type\":\"search\",\"path\":"@ + json_quoted(path@)
            + ",\"query\":"@ + json_quoted(query@) + "}"@,
        Event::AddDocument(info) => "{\"type\":\"addDocument\",\"info\":"@ + info_json(info)
            + "}"@,
        Event::UpdateDocument(path, info) => "{\"type\":\"updateDocument\",\"path\":"@
            + json_quoted(path@) + ",\"info\":"@ + info_json(info) + "}"@,
    }
}

/// Which requests block for exactly one response line.
pub open spec fn event_awaits_response(e: Event) -> bool {
    e is Search || e is SetWifi
}

fn push_file_info(out: &mut Vec<char>, f: &FileInfo)
    ensures
        final(out)@ == old(out)@ + file_info_json(*f),
{
    push_str_chars(out, "{\"path\":");
    push_json_quoted(out, f.path.as_str());
    push_str_chars(out, ",\"kind\":");
    push_json_quoted(out, f.kind.as_str());
    push_str_chars(out, ",\"size\":");
    push_decimal(out, f.size);
    push_str_chars(out, "}");
    assert(out@ =~= old(out)@ + file_info_json(*f));
}

fn push_info(out: &mut Vec<char>, i: &Info)
    ensures
        final(out)@ == old(out)@ + info_json(*i),
{
    push_str_chars(out, "{\"title\":");
    push_json_quoted(out, i.title.as_str());
    push_str_chars(out, ",\"author\":");
    push_json_quoted(out, i.author.as_str());
    push_str_chars(out, ",\"identifier\":");
    push_json_quoted(out, i.identifier.as_str());
    push_str_chars(out, ",\"file\":");
    push_file_info(out, &i.file);
    push_str_chars(out, ",\"added\":\"");
    let added = format_datetime(&i.added);
    push_str_chars(out, added.as_str());
    push_str_chars(out, "\"}");
    assert(out@ =~= old(out)@ + info_json(*i));
}

impl Event {
    /// The one-line JSON text of this request, exactly as the wire sees it.
    pub fn encode(&self) -> (s: String)
        ensures
            s@ == event_json(*self),
    {
        let mut out: Vec<char> = Vec::new();
        match self {
            Event::Notify(msg) => {
                push_str_chars(&mut out, "{\"type\":\"notify\",\"message\":");
                push_json_quoted(&mut out, msg.as_str());
                push_str_chars(&mut out, "}");
            },
            Event::SetWifi(enable) => {
                push_str_chars(&mut out, "{\"type\":\"setWifi\",\"enable\":");
                if *enable {
                    push_str_chars(&mut out, "true");
                } else {
                    push_str_chars(&mut out, "false");
                }
                push_str_chars(&mut out, "}");
            },
            Event::Search { path, query } => {
                push_str_chars(&mut out, "{\"type\":\"search\",\"path\":");
                push_json_quoted(&mut out, path.as_str());
                push_str_chars(&mut out, ",\"query\":");
                push_json_quoted(&mut out, query.as_str());
                push_str_chars(&mut out, "}");
            },
            Event::AddDocument(info) => {
                push_str_chars(&mut out, "{\"type\":\"addDocument\",\"info\":");
                push_info(&mut out, info);
                push_str_chars(&mut out, "}");
            },
            Event::UpdateDocument(path, info) => {
                push_str_chars(&mut out, "{\"type\":\"updateDocument\",\"path\":");
                push_json_quoted(&mut out, path.as_str());
                push_str_chars(&mut out, ",\"info\":");
                push_info(&mut out, info);
                push_str_chars(&mut out, "}");
            },
        }
        assert(out@ =~= event_json(*self));
        chars_to_string(&out)
    }

    /// Whether this request blocks for one response line.
    pub fn awaits_response(&self) -> (b: bool)
        ensures
            b == event_awaits_response(*self),
    {
        match self {
            Event::Search { .. } => true,
            Event::SetWifi(..) => true,
            _ => false,
        }
    }
}

/// The first record of a search answer, if one arrived at all: a missing
/// or differently-typed response counts as "no match".
pub open spec fn spec_first_result(r: Option<Response>) -> Option<Info> {
    match r {
        Some(Response::Search(sr)) => if sr.results@.len() > 0 {
            Some(sr.results@[0])
        } else {
            None
        },
        _ => None,
    }
}

/// Picks the first search result out of whatever the host answered.
pub fn first_search_result(r: &Option<Response>) -> (res: Option<&Info>)
    ensures
        match res {
            Some(i) => spec_first_result(*r) == Some(*i),
            None => spec_first_result(*r) is None,
        },
{
    match r {
        Some(Response::Search(sr)) => {
            if sr.results.len() > 0 {
                Some(&sr.results[0])
            } else {
                None
            }
        },
        _ => None,
    }
}

} // verus!
