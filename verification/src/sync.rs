use vstd::prelude::*;
use crate::datetime::{epoch_to_local_fields, local_fields_to_epoch, parse_utc_epoch, utc_epoch_of, DateTimeFields};
use crate::error::PlatoCalibreError;
use crate::protocol::{Event, FileInfo, Info};
use crate::text::{chars_to_string, join_comma, join_with, push_str_chars, str_chars, strings_equal};

verus! {

/// The run's configuration, as the configuration file fills it in.
#[derive(Debug, Clone)]
pub struct Settings {
    pub base_url: String,
    pub username: Option<String>,
    pub password: Option<String>,
    pub identifier: Option<String>,
    pub category: u64,
    pub item: u64,
    pub library: String,
    pub log: u64,
}

impl Default for Settings {
    /// An unset configuration: everything empty, logging at status level.
    fn default() -> (s: Settings)
        ensures
            s.base_url@ == Seq::<char>::empty(),
            s.username is None,
            s.password is None,
            s.identifier is None,
            s.category == 0,
            s.item == 0,
            s.library@ == Seq::<char>::empty(),
            s.log == 1,
    {
        Settings {
            base_url: String::new(),
            username: None,
            password: None,
            identifier: None,
            category: 0,
            item: 0,
            library: String::new(),
            log: 1,
        }
    }
}

/// One book's descriptive metadata, as one loop iteration consumes it:
/// the display author line, the identifier chosen for addressing, and the
/// modification instant in whole seconds.
#[derive(Debug, Clone)]
pub struct BookMetadata {
    pub title: String,
    pub author: String,
    pub stable_identifier: String,
    pub modified_at: i64,
}

/// The view of an optional string.
pub open spec fn opt_text(o: Option<String>) -> Option<Seq<char>> {
    match o {
        Some(s) => Some(s@),
        None => None,
    }
}

/// The views of a list of key/value pairs.
pub open spec fn pairs_view(v: Seq<(String, String)>) -> Seq<(Seq<char>, Seq<char>)> {
    v.map_values(|p: (String, String)| (p.0@, p.1@))
}

/// The value of the first pair carrying `key`, if any.
pub open spec fn lookup_identifier(pairs: Seq<(Seq<char>, Seq<char>)>, key: Seq<char>) -> Option<
    Seq<char>,
>
    decreases pairs.len(),
{
    if pairs.len() == 0 {
        None
    } else if pairs[0].0 == key {
        Some(pairs[0].1)
    } else {
        lookup_identifier(pairs.drop_first(), key)
    }
}

/// The identifier a book is addressed by: the configured identifier field
/// when one is set (absence is then an error), else the title.
pub open spec fn stable_identifier_of(
    title: Seq<char>,
    pairs: Seq<(Seq<char>, Seq<char>)>,
    field: Option<Seq<char>>,
) -> Option<Seq<char>> {
    match field {
        Some(f) => lookup_identifier(pairs, f),
        None => Some(title),
    }
}

fn lookup_pair<'a>(pairs: &'a Vec<(String, String)>, key: &str) -> (r: Option<&'a String>)
    ensures
        match r {
            Some(v) => lookup_identifier(pairs_view(pairs@), key@) == Some(v@),
            None => lookup_identifier(pairs_view(pairs@), key@) is None,
        },
{
    let n = pairs.len();
    proof {
        assert(pairs_view(pairs@).skip(0) =~= pairs_view(pairs@));
    }
    for i in 0..n
        invariant
            n == pairs@.len(),
            lookup_identifier(pairs_view(pairs@), key@) == lookup_identifier(
                pairs_view(pairs@).skip(i as int),
                key@,
            ),
    {
        let ghost rest = pairs_view(pairs@).skip(i as int);
        proof {
            assert(rest[0] == (pairs@[i as int].0@, pairs@[i as int].1@));
            assert(rest.drop_first() =~= pairs_view(pairs@).skip(i + 1));
        }
        if strings_equal(pairs[i].0.as_str(), key) {
            return Some(&pairs[i].1);
        }
    }
    proof {
        assert(pairs_view(pairs@).skip(n as int) =~= Seq::<(Seq<char>, Seq<char>)>::empty());
    }
    None
}

/// Turns one raw metadata answer into the book's record: joins the author
/// list for display, picks the addressing identifier, and reads the
/// modification timestamp down to whole seconds. An absent configured
/// identifier field or an unreadable timestamp is an error, which the
/// caller treats as fatal for the run.
pub fn interpret_metadata(
    title: String,
    authors: &Vec<String>,
    identifiers: &Vec<(String, String)>,
    timestamp: &str,
    identifier_field: &Option<String>,
) -> (r: Result<BookMetadata, PlatoCalibreError>)
    ensures
        ({
            let stable = stable_identifier_of(
                title@,
                pairs_view(identifiers@),
                opt_text(*identifier_field),
            );
            match r {
                Ok(m) => stable is Some && utc_epoch_of(timestamp@) is Some && m.title@ == title@
                    && m.author@ == join_with(authors.deep_view(), ", "@) && m.stable_identifier@
                    == stable->0 && m.modified_at == utc_epoch_of(timestamp@)->0,
                Err(_) => stable is None || utc_epoch_of(timestamp@) is None,
            }
        }),
{
    let stable = match identifier_field {
        Some(field) => {
            match lookup_pair(identifiers, field.as_str()) {
                Some(v) => v.clone(),
                None => {
                    return Err(PlatoCalibreError::new("Unable to find identifier"));
                },
            }
        },
        None => title.clone(),
    };
    let modified_at = match parse_utc_epoch(timestamp) {
        Some(t) => t,
        None => {
            return Err(PlatoCalibreError::new("Unable to read the book's timestamp"));
        },
    };
    let author = join_comma(authors);
    Ok(BookMetadata { title, author, stable_identifier: stable, modified_at })
}

/// What the orchestrator does with one book.
#[derive(Debug, Clone, Copy, PartialEq, Eq, Structural)]
pub enum SyncDecision {
    Skip,
    FetchNew,
    FetchOverwrite,
}

/// The decision table: skip exactly when a record exists whose added time
/// equals the book's modification time; overwrite when a record exists
/// with a different time; fetch new when no record exists.
pub open spec fn spec_decide(existing_added: Option<i64>, modified_at: i64) -> SyncDecision {
    match existing_added {
        Some(t) => if t == modified_at {
            SyncDecision::Skip
        } else {
            SyncDecision::FetchOverwrite
        },
        None => SyncDecision::FetchNew,
    }
}

/// Applies the decision table to one book.
pub fn decide(existing_added: Option<i64>, modified_at: i64) -> (d: SyncDecision)
    ensures
        d == spec_decide(existing_added, modified_at),
{
    match existing_added {
        Some(t) => {
            if t == modified_at {
                SyncDecision::Skip
            } else {
                SyncDecision::FetchOverwrite
            }
        },
        None => SyncDecision::FetchNew,
    }
}

/// Applies the decision table to the host's search answer: the record's
/// wall-clock added time goes through the machine's local zone to the
/// instant scale, then the table decides. A record whose time the zone
/// cannot map counts as a record with a different time.
pub fn decide_for_record(existing: Option<&Info>, modified_at: i64) -> (d: SyncDecision)
    ensures
        existing is None ==> d == SyncDecision::FetchNew,
        existing is Some ==> (d == SyncDecision::Skip || d == SyncDecision::FetchOverwrite),
{
    match existing {
        None => decide(None, modified_at),
        Some(info) => {
            match local_fields_to_epoch(&info.added) {
                Some(t) => {
                    let d = decide(Some(t), modified_at);
                    d
                },
                None => SyncDecision::FetchOverwrite,
            }
        },
    }
}

/// The anchored search expression for a content key.
pub open spec fn search_query_of(key: Seq<char>) -> Seq<char> {
    "'i ^"@ + key + "$"@
}

/// The `search` request that asks the host for the record addressed by
/// `key` under the save directory.
pub fn search_event(save_path: &str, key: &str) -> (e: Event)
    ensures
        e matches Event::Search { path, query } && path@ == save_path@ && query@
            == search_query_of(key@),
{
    let mut out: Vec<char> = Vec::new();
    push_str_chars(&mut out, "'i ^");
    push_str_chars(&mut out, key);
    push_str_chars(&mut out, "$");
    assert(out@ =~= search_query_of(key@));
    Event::Search { path: save_path.to_owned(), query: chars_to_string(&out) }
}

/// A path under a base directory: the base, one separator, the name.
pub open spec fn path_join_of(base: Seq<char>, name: Seq<char>) -> Seq<char> {
    if base.len() == 0 {
        name
    } else if base.last() == '/' {
        base + name
    } else {
        base + seq!['/'] + name
    }
}

/// Joins a directory and a file name.
pub fn path_join(base: &str, name: &str) -> (p: String)
    ensures
        p@ == path_join_of(base@, name@),
{
    let bs = str_chars(base);
    let mut out: Vec<char> = Vec::new();
    push_str_chars(&mut out, base);
    if bs.len() > 0 && bs[bs.len() - 1] != '/' {
        out.push('/');
    }
    push_str_chars(&mut out, name);
    assert(out@ =~= path_join_of(base@, name@));
    chars_to_string(&out)
}

/// The local file name for a content key.
pub open spec fn epub_name_of(key: Seq<char>) -> Seq<char> {
    key + ".epub"@
}

/// The file name `{key}.epub`.
pub fn epub_name(key: &str) -> (n: String)
    ensures
        n@ == epub_name_of(key@),
{
    let mut out: Vec<char> = Vec::new();
    push_str_chars(&mut out, key);
    push_str_chars(&mut out, ".epub");
    assert(out@ =~= epub_name_of(key@));
    chars_to_string(&out)
}

/// The full path a book is downloaded to.
pub fn epub_path(save_path: &str, key: &str) -> (p: String)
    ensures
        p@ == path_join_of(save_path@, epub_name_of(key@)),
{
    let name = epub_name(key);
    path_join(save_path, name.as_str())
}

/// The path relative to a base directory: the base stripped off the
/// front, together with the separator that follows it.
pub open spec fn strip_prefix_of(path: Seq<char>, base: Seq<char>) -> Option<Seq<char>> {
    if base.len() == 0 {
        Some(path)
    } else if path.len() >= base.len() && path.take(base.len() as int) == base {
        let rest = path.skip(base.len() as int);
        if base.last() == '/' {
            Some(rest)
        } else if rest.len() == 0 {
            Some(rest)
        } else if rest[0] == '/' {
            Some(rest.drop_first())
        } else {
            None
        }
    } else {
        None
    }
}

/// Strips a base directory off the front of a path.
pub fn strip_path_prefix(path: &str, base: &str) -> (r: Option<String>)
    ensures
        match r {
            Some(p) => strip_prefix_of(path@, base@) == Some(p@),
            None => strip_prefix_of(path@, base@) is None,
        },
{
    let vp = str_chars(path);
    let vb = str_chars(base);
    if vb.len() == 0 {
        return Some(path.to_owned());
    }
    if vp.len() < vb.len() {
        return None;
    }
    let bn = vb.len();
    for i in 0..bn
        invariant
            vp@ == path@,
            vb@ == base@,
            bn == vb@.len(),
            vp@.len() >= vb@.len(),
            forall|j: int| 0 <= j < i ==> path@[j] == base@[j],
    {
        if vp[i] != vb[i] {
            proof {
                assert(path@.take(base@.len() as int)[i as int] != base@[i as int]);
            }
            return None;
        }
    }
    proof {
        assert(path@.take(base@.len() as int) =~= base@);
    }
    let mut rest: Vec<char> = Vec::new();
    let pn = vp.len();
    let mut start = bn;
    if vb[bn - 1] != '/' {
        if pn == bn {
            let ghost emp = path@.skip(base@.len() as int);
            proof {
                assert(emp =~= Seq::<char>::empty());
            }
            return Some(chars_to_string(&rest));
        }
        if vp[bn] != '/' {
            return None;
        }
        start = bn + 1;
    }
    for i in start..pn
        invariant
            vp@ == path@,
            pn == vp@.len(),
            start <= i <= pn,
            rest@ == path@.subrange(start as int, i as int),
    {
        rest.push(vp[i]);
        assert(rest@ =~= path@.subrange(start as int, i + 1));
    }
    proof {
        let b = base@.len() as int;
        if base@.last() == '/' {
            assert(rest@ =~= path@.skip(b));
        } else {
            assert(rest@ =~= path@.skip(b).drop_first());
        }
    }
    Some(chars_to_string(&rest))
}

/// The wall-clock time a finished book is recorded under: its
/// modification instant shown on the machine's local clock.
pub fn added_fields_for(modified_at: i64) -> (r: Option<DateTimeFields>)
    ensures
        r is Some ==> r->0.wf(),
{
    epoch_to_local_fields(modified_at)
}

/// The document record announced to the host once a book's body is on
/// disk: the book's metadata, its content key, and the file's place and
/// size as the host will index them.
pub fn completion_info(
    meta: &BookMetadata,
    key: &str,
    rel_path: String,
    size: u64,
    added: DateTimeFields,
) -> (i: Info)
    ensures
        i.title@ == meta.title@,
        i.author@ == meta.author@,
        i.identifier@ == key@,
        i.file.path@ == rel_path@,
        i.file.kind@ == "epub"@,
        i.file.size == size,
        i.added == added,
{
    Info {
        title: meta.title.clone(),
        author: meta.author.clone(),
        identifier: key.to_owned(),
        file: FileInfo { path: rel_path, kind: "epub".to_owned(), size },
        added,
    }
}

/// The announcement for a finished book: an update when a record already
/// existed at `rel_path`, an addition otherwise.
pub fn completion_event(is_update: bool, rel_path: &str, info: Info) -> (e: Event)
    ensures
        is_update ==> (e matches Event::UpdateDocument(p, i) && p@ == rel_path@ && i == info),
        !is_update ==> (e matches Event::AddDocument(i) && i == info),
{
    if is_update {
        Event::UpdateDocument(rel_path.to_owned(), info)
    } else {
        Event::AddDocument(info)
    }
}

/// What the run does about connectivity before listing, from the two
/// flags it was started with.
#[derive(Debug, Clone, Copy, PartialEq, Eq, Structural)]
pub enum NetworkStep {
    /// Already online: start listing at once.
    Proceed,
    /// Offline with the radio off: ask the host to enable it, then go on.
    EnableWifi,
    /// Offline with the radio on: tell the host, and block for one
    /// response line before going on.
    AwaitReady,
}

/// The connectivity decision table.
pub open spec fn spec_network_step(wifi: bool, online: bool) -> NetworkStep {
    if online {
        NetworkStep::Proceed
    } else if !wifi {
        NetworkStep::EnableWifi
    } else {
        NetworkStep::AwaitReady
    }
}

/// Decides the connectivity preamble.
pub fn network_preamble(wifi: bool, online: bool) -> (s: NetworkStep)
    ensures
        s == spec_network_step(wifi, online),
{
    if online {
        NetworkStep::Proceed
    } else if !wifi {
        NetworkStep::EnableWifi
    } else {
        NetworkStep::AwaitReady
    }
}

/// The closing notification, sent after the listing is drained or the
/// run is cancelled.
pub fn finished_notification() -> (e: Event)
    ensures
        e matches Event::Notify(m) && m@ == "Finished syncing books!"@,
{
    Event::Notify("Finished syncing books!".to_owned())
}

/// One book as a whole run sees it: the modification instant, the added
/// instant of a matching host record if one exists, and whether the body
/// download would go through.
#[derive(Debug, Clone, Copy)]
pub struct BookInput {
    pub modified_at: i64,
    pub existing_added: Option<i64>,
    pub download_ok: bool,
}

/// One visible step of a run's report.
#[derive(Debug, Clone, Copy, PartialEq, Eq, Structural)]
pub enum RunMessage {
    /// A new book was downloaded and announced.
    Added,
    /// An existing book was overwritten and announced.
    Updated,
    /// A body download failed; the partial file is removed and the run
    /// goes on with the next book.
    FailedDownload,
    /// The closing notification.
    Finished,
}

/// The decision the table gives this book.
pub open spec fn book_decision(b: BookInput) -> SyncDecision {
    spec_decide(b.existing_added, b.modified_at)
}

/// Whether a download is attempted for this book.
pub open spec fn book_downloads(b: BookInput) -> bool {
    book_decision(b) != SyncDecision::Skip
}

/// Whether this book ends with a file on disk and an announcement: a
/// download was attempted and went through. A failed download leaves
/// neither, a skipped book touches nothing.
pub open spec fn book_completes(b: BookInput) -> bool {
    book_downloads(b) && b.download_ok
}

/// How many downloads a run of books attempts.
pub open spec fn downloads_attempted(run: Seq<BookInput>) -> nat
    decreases run.len(),
{
    if run.len() == 0 {
        0
    } else {
        downloads_attempted(run.drop_last()) + if book_downloads(run.last()) {
            1nat
        } else {
            0
        }
    }
}

/// The books a run processes: everything up to the first cancellation
/// check that sees the flag set, everything when it is never set.
pub open spec fn processed_prefix(run: Seq<BookInput>, cancel_after: Option<int>) -> Seq<
    BookInput,
> {
    match cancel_after {
        Some(k) => if 0 <= k <= run.len() {
            run.take(k)
        } else {
            run
        },
        None => run,
    }
}

/// What one book contributes to the run's report.
pub open spec fn book_messages(b: BookInput) -> Seq<RunMessage> {
    match book_decision(b) {
        SyncDecision::Skip => Seq::<RunMessage>::empty(),
        SyncDecision::FetchNew => if b.download_ok {
            seq![RunMessage::Added]
        } else {
            seq![RunMessage::FailedDownload]
        },
        SyncDecision::FetchOverwrite => if b.download_ok {
            seq![RunMessage::Updated]
        } else {
            seq![RunMessage::FailedDownload]
        },
    }
}

/// The report of a run over these books, in order.
pub open spec fn messages_of(run: Seq<BookInput>) -> Seq<RunMessage>
    decreases run.len(),
{
    if run.len() == 0 {
        Seq::<RunMessage>::empty()
    } else {
        messages_of(run.drop_last()) + book_messages(run.last())
    }
}

/// A whole run's report: the processed books' messages, then the closing
/// notification — which is sent whether or not the run was cancelled.
pub open spec fn run_messages(run: Seq<BookInput>, cancel_after: Option<int>) -> Seq<RunMessage> {
    messages_of(processed_prefix(run, cancel_after)) + seq![RunMessage::Finished]
}

/// Law: a second pass over an unchanged library downloads nothing — when
/// every book already has a record whose added time equals its
/// modification time, every decision is a skip, and the run's whole
/// report is the closing notification.
pub proof fn lemma_resync_downloads_nothing(run: Seq<BookInput>)
    requires
        forall|i: int|
            0 <= i < run.len() ==> (#[trigger] run[i]).existing_added == Some(run[i].modified_at),
    ensures
        downloads_attempted(run) == 0,
        run_messages(run, None) =~= seq![RunMessage::Finished],
    decreases run.len(),
{
    if run.len() > 0 {
        assert(run.last() == run[run.len() - 1]);
        assert forall|i: int| 0 <= i < run.drop_last().len() implies (#[trigger] run.drop_last()[i]).existing_added
            == Some(run.drop_last()[i].modified_at) by {
            assert(run.drop_last()[i] == run[i]);
        }
        lemma_resync_downloads_nothing(run.drop_last());
        assert(book_messages(run.last()) =~= Seq::<RunMessage>::empty());
        assert(messages_of(run) =~= Seq::<RunMessage>::empty());
    }
}

/// Law: per-book failure isolation — a book whose body download fails is
/// neither announced nor left on disk, and every other fetched book is
/// completed regardless, wherever in the run the failure falls.
pub proof fn lemma_failure_isolated(run: Seq<BookInput>, i: int)
    requires
        0 <= i < run.len(),
    ensures
        !run[i].download_ok ==> !book_completes(run[i]),
        run[i].download_ok && book_downloads(run[i]) ==> book_completes(run[i]),
{
}

/// Law: cancellation after `k` books processes exactly the first `k`
/// books, and the closing notification is still sent.
pub proof fn lemma_cancellation(run: Seq<BookInput>, k: int)
    requires
        0 <= k <= run.len(),
    ensures
        processed_prefix(run, Some(k)) == run.take(k),
        processed_prefix(run, Some(k)).len() == k,
        run_messages(run, Some(k)).len() > 0,
        run_messages(run, Some(k)).last() == RunMessage::Finished,
{
}

/// Replays a run's decision loop over the given books: exactly the
/// per-book sequencing the orchestrator follows, producing the report
/// that `run_messages` describes.
pub fn replay_run(inputs: &Vec<BookInput>, cancel_after: Option<usize>) -> (msgs: Vec<RunMessage>)
    ensures
        msgs@ == run_messages(
            inputs@,
            match cancel_after {
                Some(k) => Some(k as int),
                None => None,
            },
        ),
{
    let ghost cancel = match cancel_after {
        Some(k) => Some(k as int),
        None => None,
    };
    let bound = match cancel_after {
        Some(k) => if k <= inputs.len() {
            k
        } else {
            inputs.len()
        },
        None => inputs.len(),
    };
    let ghost prefix = processed_prefix(inputs@, cancel);
    proof {
        assert(prefix =~= inputs@.take(bound as int));
    }
    let mut msgs: Vec<RunMessage> = Vec::new();
    for i in 0..bound
        invariant
            bound <= inputs@.len(),
            prefix == processed_prefix(inputs@, cancel),
            prefix =~= inputs@.take(bound as int),
            msgs@ == messages_of(inputs@.take(i as int)),
    {
        let b = inputs[i];
        let d = decide(b.existing_added, b.modified_at);
        match d {
            SyncDecision::Skip => {},
            SyncDecision::FetchNew => {
                if b.download_ok {
                    msgs.push(RunMessage::Added);
                } else {
                    msgs.push(RunMessage::FailedDownload);
                }
            },
            SyncDecision::FetchOverwrite => {
                if b.download_ok {
                    msgs.push(RunMessage::Updated);
                } else {
                    msgs.push(RunMessage::FailedDownload);
                }
            },
        }
        proof {
            let t = inputs@.take(i + 1);
            assert(t.drop_last() =~= inputs@.take(i as int));
            assert(t.last() == inputs@[i as int]);
            assert(msgs@ =~= messages_of(inputs@.take(i as int)) + book_messages(
                inputs@[i as int],
            ));
        }
    }
    msgs.push(RunMessage::Finished);
    proof {
        assert(inputs@.take(bound as int) == prefix);
        assert(msgs@ =~= messages_of(prefix) + seq![RunMessage::Finished]);
    }
    msgs
}

} // verus!
