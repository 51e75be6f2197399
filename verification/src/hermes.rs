//! The parts of the Hermes run protocol that decide things: which run
//! capabilities are present, how a server-sent event stream is framed, and
//! which terminal event ends a research run.
//!
//! The HTTP exchange itself is done by the application; it hands the response
//! text to [`split_sse_frames`], decodes each frame's data as JSON, and hands
//! the decoded events to [`terminal_event`].
use vstd::prelude::*;

use crate::error::SearchError;
use crate::json::{self, Json};
use crate::text::{
    self, has_prefix, join, lemma_views_push, lines, split_lines, trim, trim_start, views,
};

verus! {

/// Run capabilities advertised by a Hermes API server.
#[derive(Clone, Copy, Debug)]
pub struct HermesCapabilities {
    pub run_submission: bool,
    pub run_events_sse: bool,
    pub run_stop: bool,
}

/// The Hermes API server the bridge talks to.
#[derive(Clone, Debug)]
pub struct HermesApi {
    pub base_url: String,
    pub api_key: String,
}

/// `s` without trailing `/` characters.
pub open spec fn without_trailing_slashes(s: Seq<char>) -> Seq<char>
    decreases s.len(),
{
    if s.len() > 0 && s.last() == '/' {
        without_trailing_slashes(s.drop_last())
    } else {
        s
    }
}

impl HermesApi {
    /// The server at `base_url` (trailing slashes dropped), reached with `api_key`.
    pub fn new(base_url: &str, api_key: &str) -> (res: HermesApi)
        ensures
            res.base_url@ == without_trailing_slashes(base_url@),
            res.api_key@ == api_key@,
    {
        let cs = text::chars_of(base_url);
        let mut k = cs.len();
        assert(cs@.subrange(0, cs@.len() as int) =~= cs@);
        while k > 0 && cs[k - 1] == '/'
            invariant
                k <= cs@.len(),
                cs@ == base_url@,
                without_trailing_slashes(base_url@) == without_trailing_slashes(cs@.subrange(0, k as int)),
            decreases k,
        {
            assert(cs@.subrange(0, k as int).drop_last() =~= cs@.subrange(0, k - 1));
            k = k - 1;
        }
        HermesApi { base_url: text::string_from_range(&cs, 0, k), api_key: String::from_str(api_key) }
    }

    /// The URL of an API path.
    pub fn url(&self, path: &str) -> (res: String)
        ensures
            res@ == self.base_url@ + path@,
    {
        let mut s = self.base_url.clone();
        s.append(path);
        s
    }

    /// The URL of a run's event stream.
    pub fn run_events_url(&self, run_id: &str) -> (res: String)
        ensures
            res@ == self.base_url@ + "/v1/runs/"@ + run_id@ + "/events"@,
    {
        let mut s = self.base_url.clone();
        s.append("/v1/runs/");
        s.append(run_id);
        s.append("/events");
        s
    }

    /// The URL that stops a run.
    pub fn run_stop_url(&self, run_id: &str) -> (res: String)
        ensures
            res@ == self.base_url@ + "/v1/runs/"@ + run_id@ + "/stop"@,
    {
        let mut s = self.base_url.clone();
        s.append("/v1/runs/");
        s.append(run_id);
        s.append("/stop");
        s
    }
}

/// An HTTP status in the success range.
pub fn is_success(status: u16) -> (res: bool)
    ensures
        res == (200 <= status && status < 300),
{
    200 <= status && status < 300
}

/// The error for an unsuccessful HTTP response: its status and body (a
/// placeholder when the body could not be read).
pub fn http_error(status: u16, body: Option<String>) -> (res: SearchError)
    ensures
        res matches SearchError::HermesHttp { status: s, body: b } && s == status && b@ == (match body {
            Some(t) => t@,
            None => "<failed to read Hermes error body>"@,
        }),
{
    let body = match body {
        Some(t) => t,
        None => String::from_str("<failed to read Hermes error body>"),
    };
    SearchError::HermesHttp { status, body }
}

/// A run capability is advertised when its feature flag is `true`.
pub open spec fn feature_of(features: Json, name: Seq<char>) -> bool {
    match json::get(features, name) {
        Some(Json::Bool(b)) => b,
        _ => false,
    }
}

fn feature(features: &Json, name: &str) -> (res: bool)
    ensures
        res == feature_of(*features, name@),
{
    match json::get_member(features, name) {
        Some(Json::Bool(b)) => *b,
        _ => false,
    }
}

/// The run capabilities a `/v1/capabilities` reply advertises.
pub fn capabilities_from(payload: &Json) -> (res: Result<HermesCapabilities, SearchError>)
    ensures
        match json::get(*payload, "features"@) {
            Some(f) if f is Object => res matches Ok(c) && c.run_submission == feature_of(f, "run_submission"@)
                && c.run_events_sse == feature_of(f, "run_events_sse"@) && c.run_stop == feature_of(f, "run_stop"@),
            _ => res matches Err(SearchError::HermesProtocol(m)) && m@ == "capabilities.features is missing"@,
        },
{
    match json::get_member(payload, "features") {
        Some(f) => match f {
            Json::Object(_) => Ok(
                HermesCapabilities {
                    run_submission: feature(f, "run_submission"),
                    run_events_sse: feature(f, "run_events_sse"),
                    run_stop: feature(f, "run_stop"),
                },
            ),
            _ => Err(SearchError::HermesProtocol(String::from_str("capabilities.features is missing"))),
        },
        None => Err(SearchError::HermesProtocol(String::from_str("capabilities.features is missing"))),
    }
}

/// The names of the research capabilities a server lacks, in order.
pub open spec fn missing_capabilities(c: HermesCapabilities) -> Seq<Seq<char>> {
    let a = if c.run_submission { Seq::empty() } else { seq!["run_submission"@] };
    let b = if c.run_events_sse { a } else { a.push("run_events_sse"@) };
    if c.run_stop { b } else { b.push("run_stop"@) }
}

/// Accepts a server that can submit runs, stream their events and stop
/// them; otherwise names what it lacks.
pub fn require_research_capabilities(caps: HermesCapabilities) -> (res: Result<HermesCapabilities, SearchError>)
    ensures
        missing_capabilities(caps).len() == 0 ==> res == Ok::<HermesCapabilities, SearchError>(caps),
        missing_capabilities(caps).len() > 0 ==> (res matches Err(SearchError::HermesProtocol(m)) && m@
            == "Hermes is missing required capabilities: "@ + join(missing_capabilities(caps), ", "@)),
{
    let mut missing: Vec<Vec<char>> = Vec::new();
    if !caps.run_submission {
        missing.push(text::chars_of("run_submission"));
    }
    if !caps.run_events_sse {
        missing.push(text::chars_of("run_events_sse"));
    }
    if !caps.run_stop {
        missing.push(text::chars_of("run_stop"));
    }
    assert(views(missing@) =~= missing_capabilities(caps));
    if missing.len() == 0 {
        return Ok(caps);
    }
    let sep = text::chars_of(", ");
    let joined = text::join_chars(&missing, &sep);
    let mut m = String::from_str("Hermes is missing required capabilities: ");
    let tail = text::string_from_chars(&joined);
    m.append(tail.as_str());
    Err(SearchError::HermesProtocol(m))
}

/// Accepts the run id of a started run; a blank one is a protocol error.
pub fn accept_run_id(run_id: String) -> (res: Result<String, SearchError>)
    ensures
        !text::is_blank(run_id@) ==> res == Ok::<String, SearchError>(run_id),
        text::is_blank(run_id@) ==> (res matches Err(SearchError::HermesProtocol(m)) && m@
            == "Hermes returned an empty run_id"@),
{
    if text::blank(run_id.as_str()) {
        Err(SearchError::HermesProtocol(String::from_str("Hermes returned an empty run_id")))
    } else {
        Ok(run_id)
    }
}

// ---------------------------------------------------------------------------
// Event stream framing
// ---------------------------------------------------------------------------

/// `s` with every `"\r\n"` replaced by `"\n"`, scanning left to right.
pub open spec fn normalize_newlines(s: Seq<char>) -> Seq<char>
    decreases s.len(),
{
    if s.len() == 0 {
        Seq::empty()
    } else if s.len() >= 2 && s[0] == '\r' && s[1] == '\n' {
        seq!['\n'] + normalize_newlines(s.subrange(2, s.len() as int))
    } else {
        seq![s[0]] + normalize_newlines(s.drop_first())
    }
}

/// Pieces of `s` separated by `"\n\n"`, `cur` being the piece read so far
/// (as `str::split("\n\n")`).
pub open spec fn blocks_from(cur: Seq<char>, s: Seq<char>) -> Seq<Seq<char>>
    decreases s.len(),
{
    if s.len() == 0 {
        seq![cur]
    } else if s.len() >= 2 && s[0] == '\n' && s[1] == '\n' {
        seq![cur] + blocks_from(Seq::empty(), s.subrange(2, s.len() as int))
    } else {
        blocks_from(cur.push(s[0]), s.drop_first())
    }
}

pub open spec fn blocks(s: Seq<char>) -> Seq<Seq<char>> {
    blocks_from(Seq::empty(), s)
}

pub open spec fn event_tag() -> Seq<char> {
    seq!['e', 'v', 'e', 'n', 't', ':']
}

pub open spec fn data_tag() -> Seq<char> {
    seq!['d', 'a', 't', 'a', ':']
}

/// The trimmed name of the last `event:` line.
pub open spec fn event_of(ls: Seq<Seq<char>>) -> Option<Seq<char>>
    decreases ls.len(),
{
    if ls.len() == 0 {
        None
    } else if has_prefix(ls.last(), event_tag()) {
        Some(trim(ls.last().subrange(6, ls.last().len() as int)))
    } else {
        event_of(ls.drop_last())
    }
}

/// The values of the `data:` lines, leading white space removed, in order.
pub open spec fn data_of(ls: Seq<Seq<char>>) -> Seq<Seq<char>>
    decreases ls.len(),
{
    if ls.len() == 0 {
        Seq::empty()
    } else if !has_prefix(ls.last(), event_tag()) && has_prefix(ls.last(), data_tag()) {
        data_of(ls.drop_last()).push(trim_start(ls.last().subrange(5, ls.last().len() as int)))
    } else {
        data_of(ls.drop_last())
    }
}

/// The frame a block carries: its event name and its data lines joined by
/// `'\n'`.  A block without data lines carries no frame.
pub open spec fn frame_of_lines(ls: Seq<Seq<char>>) -> Option<(Option<Seq<char>>, Seq<char>)> {
    if data_of(ls).len() == 0 {
        None
    } else {
        Some((event_of(ls), join(data_of(ls), seq!['\n'])))
    }
}

pub open spec fn frames_of(bs: Seq<Seq<char>>) -> Seq<(Option<Seq<char>>, Seq<char>)>
    decreases bs.len(),
{
    if bs.len() == 0 {
        Seq::empty()
    } else {
        match frame_of_lines(lines(bs.last())) {
            Some(f) => frames_of(bs.drop_last()).push(f),
            None => frames_of(bs.drop_last()),
        }
    }
}

/// The frames of a server-sent event stream, in order.
pub open spec fn sse_frames(body: Seq<char>) -> Seq<(Option<Seq<char>>, Seq<char>)> {
    frames_of(blocks(normalize_newlines(body)))
}

/// One framed server-sent event: its `event:` name, if any, and its data.
#[derive(Debug)]
pub struct SseFrame {
    pub event: Option<String>,
    pub data: String,
}

pub open spec fn opt_view(o: Option<String>) -> Option<Seq<char>> {
    match o {
        Some(s) => Some(s@),
        None => None,
    }
}

pub open spec fn frame_view(f: SseFrame) -> (Option<Seq<char>>, Seq<char>) {
    (opt_view(f.event), f.data@)
}

fn normalize(cs: &Vec<char>) -> (res: Vec<char>)
    ensures
        res@ == normalize_newlines(cs@),
{
    let ghost all = cs@;
    let n = cs.len();
    let mut out: Vec<char> = Vec::new();
    let mut i: usize = 0;
    assert(all.subrange(0, n as int) =~= all);
    while i < n
        invariant
            i <= n == all.len(),
            all == cs@,
            normalize_newlines(all) == out@ + normalize_newlines(all.subrange(i as int, n as int)),
        decreases n - i,
    {
        let ghost rest = all.subrange(i as int, n as int);
        let ghost out_old = out@;
        if i + 1 < n && cs[i] == '\r' && cs[i + 1] == '\n' {
            out.push('\n');
            proof {
                let tail = all.subrange(i + 2, n as int);
                assert(rest.subrange(2, rest.len() as int) =~= tail);
                assert(normalize_newlines(rest) == seq!['\n'] + normalize_newlines(tail));
                assert(out_old + (seq!['\n'] + normalize_newlines(tail)) =~= out@ + normalize_newlines(tail));
            }
            i = i + 2;
        } else {
            out.push(cs[i]);
            proof {
                let tail = all.subrange(i + 1, n as int);
                assert(rest.drop_first() =~= tail);
                assert(normalize_newlines(rest) == seq![rest[0]] + normalize_newlines(tail));
                assert(out_old + (seq![rest[0]] + normalize_newlines(tail)) =~= out@ + normalize_newlines(tail));
            }
            i = i + 1;
        }
    }
    assert(all.subrange(n as int, n as int) =~= Seq::<char>::empty());
    assert(out@ + Seq::<char>::empty() =~= out@);
    out
}

fn split_blocks(cs: &Vec<char>) -> (res: Vec<Vec<char>>)
    ensures
        views(res@) == blocks(cs@),
{
    let ghost all = cs@;
    let n = cs.len();
    let mut res: Vec<Vec<char>> = Vec::new();
    let mut cur: Vec<char> = Vec::new();
    let mut i: usize = 0;
    assert(all.subrange(0, n as int) =~= all);
    assert(views(res@) =~= Seq::<Seq<char>>::empty());
    while i < n
        invariant
            i <= n == all.len(),
            all == cs@,
            blocks(all) == views(res@) + blocks_from(cur@, all.subrange(i as int, n as int)),
        decreases n - i,
    {
        let ghost rest = all.subrange(i as int, n as int);
        let ghost res_old = views(res@);
        if i + 1 < n && cs[i] == '\n' && cs[i + 1] == '\n' {
            let ghost cur_old = cur@;
            let done = cur;
            cur = Vec::new();
            res.push(done);
            proof {
                let tail = all.subrange(i + 2, n as int);
                assert(rest.subrange(2, rest.len() as int) =~= tail);
                lemma_views_push(res@.drop_last(), done);
                assert(res@.drop_last().push(done) =~= res@);
                assert(blocks_from(cur_old, rest) == seq![cur_old] + blocks_from(Seq::empty(), tail));
                assert(res_old + (seq![cur_old] + blocks_from(Seq::empty(), tail)) =~= views(res@) + blocks_from(cur@, tail));
            }
            i = i + 2;
        } else {
            let ghost cur_old = cur@;
            cur.push(cs[i]);
            proof {
                let tail = all.subrange(i + 1, n as int);
                assert(rest.drop_first() =~= tail);
                assert(blocks_from(cur_old, rest) == blocks_from(cur@, tail));
            }
            i = i + 1;
        }
    }
    let ghost res_old = views(res@);
    let ghost cur_v = cur@;
    assert(all.subrange(n as int, n as int) =~= Seq::<char>::empty());
    res.push(cur);
    proof {
        lemma_views_push(res@.drop_last(), cur);
        assert(res@.drop_last().push(cur) =~= res@);
        assert(res_old + seq![cur_v] =~= views(res@));
    }
    res
}

fn frame_from_lines(ls: &Vec<Vec<char>>) -> (res: Option<SseFrame>)
    ensures
        match res {
            Some(f) => frame_of_lines(views(ls@)) == Some(frame_view(f)),
            None => frame_of_lines(views(ls@)) is None,
        },
{
    let event_prefix: Vec<char> = vec!['e', 'v', 'e', 'n', 't', ':'];
    let data_prefix: Vec<char> = vec!['d', 'a', 't', 'a', ':'];
    assert(event_prefix@ =~= event_tag());
    assert(data_prefix@ =~= data_tag());
    let ghost all = views(ls@);
    let mut event: Option<String> = None;
    let mut data: Vec<Vec<char>> = Vec::new();
    let mut i: usize = 0;
    assert(all.subrange(0, 0) =~= Seq::<Seq<char>>::empty());
    assert(views(data@) =~= Seq::<Seq<char>>::empty());
    while i < ls.len()
        invariant
            i <= ls@.len(),
            all == views(ls@),
            event_prefix@ == event_tag(),
            data_prefix@ == data_tag(),
            opt_view(event) == event_of(all.subrange(0, i as int)),
            views(data@) == data_of(all.subrange(0, i as int)),
        decreases ls.len() - i,
    {
        let line = &ls[i];
        let ghost pre = all.subrange(0, i as int);
        let ghost nxt = all.subrange(0, i + 1);
        assert(nxt.drop_last() =~= pre);
        assert(nxt.last() == line@);
        if text::starts_with(line, &event_prefix) {
            let rest = text::chars_range(line, 6, line.len());
            event = Some(text::trim_chars(&rest));
        } else if text::starts_with(line, &data_prefix) {
            let rest = text::chars_range(line, 5, line.len());
            let k = text::trim_start_bound(&rest);
            let value = text::chars_range(&rest, k, rest.len());
            let ghost data_old = data@;
            data.push(value);
            proof {
                lemma_views_push(data_old, value);
            }
        }
        i = i + 1;
    }
    assert(all.subrange(0, ls@.len() as int) =~= all);
    if data.len() == 0 {
        None
    } else {
        let sep: Vec<char> = vec!['\n'];
        assert(sep@ =~= seq!['\n']);
        let joined = text::join_chars(&data, &sep);
        Some(SseFrame { event, data: text::string_from_chars(&joined) })
    }
}

/// Splits a server-sent event stream into its frames: the text is cut at
/// blank lines, each block's `event:` and `data:` lines are read, and blocks
/// without data are skipped.
pub fn split_sse_frames(body: &str) -> (res: Vec<SseFrame>)
    ensures
        res@.map_values(|f: SseFrame| frame_view(f)) == sse_frames(body@),
{
    let cs = text::chars_of(body);
    let normalized = normalize(&cs);
    let bs = split_blocks(&normalized);
    let ghost all = views(bs@);
    let mut res: Vec<SseFrame> = Vec::new();
    let mut i: usize = 0;
    assert(all.subrange(0, 0) =~= Seq::<Seq<char>>::empty());
    assert(res@.map_values(|f: SseFrame| frame_view(f)) =~= Seq::<(Option<Seq<char>>, Seq<char>)>::empty());
    while i < bs.len()
        invariant
            i <= bs@.len(),
            all == views(bs@),
            res@.map_values(|f: SseFrame| frame_view(f)) == frames_of(all.subrange(0, i as int)),
        decreases bs.len() - i,
    {
        let ghost pre = all.subrange(0, i as int);
        let ghost nxt = all.subrange(0, i + 1);
        assert(nxt.drop_last() =~= pre);
        assert(nxt.last() == bs@[i as int]@);
        let ls = split_lines(&bs[i]);
        let ghost res_old = res@;
        match frame_from_lines(&ls) {
            Some(f) => {
                res.push(f);
                assert(res@.map_values(|f: SseFrame| frame_view(f)) =~= res_old.map_values(|f: SseFrame| frame_view(f)).push(frame_view(f)));
            },
            None => {},
        }
        i = i + 1;
    }
    assert(all.subrange(0, bs@.len() as int) =~= all);
    res
}

// ---------------------------------------------------------------------------
// Terminal run events
// ---------------------------------------------------------------------------

/// A framed event whose data has been decoded; `payload` is `None` when the
/// data was not valid JSON.
#[derive(Debug)]
pub struct SseEvent {
    pub event: Option<String>,
    pub payload: Option<Json>,
}

/// The final answer of a completed research run and the event that carried it.
#[derive(Debug)]
pub struct CompletedRun {
    pub content: String,
    pub raw_event: Json,
}

/// The text of a content part: its `text` string, else its `content` string.
pub open spec fn part_text(part: Json) -> Option<Seq<char>> {
    match json::as_str(json::get(part, "text"@)) {
        Some(t) => Some(t),
        None => json::as_str(json::get(part, "content"@)),
    }
}

pub open spec fn part_texts(parts: Seq<Json>) -> Seq<Seq<char>>
    decreases parts.len(),
{
    if parts.len() == 0 {
        Seq::empty()
    } else {
        match part_text(parts.last()) {
            Some(t) => part_texts(parts.drop_last()).push(t),
            None => part_texts(parts.drop_last()),
        }
    }
}

/// A value read as text: a string as is, an array of content parts as the
/// texts of its parts joined by `'\n'` (when that is not empty).
pub open spec fn value_text(v: Json) -> Option<Seq<char>> {
    match v {
        Json::Str(s) => Some(s@),
        Json::Array(parts) => {
            let t = join(part_texts(parts@), seq!['\n']);
            if t.len() == 0 {
                None
            } else {
                Some(t)
            }
        },
        _ => None,
    }
}

/// The text of a value when it is present and not blank.
pub open spec fn nonblank_text(v: Option<Json>) -> Option<Seq<char>> {
    match v {
        Some(j) => match value_text(j) {
            Some(t) => if text::is_blank(t) {
                None
            } else {
                Some(t)
            },
            None => None,
        },
        None => None,
    }
}

/// The content of the last assistant message with non-blank content.
pub open spec fn final_from_messages(messages: Seq<Json>) -> Option<Seq<char>>
    decreases messages.len(),
{
    if messages.len() == 0 {
        None
    } else {
        let m = messages.last();
        if json::as_str(json::get(m, "role"@)) == Some("assistant"@) && nonblank_text(
            json::get(m, "content"@),
        ) is Some {
            nonblank_text(json::get(m, "content"@))
        } else {
            final_from_messages(messages.drop_last())
        }
    }
}

/// The final answer carried by a `run.completed` payload: the first non-blank
/// of `content`, `final_response` and `output`, else the last assistant
/// message.
pub open spec fn final_text(payload: Json) -> Option<Seq<char>> {
    if nonblank_text(json::get(payload, "content"@)) is Some {
        nonblank_text(json::get(payload, "content"@))
    } else if nonblank_text(json::get(payload, "final_response"@)) is Some {
        nonblank_text(json::get(payload, "final_response"@))
    } else if nonblank_text(json::get(payload, "output"@)) is Some {
        nonblank_text(json::get(payload, "output"@))
    } else {
        match json::get(payload, "messages"@) {
            Some(Json::Array(ms)) => final_from_messages(ms@),
            _ => None,
        }
    }
}

/// The event's name: its `event:` line, else the payload's `event` string,
/// else empty.
pub open spec fn effective_event(name: Option<String>, payload: Json) -> Seq<char> {
    match name {
        Some(n) => n@,
        None => match json::as_str(json::get(payload, "event"@)) {
            Some(e) => e,
            None => Seq::empty(),
        },
    }
}

pub open spec fn is_failure_event(name: Seq<char>) -> bool {
    name == "run.failed"@ || name == "run.interrupted"@ || name == "run.cancelled"@ || name
        == "run.stopped"@
}

/// How an event stream ends.
pub enum Termination {
    Completed(Seq<char>, Json),
    Failed(Seq<char>),
    CompletedWithoutText,
    Unterminated,
}

/// The outcome of the events, `failure` being the last failure seen so far:
/// the first `run.completed` event decides; otherwise the last failure event
/// (its `error` string, else its name); otherwise the stream never ended.
pub open spec fn termination(events: Seq<SseEvent>, failure: Option<Seq<char>>) -> Termination
    decreases events.len(),
{
    if events.len() == 0 {
        match failure {
            Some(e) => Termination::Failed(e),
            None => Termination::Unterminated,
        }
    } else {
        match events[0].payload {
            None => termination(events.drop_first(), failure),
            Some(p) => {
                let name = effective_event(events[0].event, p);
                if name == "run.completed"@ {
                    match final_text(p) {
                        Some(t) => Termination::Completed(t, p),
                        None => Termination::CompletedWithoutText,
                    }
                } else if is_failure_event(name) {
                    let e = match json::as_str(json::get(p, "error"@)) {
                        Some(e) => e,
                        None => name,
                    };
                    termination(events.drop_first(), Some(e))
                } else {
                    termination(events.drop_first(), failure)
                }
            },
        }
    }
}

fn eq_lit(s: &String, lit: &str) -> (res: bool)
    ensures
        res == (s@ == lit@),
{
    *s == String::from_str(lit)
}

fn value_as_text(v: &Json) -> (res: Option<String>)
    ensures
        opt_view(res) == value_text(*v),
{
    match v {
        Json::Str(s) => Some(s.clone()),
        Json::Array(parts) => {
            let mut texts: Vec<Vec<char>> = Vec::new();
            let mut i: usize = 0;
            assert(parts@.subrange(0, 0) =~= Seq::<Json>::empty());
            assert(views(texts@) =~= Seq::<Seq<char>>::empty());
            while i < parts.len()
                invariant
                    i <= parts@.len(),
                    views(texts@) == part_texts(parts@.subrange(0, i as int)),
                decreases parts.len() - i,
            {
                let part = &parts[i];
                let ghost nxt = parts@.subrange(0, i + 1);
                assert(nxt.drop_last() =~= parts@.subrange(0, i as int));
                let found = match json::get_str(part, "text") {
                    Some(t) => Some(t),
                    None => json::get_str(part, "content"),
                };
                match found {
                    Some(t) => {
                        let ghost old_texts = texts@;
                        let cs = text::chars_of(t.as_str());
                        texts.push(cs);
                        proof {
                            lemma_views_push(old_texts, cs);
                        }
                    },
                    None => {},
                }
                i = i + 1;
            }
            assert(parts@.subrange(0, parts@.len() as int) =~= parts@);
            let sep: Vec<char> = vec!['\n'];
            assert(sep@ =~= seq!['\n']);
            let joined = text::join_chars(&texts, &sep);
            if joined.len() == 0 {
                None
            } else {
                Some(text::string_from_chars(&joined))
            }
        },
        _ => None,
    }
}

fn nonblank_member(v: &Json, key: &str) -> (res: Option<String>)
    ensures
        opt_view(res) == nonblank_text(json::get(*v, key@)),
{
    match json::get_member(v, key) {
        Some(m) => match value_as_text(m) {
            Some(t) => if text::blank(t.as_str()) {
                None
            } else {
                Some(t)
            },
            None => None,
        },
        None => None,
    }
}

fn extract_final_text(payload: &Json) -> (res: Option<String>)
    ensures
        opt_view(res) == final_text(*payload),
{
    let content = nonblank_member(payload, "content");
    if content.is_some() {
        return content;
    }
    let final_response = nonblank_member(payload, "final_response");
    if final_response.is_some() {
        return final_response;
    }
    let output = nonblank_member(payload, "output");
    if output.is_some() {
        return output;
    }
    match json::get_member(payload, "messages") {
        Some(Json::Array(messages)) => {
            let mut i: usize = messages.len();
            assert(messages@.subrange(0, messages@.len() as int) =~= messages@);
            while i > 0
                invariant
                    i <= messages@.len(),
                    nonblank_text(json::get(*payload, "content"@)) is None,
                    nonblank_text(json::get(*payload, "final_response"@)) is None,
                    nonblank_text(json::get(*payload, "output"@)) is None,
                    json::get(*payload, "messages"@) == Some(Json::Array(*messages)),
                    final_from_messages(messages@) == final_from_messages(
                        messages@.subrange(0, i as int),
                    ),
                decreases i,
            {
                let m = &messages[i - 1];
                let ghost pre = messages@.subrange(0, i as int);
                assert(pre.drop_last() =~= messages@.subrange(0, i - 1));
                assert(pre.last() == *m);
                let is_assistant = match json::get_str(m, "role") {
                    Some(role) => eq_lit(role, "assistant"),
                    None => false,
                };
                if is_assistant {
                    let t = nonblank_member(m, "content");
                    if t.is_some() {
                        return t;
                    }
                }
                i = i - 1;
            }
            None
        },
        _ => None,
    }
}

fn effective_event_name(name: &Option<String>, payload: &Json) -> (res: String)
    ensures
        res@ == effective_event(*name, *payload),
{
    match name {
        Some(n) => n.clone(),
        None => match json::get_str(payload, "event") {
            Some(e) => e.clone(),
            None => String::new(),
        },
    }
}

enum Step {
    Skip,
    Complete,
    Fail(String),
}

/// What one event means for the run: nothing, completion, or a failure
/// with its message.
fn classify(ev: &SseEvent) -> (res: Step)
    ensures
        match res {
            Step::Complete => ev.payload is Some && effective_event(ev.event, ev.payload->0)
                == "run.completed"@,
            Step::Fail(e) => ev.payload is Some && effective_event(ev.event, ev.payload->0)
                != "run.completed"@ && is_failure_event(effective_event(ev.event, ev.payload->0))
                && e@ == match json::as_str(json::get(ev.payload->0, "error"@)) {
                Some(m) => m,
                None => effective_event(ev.event, ev.payload->0),
            },
            Step::Skip => ev.payload is None || (effective_event(ev.event, ev.payload->0)
                != "run.completed"@ && !is_failure_event(effective_event(ev.event, ev.payload->0))),
        },
{
    match &ev.payload {
        None => Step::Skip,
        Some(p) => {
            let name = effective_event_name(&ev.event, p);
            if eq_lit(&name, "run.completed") {
                Step::Complete
            } else if eq_lit(&name, "run.failed") || eq_lit(&name, "run.interrupted") || eq_lit(
                &name,
                "run.cancelled",
            ) || eq_lit(&name, "run.stopped") {
                match json::get_str(p, "error") {
                    Some(e) => Step::Fail(e.clone()),
                    None => Step::Fail(name),
                }
            } else {
                Step::Skip
            }
        },
    }
}

/// Decides how a research run ended from its decoded events: the first
/// `run.completed` event gives the final answer (or a protocol error when it
/// carries none); otherwise the last failure event gives a run error;
/// otherwise the stream ended without a terminal event.
pub fn terminal_event(events: Vec<SseEvent>) -> (res: Result<CompletedRun, SearchError>)
    ensures
        match termination(events@, None) {
            Termination::Completed(t, p) => res matches Ok(run) && run.content@ == t
                && run.raw_event == p,
            Termination::Failed(e) => res matches Err(SearchError::HermesRun(m)) && m@ == e,
            Termination::CompletedWithoutText => res matches Err(SearchError::HermesProtocol(m))
                && m@ == "run.completed did not contain a final assistant response"@,
            Termination::Unterminated => res matches Err(SearchError::HermesProtocol(m)) && m@
                == "Hermes event stream ended without a terminal run event"@,
        },
{
    let ghost all = events@;
    let mut pending = events;
    let mut failure: Option<String> = None;
    let mut i: usize = 0;
    assert(all.subrange(0, all.len() as int) =~= all);
    while i < pending.len()
        invariant
            i <= pending@.len(),
            pending@ == all,
            all == events@,
            termination(all, None) == termination(
                all.subrange(i as int, all.len() as int),
                opt_view(failure),
            ),
        decreases pending.len() - i,
    {
        let ghost rest = all.subrange(i as int, all.len() as int);
        assert(rest.drop_first() =~= all.subrange(i + 1, all.len() as int));
        assert(rest[0] == pending@[i as int]);
        match classify(&pending[i]) {
            Step::Skip => {},
            Step::Fail(e) => {
                failure = Some(e);
            },
            Step::Complete => {
                let event = pending.swap_remove(i);
                assert(event == rest[0]);
                match event.payload {
                    Some(p) => {
                        assert(termination(rest, opt_view(failure)) == match final_text(p) {
                            Some(t) => Termination::Completed(t, p),
                            None => Termination::CompletedWithoutText,
                        });
                        match extract_final_text(&p) {
                            Some(content) => {
                                return Ok(CompletedRun { content, raw_event: p });
                            },
                            None => {
                                return Err(
                                    SearchError::HermesProtocol(
                                        String::from_str(
                                            "run.completed did not contain a final assistant response",
                                        ),
                                    ),
                                );
                            },
                        }
                    },
                    None => {
                        return Err(SearchError::HermesProtocol(String::new()));
                    },
                }
            },
        }
        i = i + 1;
    }
    match failure {
        Some(e) => Err(SearchError::HermesRun(e)),
        None => Err(
            SearchError::HermesProtocol(
                String::from_str("Hermes event stream ended without a terminal run event"),
            ),
        ),
    }
}

/// The message a failure event ends the run with: its `error` string,
/// else its name.
pub open spec fn failure_message(ev: SseEvent) -> Seq<char> {
    match json::as_str(json::get(ev.payload->0, "error"@)) {
        Some(e) => e,
        None => effective_event(ev.event, ev.payload->0),
    }
}

proof fn lemma_no_terminal_event(events: Seq<SseEvent>, failure: Option<Seq<char>>)
    requires
        forall|j: int|
            0 <= j < events.len() && (#[trigger] events[j]).payload is Some ==> {
                let n = effective_event(events[j].event, events[j].payload->0);
                n != "run.completed"@ && n != "run.failed"@ && n != "run.interrupted"@ && n != "run.cancelled"@
                    && n != "run.stopped"@
            },
    ensures
        termination(events, failure) == match failure {
            Some(e) => Termination::Failed(e),
            None => Termination::Unterminated,
        },
    decreases events.len(),
{
    if events.len() > 0 {
        let rest = events.drop_first();
        assert forall|j: int| 0 <= j < rest.len() && (#[trigger] rest[j]).payload is Some implies {
            let n = effective_event(rest[j].event, rest[j].payload->0);
            n != "run.completed"@ && n != "run.failed"@ && n != "run.interrupted"@ && n != "run.cancelled"@ && n
                != "run.stopped"@
        } by {
            assert(rest[j] == events[j + 1]);
        }
        assert(events[0] == events[0]);
        lemma_no_terminal_event(rest, failure);
    }
}

proof fn lemma_last_failure(events: Seq<SseEvent>, failure: Option<Seq<char>>, k: int)
    requires
        0 <= k < events.len(),
        events[k].payload is Some,
        ({
            let n = effective_event(events[k].event, events[k].payload->0);
            n == "run.failed"@ || n == "run.interrupted"@ || n == "run.cancelled"@ || n == "run.stopped"@
        }),
        forall|j: int|
            0 <= j < events.len() && (#[trigger] events[j]).payload is Some ==> effective_event(
                events[j].event,
                events[j].payload->0,
            ) != "run.completed"@,
        forall|j: int|
            k < j < events.len() && (#[trigger] events[j]).payload is Some ==> {
                let n = effective_event(events[j].event, events[j].payload->0);
                n != "run.failed"@ && n != "run.interrupted"@ && n != "run.cancelled"@ && n != "run.stopped"@
            },
    ensures
        termination(events, failure) == Termination::Failed(failure_message(events[k])),
    decreases k,
{
    reveal_strlit("run.completed");
    reveal_strlit("run.failed");
    reveal_strlit("run.interrupted");
    reveal_strlit("run.cancelled");
    reveal_strlit("run.stopped");
    let rest = events.drop_first();
    assert(events[0] == events[0]);
    if k == 0 {
        assert forall|j: int| 0 <= j < rest.len() && (#[trigger] rest[j]).payload is Some implies {
            let n = effective_event(rest[j].event, rest[j].payload->0);
            n != "run.completed"@ && n != "run.failed"@ && n != "run.interrupted"@ && n != "run.cancelled"@ && n
                != "run.stopped"@
        } by {
            assert(rest[j] == events[j + 1]);
        }
        lemma_no_terminal_event(rest, Some(failure_message(events[0])));
    } else {
        assert forall|j: int| 0 <= j < rest.len() && (#[trigger] rest[j]).payload is Some implies effective_event(
            rest[j].event,
            rest[j].payload->0,
        ) != "run.completed"@ by {
            assert(rest[j] == events[j + 1]);
        }
        assert forall|j: int| k - 1 < j < rest.len() && (#[trigger] rest[j]).payload is Some implies {
            let n = effective_event(rest[j].event, rest[j].payload->0);
            n != "run.failed"@ && n != "run.interrupted"@ && n != "run.cancelled"@ && n != "run.stopped"@
        } by {
            assert(rest[j] == events[j + 1]);
        }
        assert(rest[k - 1] == events[k]);
        match events[0].payload {
            None => {
                lemma_last_failure(rest, failure, k - 1);
            },
            Some(p) => {
                if is_failure_event(effective_event(events[0].event, p)) {
                    lemma_last_failure(rest, Some(failure_message(events[0])), k - 1);
                } else {
                    lemma_last_failure(rest, failure, k - 1);
                }
            },
        }
    }
}

/// A run that never completed ends with the error of its last failure
/// event: an event named `run.failed`, `run.interrupted`, `run.cancelled`
/// or `run.stopped` (by its `event:` line, else its payload's `event`)
/// makes the outcome that event's `error` string, or its name when it has
/// none, when no later event is such a failure and no event completes the
/// run.
pub proof fn law_failure_event_ends_run(events: Seq<SseEvent>, k: int)
    requires
        0 <= k < events.len(),
        events[k].payload is Some,
        ({
            let n = effective_event(events[k].event, events[k].payload->0);
            n == "run.failed"@ || n == "run.interrupted"@ || n == "run.cancelled"@ || n == "run.stopped"@
        }),
        forall|j: int|
            0 <= j < events.len() && (#[trigger] events[j]).payload is Some ==> effective_event(
                events[j].event,
                events[j].payload->0,
            ) != "run.completed"@,
        forall|j: int|
            k < j < events.len() && (#[trigger] events[j]).payload is Some ==> {
                let n = effective_event(events[j].event, events[j].payload->0);
                n != "run.failed"@ && n != "run.interrupted"@ && n != "run.cancelled"@ && n != "run.stopped"@
            },
    ensures
        termination(events, None) == Termination::Failed(
            match json::as_str(json::get(events[k].payload->0, "error"@)) {
                Some(e) => e,
                None => effective_event(events[k].event, events[k].payload->0),
            },
        ),
{
    lemma_last_failure(events, None, k);
}

proof fn lemma_first_completion(events: Seq<SseEvent>, failure: Option<Seq<char>>, k: int)
    requires
        0 <= k < events.len(),
        events[k].payload is Some,
        effective_event(events[k].event, events[k].payload->0) == "run.completed"@,
        forall|j: int|
            0 <= j < k && (#[trigger] events[j]).payload is Some ==> effective_event(
                events[j].event,
                events[j].payload->0,
            ) != "run.completed"@,
    ensures
        termination(events, failure) == match final_text(events[k].payload->0) {
            Some(t) => Termination::Completed(t, events[k].payload->0),
            None => Termination::CompletedWithoutText,
        },
    decreases k,
{
    let rest = events.drop_first();
    assert(events[0] == events[0]);
    if k > 0 {
        assert forall|j: int| 0 <= j < k - 1 && (#[trigger] rest[j]).payload is Some implies effective_event(
            rest[j].event,
            rest[j].payload->0,
        ) != "run.completed"@ by {
            assert(rest[j] == events[j + 1]);
        }
        assert(rest[k - 1] == events[k]);
        match events[0].payload {
            None => {
                lemma_first_completion(rest, failure, k - 1);
            },
            Some(p) => {
                if is_failure_event(effective_event(events[0].event, p)) {
                    lemma_first_completion(rest, Some(failure_message(events[0])), k - 1);
                } else {
                    lemma_first_completion(rest, failure, k - 1);
                }
            },
        }
    }
}

/// The first event named `run.completed` decides the run, whatever failure
/// events came before it: the run's answer is that event's final text, or
/// the run completed without one.
pub proof fn law_first_completion_decides(events: Seq<SseEvent>, k: int)
    requires
        0 <= k < events.len(),
        events[k].payload is Some,
        effective_event(events[k].event, events[k].payload->0) == "run.completed"@,
        forall|j: int|
            0 <= j < k && (#[trigger] events[j]).payload is Some ==> effective_event(
                events[j].event,
                events[j].payload->0,
            ) != "run.completed"@,
    ensures
        termination(events, None) == match final_text(events[k].payload->0) {
            Some(t) => Termination::Completed(t, events[k].payload->0),
            None => Termination::CompletedWithoutText,
        },
{
    lemma_first_completion(events, None, k);
}

/// A stream none of whose events completes or fails the run ends without a
/// terminal event.
pub proof fn law_stream_without_terminal_event(events: Seq<SseEvent>)
    requires
        forall|j: int|
            0 <= j < events.len() && (#[trigger] events[j]).payload is Some ==> {
                let n = effective_event(events[j].event, events[j].payload->0);
                n != "run.completed"@ && n != "run.failed"@ && n != "run.interrupted"@ && n != "run.cancelled"@
                    && n != "run.stopped"@
            },
    ensures
        termination(events, None) == Termination::Unterminated,
{
    lemma_no_terminal_event(events, None);
}
/// `x`, one of `parts`, is found in `parts` joined with `sep`.
pub proof fn lemma_join_contains(parts: Seq<Seq<char>>, sep: Seq<char>, i: int)
    requires
        0 <= i < parts.len(),
    ensures
        text::contains(join(parts, sep), parts[i]),
    decreases parts.len(),
{
    let j = join(parts, sep);
    text::lemma_find_from(j, parts[i], 0);
    if parts.len() == 1 {
        assert(j.subrange(0, parts[0].len() as int) =~= parts[0]);
        assert(text::occurs_at(j, parts[i], 0));
    } else {
        let pre = join(parts.drop_last(), sep);
        assert(j =~= pre + (sep + parts.last()));
        if i == parts.len() - 1 {
            let at: int = (pre.len() + sep.len()) as int;
            assert(j.subrange(at, at + parts[i].len()) =~= parts[i]);
            assert(text::occurs_at(j, parts[i], at));
        } else {
            assert(parts.drop_last()[i] == parts[i]);
            lemma_join_contains(parts.drop_last(), sep, i);
            text::lemma_find_none(pre, parts[i]);
            let at = text::find(pre, parts[i])->0;
            text::lemma_occurs_left(pre, sep + parts.last(), parts[i], at);
            assert(text::occurs_at(j, parts[i], at));
        }
    }
}

/// One of `names` is found in a message that lists them after `prefix`.
proof fn lemma_listed(prefix: Seq<char>, names: Seq<Seq<char>>, w: int)
    requires
        0 <= w < names.len(),
    ensures
        text::contains(prefix + join(names, ", "@), names[w]),
{
    let jn = join(names, ", "@);
    let msg = prefix + jn;
    lemma_join_contains(names, ", "@, w);
    text::lemma_find_none(jn, names[w]);
    let at = text::find(jn, names[w])->0;
    text::lemma_occurs_right(prefix, jn, names[w], at + prefix.len());
    assert(text::occurs_at(msg, names[w], at + prefix.len()));
    text::lemma_find_from(msg, names[w], 0);
}

/// A server is accepted exactly when it can submit runs, stream their
/// events and stop them; the refusal names each missing capability.
pub proof fn law_research_capabilities(c: HermesCapabilities)
    ensures
        (missing_capabilities(c).len() == 0) <==> (c.run_submission && c.run_events_sse && c.run_stop),
        missing_capabilities(c).contains("run_submission"@) <==> !c.run_submission,
        missing_capabilities(c).contains("run_events_sse"@) <==> !c.run_events_sse,
        missing_capabilities(c).contains("run_stop"@) <==> !c.run_stop,
        !c.run_submission ==> text::contains(
            "Hermes is missing required capabilities: "@ + join(missing_capabilities(c), ", "@),
            "run_submission"@,
        ),
        !c.run_events_sse ==> text::contains(
            "Hermes is missing required capabilities: "@ + join(missing_capabilities(c), ", "@),
            "run_events_sse"@,
        ),
        !c.run_stop ==> text::contains(
            "Hermes is missing required capabilities: "@ + join(missing_capabilities(c), ", "@),
            "run_stop"@,
        ),
{
    reveal_strlit("run_submission");
    reveal_strlit("run_events_sse");
    reveal_strlit("run_stop");
    let m = missing_capabilities(c);
    let sub = "run_submission"@;
    let sse = "run_events_sse"@;
    let stop = "run_stop"@;
    assert(sub != sse) by {
        assert(sub[4] != sse[4]);
    }
    assert(sub.len() != stop.len() && sse.len() != stop.len());
    assert forall|x: Seq<char>| #[trigger] m.contains(x) implies x == sub || x == sse || x == stop by {
        let w = choose|w: int| 0 <= w < m.len() && m[w] == x;
    }
    let prefix = "Hermes is missing required capabilities: "@;
    if !c.run_submission {
        assert(m[0] == sub);
        lemma_listed(prefix, m, 0);
    }
    if !c.run_events_sse {
        let w: int = if c.run_submission { 0 } else { 1 };
        assert(m[w] == sse);
        lemma_listed(prefix, m, w);
    }
    if !c.run_stop {
        let w: int = m.len() - 1;
        assert(m[w] == stop);
        lemma_listed(prefix, m, w);
    }
}
} // verus!
