//! Protocol-aware message interceptor for the upstream-to-client relay
//! direction: script-URL shortening and the script-source dump protocol
//! with its pending-request bookkeeping and response suppression.

use vstd::prelude::*;

use crate::text::{
    contains_sub, ends_with_lit, find_sub, spec_contains, spec_find, spec_is_digit, spec_replace,
    starts_with_lit, str_eq,
};
use crate::Category;

verus! {

/// First position at or after `i` whose character is not a colon.
pub open spec fn spec_colon_run_end(s: Seq<char>, i: int) -> int
    decreases s.len() - i + 1,
{
    if 0 <= i < s.len() && s[i] == ':' {
        spec_colon_run_end(s, i + 1)
    } else {
        i
    }
}

/// The colon run end is pinned by its bounds: colons before it, and
/// either the end of the text or a non-colon at it.
proof fn lemma_colon_run_end_eq(s: Seq<char>, i: int, k: int)
    requires
        0 <= i <= k <= s.len(),
        forall|j: int| i <= j < k ==> s[j] == ':',
        k == s.len() || s[k] != ':',
    ensures
        spec_colon_run_end(s, i) == k,
    decreases k - i,
{
    if i < k {
        lemma_colon_run_end_eq(s, i + 1, k);
    }
}

/// Whether `b` is a device-runtime identifier: the fixed prefix
/// followed by nothing but ASCII digits.
pub open spec fn spec_rt_identifier(b: Seq<char>) -> bool {
    &&& "HMI_RT_"@.is_prefix_of(b)
    &&& forall|j: int| "HMI_RT_"@.len() <= j < b.len() ==> spec_is_digit(#[trigger] b[j])
}

/// The shortened form of a script path: strip an optional leading
/// slash, demand the screen-content module prefix, drop a
/// device-runtime identifier up to and including its colons, and
/// collapse every faceplate-module segment. Nothing when the required
/// prefix is absent.
pub open spec fn spec_shorten(url: Seq<char>) -> Option<Seq<char>> {
    let u = if url.len() > 0 && url[0] == '/' {
        url.skip(1)
    } else {
        url
    };
    if !"screen_modules/Screen_Content/"@.is_prefix_of(u) {
        Option::None
    } else {
        let rest = u.skip("screen_modules/Screen_Content/"@.len() as int);
        let trimmed = match spec_find(rest, ":"@) {
            Option::Some(ci) => if spec_rt_identifier(rest.subrange(0, ci)) {
                rest.skip(spec_colon_run_end(rest, ci))
            } else {
                rest
            },
            Option::None => rest,
        };
        Option::Some(spec_replace(trimmed, "/faceplate_modules/"@, "/"@))
    }
}

/// Tests whether the text before the first colon is a device-runtime
/// identifier.
fn rt_identifier_check(rest: &str, ci: usize) -> (r: bool)
    requires
        ci <= rest@.len(),
    ensures
        r == spec_rt_identifier(rest@.subrange(0, ci as int)),
{
    proof {
        reveal_strlit("HMI_RT_");
    }
    let plen: usize = "HMI_RT_".unicode_len();
    if ci < plen {
        proof {
            assert(!"HMI_RT_"@.is_prefix_of(rest@.subrange(0, ci as int)));
        }
        return false;
    }
    if !crate::text::match_at(rest, "HMI_RT_", 0) {
        proof {
            if "HMI_RT_"@.is_prefix_of(rest@.subrange(0, ci as int)) {
                assert(crate::text::spec_match_at(rest@, "HMI_RT_"@, 0)) by {
                    assert(rest@.subrange(0, plen as int) =~= rest@.subrange(
                        0,
                        ci as int,
                    ).subrange(0, plen as int));
                }
            }
        }
        return false;
    }
    let mut j: usize = plen;
    while j < ci
        invariant
            plen == "HMI_RT_"@.len(),
            plen <= j <= ci <= rest@.len(),
            forall|k: int| plen <= k < j ==> spec_is_digit(#[trigger] rest@[k]),
        decreases ci - j,
    {
        let c = rest.get_char(j);
        let u: u32 = c as u32;
        if !(48 <= u && u <= 57) {
            proof {
                assert(rest@.subrange(0, ci as int)[j as int] == rest@[j as int]);
                assert(!spec_is_digit(rest@.subrange(0, ci as int)[j as int]));
            }
            return false;
        }
        j += 1;
    }
    proof {
        assert("HMI_RT_"@.is_prefix_of(rest@.subrange(0, ci as int))) by {
            assert(rest@.subrange(0, ci as int).subrange(0, plen as int) =~= rest@.subrange(
                0,
                plen as int,
            ));
        }
        assert forall|k: int|
            plen <= k < ci implies spec_is_digit(#[trigger] rest@.subrange(0, ci as int)[k]) by {
            assert(rest@.subrange(0, ci as int)[k] == rest@[k]);
        }
    }
    true
}

/// Shortens a script path by stripping the screen-content module
/// prefix, a device-runtime identifier with its colons, and every
/// faceplate-module segment. An input without the required prefix is
/// left alone: nothing is returned and the caller forwards the
/// original.
pub fn shorten_script_url(url: &str) -> (r: Option<String>)
    ensures
        match r {
            Option::Some(s) => spec_shorten(url@) == Option::Some(s@),
            Option::None => spec_shorten(url@) is None,
        },
{
    let n: usize = url.unicode_len();
    let u: &str = if n > 0 && url.get_char(0) == '/' {
        let tail = url.substring_char(1, n);
        proof {
            assert(tail@ =~= url@.skip(1));
        }
        tail
    } else {
        url
    };
    if !starts_with_lit(u, "screen_modules/Screen_Content/") {
        return None;
    }
    let plen: usize = "screen_modules/Screen_Content/".unicode_len();
    let ulen: usize = u.unicode_len();
    let rest = u.substring_char(plen, ulen);
    proof {
        assert(rest@ =~= u@.skip(plen as int));
    }
    let rlen: usize = rest.unicode_len();
    let trimmed: &str = match find_sub(rest, ":") {
        Option::Some(ci) => {
            proof {
                crate::text::lemma_find_from_props(rest@, ":"@, 0);
            }
            if rt_identifier_check(rest, ci) {
                let mut k: usize = ci;
                while k < rlen && rest.get_char(k) == ':'
                    invariant
                        rlen == rest@.len(),
                        ci <= k <= rlen,
                        forall|j: int| ci <= j < k ==> rest@[j] == ':',
                    decreases rlen - k,
                {
                    k += 1;
                }
                proof {
                    lemma_colon_run_end_eq(rest@, ci as int, k as int);
                }
                let t = rest.substring_char(k, rlen);
                proof {
                    assert(t@ =~= rest@.skip(k as int));
                }
                t
            } else {
                rest
            }
        },
        Option::None => rest,
    };
    proof {
        reveal_strlit("/faceplate_modules/");
        assert("/faceplate_modules/"@.len() > 0);
    }
    Some(crate::text::replace_all(trimmed, "/faceplate_modules/", "/"))
}

/// A character as it may appear in a dumped file's name: the characters
/// a filesystem refuses become underscores.
pub open spec fn spec_sanitize_char(c: char) -> char {
    if c == ':' || c == '*' || c == '?' || c == '"' || c == '<' || c == '>' || c == '|' {
        '_'
    } else {
        c
    }
}

/// A script URL as a filesystem-safe relative path.
pub open spec fn spec_sanitized(s: Seq<char>) -> Seq<char> {
    Seq::new(s.len(), |i: int| spec_sanitize_char(s[i]))
}

/// Replaces the characters a filesystem refuses by underscores.
pub fn sanitize_url(s: &str) -> (r: String)
    ensures
        r@ == spec_sanitized(s@),
{
    proof {
        reveal_strlit("_");
    }
    let n: usize = s.unicode_len();
    let mut out: String = String::new();
    let mut i: usize = 0;
    while i < n
        invariant
            n == s@.len(),
            0 <= i <= n,
            "_"@ =~= seq!['_'],
            out@ =~= spec_sanitized(s@).take(i as int),
        decreases n - i,
    {
        let c = s.get_char(i);
        if c == ':' || c == '*' || c == '?' || c == '"' || c == '<' || c == '>' || c == '|' {
            out.append("_");
        } else {
            let piece = s.substring_char(i, i + 1);
            proof {
                assert(piece@ =~= seq![s@[i as int]]);
            }
            out.append(piece);
        }
        proof {
            assert(out@ =~= spec_sanitized(s@).take(i + 1));
        }
        i += 1;
    }
    proof {
        assert(spec_sanitized(s@).take(n as int) =~= spec_sanitized(s@));
    }
    out
}

/// The directory name a category's dumped scripts live under.
pub open spec fn spec_category_dir(c: Category) -> Seq<char> {
    match c {
        Category::Dynamics => "Dynamics"@,
        Category::Events => "Events"@,
    }
}

/// Where a script with the given URL is dumped: the category's
/// subdirectory of the dump directory, with the URL made
/// filesystem-safe.
pub open spec fn spec_dump_path(dir: Seq<char>, c: Category, url: Seq<char>) -> Seq<char> {
    dir + "/"@ + spec_category_dir(c) + "/"@ + spec_sanitized(url)
}

/// Builds the file path a script with the given URL is dumped to.
pub fn build_dump_path(dir: &str, category: Category, url: &str) -> (r: String)
    ensures
        r@ == spec_dump_path(dir@, category, url@),
{
    let mut out: String = dir.to_owned();
    out.append("/");
    match category {
        Category::Dynamics => out.append("Dynamics"),
        Category::Events => out.append("Events"),
    }
    out.append("/");
    let safe = sanitize_url(url);
    out.append(safe.as_str());
    out
}

/// The protocol fields the interceptor inspects in one frame: the
/// notification method, the script URL and id it announces, a
/// response's numeric id, and a returned script source.
pub struct FrameFields {
    pub method: Option<String>,
    pub url: Option<String>,
    pub script_id: Option<String>,
    pub id: Option<u64>,
    pub script_source: Option<String>,
}

/// The inspected fields of a frame, or nothing when the text is not a
/// JSON document.
pub uninterp spec fn frame_fields_of(text: Seq<char>) -> Option<FrameFields>;

/// Relies on serde_json::from_str and the Value accessors get, as_str
/// and as_u64: the inspected protocol fields depend on the frame text
/// alone, and non-JSON text yields nothing.
#[verifier::external_body]
fn parse_frame_fields(text: &str) -> (r: Option<FrameFields>)
    ensures
        r == frame_fields_of(text@),
{
    let v: serde_json::Value = match serde_json::from_str(text) {
        Ok(v) => v,
        Err(_) => return None,
    };
    let p = v.get("params");
    let s = |x: Option<&serde_json::Value>| x.and_then(|y| y.as_str()).map(String::from);
    Some(FrameFields {
        method: s(v.get("method")),
        url: s(p.and_then(|x| x.get("url"))),
        script_id: s(p.and_then(|x| x.get("scriptId"))),
        id: v.get("id").and_then(|i| i.as_u64()),
        script_source: s(v.get("result").and_then(|x| x.get("scriptSource"))),
    })
}

/// The rendering of the frame `text` with its script URL replaced by
/// `url`; text that cannot be reshaped comes back unchanged.
pub uninterp spec fn rewritten_of(text: Seq<char>, url: Seq<char>) -> Seq<char>;

/// Relies on serde_json::from_str, Value::get_mut, Map::insert and
/// serde_json::to_string: re-renders the frame with `params.url`
/// replaced; a frame it cannot reshape comes back unchanged. The
/// result depends on the inputs alone.
#[verifier::external_body]
fn rewrite_script_url(text: &str, new_url: &str) -> (r: String)
    ensures
        r@ == rewritten_of(text@, new_url@),
{
    let mut parsed: serde_json::Value = match serde_json::from_str(text) {
        Ok(v) => v,
        Err(_) => return text.to_string(),
    };
    match parsed.get_mut("params").and_then(|p| p.as_object_mut()) {
        Some(obj) => {
            obj.insert("url".to_string(), serde_json::Value::String(new_url.to_string()));
        },
        None => return text.to_string(),
    }
    serde_json::to_string(&parsed).unwrap_or_else(|_| text.to_string())
}

/// The rendering of a synthetic script-source request with the given
/// id for the given script.
pub uninterp spec fn source_request_of(id: u64, script_id: Seq<char>) -> Seq<char>;

/// Relies on serde_json's Map construction and Value serialization:
/// renders a script-source request carrying the synthetic id; the
/// result depends on the id and the script id alone.
#[verifier::external_body]
fn build_source_request(id: u64, script_id: &str) -> (r: String)
    ensures
        r@ == source_request_of(id, script_id@),
{
    let mut params = serde_json::Map::new();
    params.insert("scriptId".to_string(), serde_json::Value::String(script_id.to_string()));
    let mut msg = serde_json::Map::new();
    msg.insert("id".to_string(), serde_json::Value::from(id));
    msg.insert("method".to_string(), serde_json::Value::String("Debugger.getScriptSource".to_string()));
    msg.insert("params".to_string(), serde_json::Value::Object(params));
    serde_json::Value::Object(msg).to_string()
}

/// Whether the frame is a script-parsed notification.
pub open spec fn spec_is_script_parsed(ff: Option<FrameFields>) -> bool {
    match ff {
        Option::Some(f) => match f.method {
            Option::Some(m) => m@ == "Debugger.scriptParsed"@,
            Option::None => false,
        },
        Option::None => false,
    }
}

/// The announced script URL; a missing or non-string field counts as
/// empty.
pub open spec fn spec_frame_url(ff: Option<FrameFields>) -> Seq<char> {
    match ff {
        Option::Some(f) => match f.url {
            Option::Some(u) => u@,
            Option::None => Seq::empty(),
        },
        Option::None => Seq::empty(),
    }
}

/// The announced script id; a missing or non-string field counts as
/// empty.
pub open spec fn spec_frame_script_id(ff: Option<FrameFields>) -> Seq<char> {
    match ff {
        Option::Some(f) => match f.script_id {
            Option::Some(s) => s@,
            Option::None => Seq::empty(),
        },
        Option::None => Seq::empty(),
    }
}

/// The frame's numeric response id, if any.
pub open spec fn spec_frame_id(ff: Option<FrameFields>) -> Option<u64> {
    match ff {
        Option::Some(f) => f.id,
        Option::None => Option::None,
    }
}

/// The returned script source, if any.
pub open spec fn spec_frame_source(ff: Option<FrameFields>) -> Option<Seq<char>> {
    match ff {
        Option::Some(f) => f.script_source.deep_view(),
        Option::None => Option::None,
    }
}

/// Index of the first pending entry with the given id.
pub open spec fn spec_pending_find(p: Seq<(u64, Seq<char>)>, id: u64) -> Option<int>
    decreases p.len(),
{
    if p.len() == 0 {
        Option::None
    } else if p[0].0 == id {
        Option::Some(0)
    } else {
        match spec_pending_find(p.drop_first(), id) {
            Option::Some(k) => Option::Some(k + 1),
            Option::None => Option::None,
        }
    }
}

/// What a pending lookup returns: the first entry carrying the id, or
/// nothing when no entry carries it.
pub proof fn lemma_pending_find_props(p: Seq<(u64, Seq<char>)>, id: u64)
    ensures
        match spec_pending_find(p, id) {
            Option::Some(k) => {
                &&& 0 <= k < p.len()
                &&& (#[trigger] p[k]).0 == id
                &&& forall|j: int| 0 <= j < k ==> (#[trigger] p[j]).0 != id
            },
            Option::None => forall|j: int| 0 <= j < p.len() ==> (#[trigger] p[j]).0 != id,
        },
    decreases p.len(),
{
    if p.len() > 0 && p[0].0 != id {
        lemma_pending_find_props(p.drop_first(), id);
        match spec_pending_find(p.drop_first(), id) {
            Option::Some(k0) => {
                assert(p[k0 + 1] == p.drop_first()[k0]);
                assert forall|j: int| 0 <= j < k0 + 1 implies (#[trigger] p[j]).0 != id by {
                    if j >= 1 {
                        assert(p.drop_first()[j - 1] == p[j]);
                    }
                }
            },
            Option::None => {
                assert forall|j: int| 0 <= j < p.len() implies (#[trigger] p[j]).0 != id by {
                    if j >= 1 {
                        assert(p.drop_first()[j - 1] == p[j]);
                    }
                }
            },
        }
    }
}

/// What relaying one upstream text frame produces: a synthetic request
/// to send upstream, a script to write to disk, and the text to hand
/// to the client — absent when the frame is suppressed.
#[derive(Debug)]
pub struct FrameOutcome {
    pub send_upstream: Option<String>,
    pub dump: Option<(String, String)>,
    pub forward: Option<String>,
}

/// Mathematical model of a frame outcome.
pub struct OutcomeData {
    pub send_upstream: Option<Seq<char>>,
    pub dump: Option<(Seq<char>, Seq<char>)>,
    pub forward: Option<Seq<char>>,
}

impl View for FrameOutcome {
    type V = OutcomeData;

    open spec fn view(&self) -> OutcomeData {
        OutcomeData {
            send_upstream: self.send_upstream.deep_view(),
            dump: self.dump.deep_view(),
            forward: self.forward.deep_view(),
        }
    }
}

/// Per-session interceptor state: configuration snapshot, the next
/// synthetic request id, the pending id-to-path mapping, and how many
/// scripts were dumped.
pub struct Interceptor {
    pub long_paths: bool,
    pub dump_dir: Option<String>,
    pub category: Category,
    pub next_request_id: u64,
    pub pending: Vec<(u64, String)>,
    pub dump_count: u64,
}

/// Mathematical model of the interceptor state.
pub struct InterceptorData {
    pub long_paths: bool,
    pub dump_dir: Option<Seq<char>>,
    pub category: Category,
    pub next_request_id: u64,
    pub pending: Seq<(u64, Seq<char>)>,
    pub dump_count: u64,
}

impl View for Interceptor {
    type V = InterceptorData;

    open spec fn view(&self) -> InterceptorData {
        InterceptorData {
            long_paths: self.long_paths,
            dump_dir: self.dump_dir.deep_view(),
            category: self.category,
            next_request_id: self.next_request_id,
            pending: self.pending.deep_view(),
            dump_count: self.dump_count,
        }
    }
}

/// Every pending id was allocated below the next id, and no id is
/// pending twice.
pub open spec fn spec_pending_wf(p: Seq<(u64, Seq<char>)>, next: u64) -> bool {
    &&& forall|i: int| 0 <= i < p.len() ==> (#[trigger] p[i]).0 < next
    &&& forall|i: int, j: int|
        0 <= i < j < p.len() ==> (#[trigger] p[i]).0 != (#[trigger] p[j]).0
}

/// The base the synthetic request ids start from, far above anything a
/// debugger client allocates for itself.
pub open spec fn spec_request_id_base() -> u64 {
    900_000
}

/// Whether the frame triggers a synthetic source request: a
/// script-parsed notification, dumping configured, a non-empty URL
/// that is no synthetic evaluation placeholder, and ids remaining.
pub open spec fn spec_wants_dump(pre: InterceptorData, ff: Option<FrameFields>) -> bool {
    let url = spec_frame_url(ff);
    &&& spec_is_script_parsed(ff)
    &&& pre.dump_dir is Some
    &&& url.len() > 0
    &&& !("eval-"@.is_prefix_of(url) && ".cdp"@.is_suffix_of(url))
    &&& pre.next_request_id < 0xffff_ffff_ffff_ffffu64
}

/// State after the allocation pass: when a source request is owed, the
/// fresh id and the script's dump path join the pending map.
pub open spec fn spec_after_alloc(pre: InterceptorData, ff: Option<FrameFields>) -> InterceptorData {
    if spec_wants_dump(pre, ff) {
        InterceptorData {
            long_paths: pre.long_paths,
            dump_dir: pre.dump_dir,
            category: pre.category,
            next_request_id: (pre.next_request_id + 1) as u64,
            pending: pre.pending.push(
                (
                    pre.next_request_id,
                    spec_dump_path(pre.dump_dir->0, pre.category, spec_frame_url(ff)),
                ),
            ),
            dump_count: pre.dump_count,
        }
    } else {
        pre
    }
}

/// What a frame that is not suppressed is forwarded as: a script-parsed
/// notification whose URL shortens — and whose raw text carries the
/// fast-path marker — is re-rendered with the short URL, everything
/// else goes out verbatim.
pub open spec fn spec_forward_text(
    long_paths: bool,
    is_script_parsed: bool,
    url: Seq<char>,
    text: Seq<char>,
) -> Seq<char> {
    if is_script_parsed && !long_paths && spec_contains(text, "scriptParsed"@) && spec_shorten(url)
        is Some {
        rewritten_of(text, spec_shorten(url)->0)
    } else {
        text
    }
}

/// The interceptor as a function of its state and one upstream text
/// frame, in two composable passes.
///
/// The allocation pass: a script-parsed notification may allocate a
/// synthetic request for the announced script's source (when dumping
/// is configured, the URL is non-empty and not a synthetic evaluation
/// placeholder, and ids remain).
///
/// The suppression pass, applied to every frame over the allocation
/// pass's state: a frame whose numeric id matches a pending request is
/// consumed — its source, if present, is written to the recorded path,
/// and nothing is forwarded. Any other frame is forwarded, rewritten
/// to the shortened URL when shortening applies.
pub open spec fn spec_intercept(pre: InterceptorData, text: Seq<char>) -> (InterceptorData,
OutcomeData) {
    let ff = frame_fields_of(text);
    let mid = spec_after_alloc(pre, ff);
    let send = if spec_wants_dump(pre, ff) {
        Option::Some(source_request_of(pre.next_request_id, spec_frame_script_id(ff)))
    } else {
        Option::None
    };
    match spec_frame_id(ff) {
        Option::Some(id) => {
            if mid.dump_dir is Some && spec_pending_find(mid.pending, id) is Some {
                let k = spec_pending_find(mid.pending, id)->0;
                let path = mid.pending[k].1;
                let drained = InterceptorData {
                    long_paths: mid.long_paths,
                    dump_dir: mid.dump_dir,
                    category: mid.category,
                    next_request_id: mid.next_request_id,
                    pending: mid.pending.remove(k),
                    dump_count: mid.dump_count,
                };
                match spec_frame_source(ff) {
                    Option::Some(src) => (
                        InterceptorData {
                            long_paths: drained.long_paths,
                            dump_dir: drained.dump_dir,
                            category: drained.category,
                            next_request_id: drained.next_request_id,
                            pending: drained.pending,
                            dump_count: if drained.dump_count < 0xffff_ffff_ffff_ffffu64 {
                                (drained.dump_count + 1) as u64
                            } else {
                                drained.dump_count
                            },
                        },
                        OutcomeData {
                            send_upstream: send,
                            dump: Option::Some((path, src)),
                            forward: Option::None,
                        },
                    ),
                    Option::None => (
                        drained,
                        OutcomeData {
                            send_upstream: send,
                            dump: Option::None,
                            forward: Option::None,
                        },
                    ),
                }
            } else {
                (
                    mid,
                    OutcomeData {
                        send_upstream: send,
                        dump: Option::None,
                        forward: Option::Some(
                            spec_forward_text(
                                pre.long_paths,
                                spec_is_script_parsed(ff),
                                spec_frame_url(ff),
                                text,
                            ),
                        ),
                    },
                )
            }
        },
        Option::None => (
            mid,
            OutcomeData {
                send_upstream: send,
                dump: Option::None,
                forward: Option::Some(
                    spec_forward_text(
                        pre.long_paths,
                        spec_is_script_parsed(ff),
                        spec_frame_url(ff),
                        text,
                    ),
                ),
            },
        ),
    }
}

impl Interceptor {
    /// Well-formedness: the pending map is consistent with the id
    /// allocator.
    pub open spec fn wf(self) -> bool {
        spec_pending_wf(self@.pending, self@.next_request_id)
    }

    /// A fresh interceptor for one relay session: no pending requests,
    /// no dumps yet, ids starting at the fixed high base.
    pub fn new(long_paths: bool, dump_dir: Option<String>, category: Category) -> (r: Self)
        ensures
            r@ == (InterceptorData {
                long_paths: long_paths,
                dump_dir: dump_dir.deep_view(),
                category: category,
                next_request_id: spec_request_id_base(),
                pending: Seq::empty(),
                dump_count: 0,
            }),
            r.wf(),
    {
        let r = Interceptor {
            long_paths,
            dump_dir,
            category,
            next_request_id: 900_000,
            pending: Vec::new(),
            dump_count: 0,
        };
        proof {
            assert(r@.pending =~= Seq::<(u64, Seq<char>)>::empty());
        }
        r
    }

    /// Index of the first pending entry carrying `id`, if any.
    fn find_pending(&self, id: u64) -> (r: Option<usize>)
        ensures
            match r {
                Option::Some(k) => spec_pending_find(self@.pending, id) == Option::Some(k as int),
                Option::None => spec_pending_find(self@.pending, id) is None,
            },
    {
        let ghost p: Seq<(u64, Seq<char>)> = self@.pending;
        proof {
            lemma_pending_find_props(p, id);
        }
        let mut i: usize = 0;
        while i < self.pending.len()
            invariant
                p == self@.pending,
                p.len() == self.pending@.len(),
                0 <= i <= p.len(),
                forall|j: int| 0 <= j < i ==> (#[trigger] p[j]).0 != id,
            decreases p.len() - i,
        {
            if self.pending[i].0 == id {
                proof {
                    lemma_pending_find_props(p, id);
                    assert(p[i as int].0 == id);
                    match spec_pending_find(p, id) {
                        Option::Some(k) => {
                            if k < i as int {
                                assert(p[k].0 == id);
                            } else if k > i as int {
                                assert(p[i as int].0 != id);
                            }
                        },
                        Option::None => {
                            assert(p[i as int].0 != id);
                        },
                    }
                }
                return Some(i);
            }
            i += 1;
        }
        proof {
            lemma_pending_find_props(p, id);
            if spec_pending_find(p, id) is Some {
                let k = spec_pending_find(p, id)->0;
                assert(p[k].0 != id);
            }
        }
        None
    }

    /// What an unsuppressed frame becomes on the client-facing side:
    /// rewritten to the shortened URL when shortening applies,
    /// verbatim otherwise.
    fn forward_outcome(&self, text: &str, is_script_parsed: bool, url: &str, send: Option<String>)
        -> (r: FrameOutcome)
        ensures
            r@ == (OutcomeData {
                send_upstream: send.deep_view(),
                dump: Option::None,
                forward: Option::Some(
                    spec_forward_text(self.long_paths, is_script_parsed, url@, text@),
                ),
            }),
    {
        let forward_text: String = if is_script_parsed && !self.long_paths && contains_sub(
            text,
            "scriptParsed",
        ) {
            match shorten_script_url(url) {
                Option::Some(short) => rewrite_script_url(text, short.as_str()),
                Option::None => text.to_owned(),
            }
        } else {
            text.to_owned()
        };
        FrameOutcome { send_upstream: send, dump: None, forward: Some(forward_text) }
    }

    /// Digests one upstream text frame, updating the session state and
    /// returning what to send upstream, what to write to disk, and
    /// what — if anything — to forward to the client. The suppression
    /// pass runs on every frame, after the allocation pass, so even a
    /// script-parsed notification carrying a pending id is consumed.
    pub fn handle_upstream_text(&mut self, text: &str) -> (r: FrameOutcome)
        requires
            old(self).wf(),
        ensures
            final(self).wf(),
            final(self)@ == spec_intercept(old(self)@, text@).0,
            r@ == spec_intercept(old(self)@, text@).1,
    {
        let ghost pre: InterceptorData = self@;
        let ghost ff: Option<FrameFields> = frame_fields_of(text@);
        let fields_opt = parse_frame_fields(text);

        // The inspected fields as owned values, absent ones as empty.
        let mut is_script_parsed: bool = false;
        let mut url: String = String::new();
        let mut script_id: String = String::new();
        let mut frame_id: Option<u64> = None;
        let mut source: Option<String> = None;
        match fields_opt {
            Option::Some(f) => {
                is_script_parsed = match &f.method {
                    Option::Some(m) => str_eq(m.as_str(), "Debugger.scriptParsed"),
                    Option::None => false,
                };
                url = match f.url {
                    Option::Some(u) => u,
                    Option::None => String::new(),
                };
                script_id = match f.script_id {
                    Option::Some(s) => s,
                    Option::None => String::new(),
                };
                frame_id = f.id;
                source = f.script_source;
            },
            Option::None => {},
        }
        proof {
            assert(is_script_parsed == spec_is_script_parsed(ff));
            assert(url@ == spec_frame_url(ff));
            assert(script_id@ == spec_frame_script_id(ff));
            assert(frame_id == spec_frame_id(ff));
            assert(source.deep_view() == spec_frame_source(ff));
        }

        // Allocation pass: a script-parsed notification may earn a
        // synthetic source request and a pending entry.
        let mut send: Option<String> = None;
        let wants_dump: bool = is_script_parsed && (match &self.dump_dir {
            Option::Some(_) => {
                url.unicode_len() > 0 && !(starts_with_lit(url.as_str(), "eval-")
                    && ends_with_lit(url.as_str(), ".cdp")) && self.next_request_id
                    < 0xffff_ffff_ffff_ffffu64
            },
            Option::None => false,
        });
        proof {
            assert(wants_dump == spec_wants_dump(pre, ff));
        }
        if wants_dump {
            let path: String = match &self.dump_dir {
                Option::Some(dir) => build_dump_path(dir.as_str(), self.category, url.as_str()),
                Option::None => String::new(),
            };
            send = Some(build_source_request(self.next_request_id, script_id.as_str()));
            self.pending.push((self.next_request_id, path));
            self.next_request_id = self.next_request_id + 1;
            proof {
                assert(self@.pending =~= spec_after_alloc(pre, ff).pending);
                assert forall|i: int|
                    0 <= i < self@.pending.len() implies (#[trigger] self@.pending[i]).0
                    < self@.next_request_id by {}
                assert forall|i: int, j: int|
                    0 <= i < j < self@.pending.len() implies (#[trigger] self@.pending[i]).0 != (
                    #[trigger] self@.pending[j]).0 by {
                    if j < pre.pending.len() {
                        assert(self@.pending[i] == pre.pending[i]);
                        assert(self@.pending[j] == pre.pending[j]);
                    } else {
                        assert(self@.pending[i] == pre.pending[i]);
                        assert(self@.pending[j].0 == pre.next_request_id);
                    }
                }
            }
        }
        let ghost mid: InterceptorData = self@;
        proof {
            assert(mid == spec_after_alloc(pre, ff));
            assert(spec_pending_wf(mid.pending, mid.next_request_id));
        }

        // Suppression pass, on every frame: a pending id is consumed
        // and its frame hidden from the client.
        match frame_id {
            Option::Some(id) => {
                if self.dump_dir.is_some() {
                    match self.find_pending(id) {
                        Option::Some(k) => {
                            proof {
                                lemma_pending_find_props(mid.pending, id);
                                assert(mid.pending.len() == self.pending@.len());
                                assert((k as int) < mid.pending.len());
                            }
                            let entry = self.pending.remove(k);
                            proof {
                                assert(self@.pending =~= mid.pending.remove(k as int));
                                assert(entry.1@ == mid.pending[k as int].1);
                                assert forall|i: int, j: int|
                                    0 <= i < j < self@.pending.len() implies (
                                    #[trigger] self@.pending[i]).0 != (
                                    #[trigger] self@.pending[j]).0 by {
                                    if j < k as int {
                                        assert(self@.pending[i] == mid.pending[i]);
                                        assert(self@.pending[j] == mid.pending[j]);
                                    } else if i < k as int {
                                        assert(self@.pending[i] == mid.pending[i]);
                                        assert(self@.pending[j] == mid.pending[j + 1]);
                                    } else {
                                        assert(self@.pending[i] == mid.pending[i + 1]);
                                        assert(self@.pending[j] == mid.pending[j + 1]);
                                    }
                                }
                                assert forall|i: int|
                                    0 <= i < self@.pending.len() implies (
                                    #[trigger] self@.pending[i]).0 < self@.next_request_id by {
                                    if i < k as int {
                                        assert(self@.pending[i] == mid.pending[i]);
                                    } else {
                                        assert(self@.pending[i] == mid.pending[i + 1]);
                                    }
                                }
                            }
                            match source {
                                Option::Some(src) => {
                                    if self.dump_count < 0xffff_ffff_ffff_ffffu64 {
                                        self.dump_count = self.dump_count + 1;
                                    }
                                    FrameOutcome {
                                        send_upstream: send,
                                        dump: Some((entry.1, src)),
                                        forward: None,
                                    }
                                },
                                Option::None => FrameOutcome {
                                    send_upstream: send,
                                    dump: None,
                                    forward: None,
                                },
                            }
                        },
                        Option::None => self.forward_outcome(
                            text,
                            is_script_parsed,
                            url.as_str(),
                            send,
                        ),
                    }
                } else {
                    self.forward_outcome(text, is_script_parsed, url.as_str(), send)
                }
            },
            Option::None => self.forward_outcome(text, is_script_parsed, url.as_str(), send),
        }
    }
}

/// A witness pins the pending lookup: the first entry carrying the id
/// is where the lookup lands.
proof fn lemma_pending_find_is(p: Seq<(u64, Seq<char>)>, id: u64, k: int)
    requires
        0 <= k < p.len(),
        p[k].0 == id,
        forall|j: int| 0 <= j < k ==> (#[trigger] p[j]).0 != id,
    ensures
        spec_pending_find(p, id) == Option::Some(k),
{
    lemma_pending_find_props(p, id);
    match spec_pending_find(p, id) {
        Option::Some(k2) => {
            if k2 < k {
                assert(p[k2].0 != id);
            } else if k2 > k {
                assert(p[k].0 != id);
            }
        },
        Option::None => {
            assert(p[k].0 != id);
        },
    }
}

/// When no entry carries the id, the pending lookup finds nothing.
proof fn lemma_pending_find_absent(p: Seq<(u64, Seq<char>)>, id: u64)
    requires
        forall|j: int| 0 <= j < p.len() ==> (#[trigger] p[j]).0 != id,
    ensures
        spec_pending_find(p, id) is None,
{
    lemma_pending_find_props(p, id);
    if spec_pending_find(p, id) is Some {
        let k = spec_pending_find(p, id)->0;
        assert(p[k].0 != id);
    }
}

/// A frame whose id matches a pending request is suppressed exactly
/// once, whatever else it carries: nothing reaches the client-facing
/// side, a file is written exactly when the frame carries a source,
/// the pending entry is consumed, and handling the same frame again
/// forwards it and writes nothing.
pub proof fn lemma_dump_suppressed_once(pre: InterceptorData, text: Seq<char>)
    requires
        spec_pending_wf(pre.pending, pre.next_request_id),
        spec_frame_id(frame_fields_of(text)) is Some,
        pre.dump_dir is Some,
        spec_pending_find(pre.pending, spec_frame_id(frame_fields_of(text))->0) is Some,
    ensures
        spec_intercept(pre, text).1.forward is None,
        spec_intercept(pre, text).1.dump is Some <==> spec_frame_source(frame_fields_of(text))
            is Some,
        spec_pending_find(
            spec_intercept(pre, text).0.pending,
            spec_frame_id(frame_fields_of(text))->0,
        ) is None,
        spec_frame_source(frame_fields_of(text)) is Some && pre.dump_count
            < 0xffff_ffff_ffff_ffffu64 ==> spec_intercept(pre, text).0.dump_count
            == pre.dump_count + 1,
        spec_intercept(spec_intercept(pre, text).0, text).1.forward is Some,
        spec_intercept(spec_intercept(pre, text).0, text).1.dump is None,
{
    let ff = frame_fields_of(text);
    let id = spec_frame_id(ff)->0;
    let mid = spec_after_alloc(pre, ff);
    lemma_pending_find_props(pre.pending, id);
    let k = spec_pending_find(pre.pending, id)->0;
    assert(pre.pending[k].0 == id);
    assert(id < pre.next_request_id);

    // The allocation pass cannot hide the match: a pushed entry sits
    // at the end and carries a fresh id.
    if spec_wants_dump(pre, ff) {
        assert(mid.pending[k] == pre.pending[k]);
        assert forall|j: int| 0 <= j < k implies (#[trigger] mid.pending[j]).0 != id by {
            assert(mid.pending[j] == pre.pending[j]);
        }
        lemma_pending_find_is(mid.pending, id, k);
    }
    assert(spec_pending_find(mid.pending, id) == Option::Some(k));

    // Only index k of the mid state carries the id.
    assert forall|j: int|
        0 <= j < mid.pending.len() && j != k implies (#[trigger] mid.pending[j]).0 != id by {
        if j < pre.pending.len() {
            assert(mid.pending[j] == pre.pending[j]);
            if j < k {
                assert(pre.pending[j].0 != pre.pending[k].0);
            } else {
                assert(pre.pending[k].0 != pre.pending[j].0);
            }
        } else {
            assert(mid.pending[j].0 == pre.next_request_id);
        }
    }

    // The consumed state has no entry with the id left.
    let post = spec_intercept(pre, text).0;
    assert(post.pending =~= mid.pending.remove(k));
    assert forall|j: int| 0 <= j < post.pending.len() implies (#[trigger] post.pending[j]).0
        != id by {
        if j < k {
            assert(post.pending[j] == mid.pending[j]);
        } else {
            assert(post.pending[j] == mid.pending[j + 1]);
        }
    }
    lemma_pending_find_absent(post.pending, id);

    // On a second run the allocation pass can only add an id at or
    // above the old allocator position, never the consumed one.
    let mid2 = spec_after_alloc(post, ff);
    assert(pre.next_request_id <= post.next_request_id);
    assert forall|j: int| 0 <= j < mid2.pending.len() implies (#[trigger] mid2.pending[j]).0
        != id by {
        if j < post.pending.len() {
            assert(mid2.pending[j] == post.pending[j]);
        } else {
            assert(mid2.pending[j].0 == post.next_request_id);
        }
    }
    lemma_pending_find_absent(mid2.pending, id);
}

} // verus!
