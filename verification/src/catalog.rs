//! Debug-target catalog: the target record received from the upstream
//! discovery document, version extraction from target titles, best-target
//! selection, category partitioning, and the rewritten catalog served to
//! clients.

use vstd::prelude::*;

use crate::text::{
    contains_sub, find_sub, spec_contains, spec_dec_str, spec_digit_run_end, spec_find,
    spec_is_digit, spec_parse_u32, spec_u32_max,
};
use crate::text::{lemma_dec_val_prefix_le, spec_dec_val, spec_digit_val};

verus! {

/// One debuggable execution context as described by the upstream
/// discovery document.
#[derive(Debug)]
pub struct DebugTarget {
    pub description: String,
    pub devtools_frontend_url: String,
    pub id: String,
    pub title: String,
    pub target_type: String,
    pub url: String,
    pub web_socket_debugger_url: String,
}

/// Mathematical model of a target record: every field as a character
/// sequence.
pub struct TargetData {
    pub description: Seq<char>,
    pub devtools_frontend_url: Seq<char>,
    pub id: Seq<char>,
    pub title: Seq<char>,
    pub target_type: Seq<char>,
    pub url: Seq<char>,
    pub web_socket_debugger_url: Seq<char>,
}

impl View for DebugTarget {
    type V = TargetData;

    open spec fn view(&self) -> TargetData {
        TargetData {
            description: self.description@,
            devtools_frontend_url: self.devtools_frontend_url@,
            id: self.id@,
            title: self.title@,
            target_type: self.target_type@,
            url: self.url@,
            web_socket_debugger_url: self.web_socket_debugger_url@,
        }
    }
}

impl DeepView for DebugTarget {
    type V = TargetData;

    open spec fn deep_view(&self) -> TargetData {
        self.view()
    }
}

impl Clone for DebugTarget {
    fn clone(&self) -> (r: Self)
        ensures
            r@ == self@,
    {
        DebugTarget {
            description: self.description.clone(),
            devtools_frontend_url: self.devtools_frontend_url.clone(),
            id: self.id.clone(),
            title: self.title.clone(),
            target_type: self.target_type.clone(),
            url: self.url.clone(),
            web_socket_debugger_url: self.web_socket_debugger_url.clone(),
        }
    }
}

/// Version number embedded in a title: the ASCII digit run right after
/// the first `VCS_` marker, or nothing when the marker or the digits
/// are absent, or the number does not fit 32 bits.
pub open spec fn spec_extract_vcs(title: Seq<char>) -> Option<u32> {
    match spec_find(title, "VCS_"@) {
        Option::Some(i) => {
            let start = i + "VCS_"@.len();
            let run_end = spec_digit_run_end(title, start as int);
            if run_end == start {
                Option::None
            } else {
                spec_parse_u32(title.subrange(start as int, run_end))
            }
        },
        Option::None => Option::None,
    }
}

/// The version used for ranking: absent markers count as zero.
pub open spec fn spec_vcs_or_zero(title: Seq<char>) -> u32 {
    match spec_extract_vcs(title) {
        Option::Some(v) => v,
        Option::None => 0,
    }
}

/// Whether `c` is an ASCII decimal digit.
fn is_digit_char(c: char) -> (r: bool)
    ensures
        r == spec_is_digit(c),
{
    let u: u32 = c as u32;
    48 <= u && u <= 57
}

/// Parses a non-empty, all-digit string as a 32-bit number; overflow
/// yields nothing, exactly as a checked integer parse would.
fn parse_u32_digits(s: &str) -> (r: Option<u32>)
    requires
        s@.len() > 0,
        forall|i: int| 0 <= i < s@.len() ==> spec_is_digit(s@[i]),
    ensures
        r == spec_parse_u32(s@),
{
    let n: usize = s.unicode_len();
    let mut acc: u64 = 0;
    let mut i: usize = 0;
    proof {
        assert(s@.take(0) =~= Seq::<char>::empty());
    }
    while i < n
        invariant
            n == s@.len(),
            0 <= i <= n,
            forall|k: int| 0 <= k < n ==> spec_is_digit(s@[k]),
            acc == spec_dec_val(s@.take(i as int)),
            acc <= spec_u32_max(),
        decreases n - i,
    {
        let c = s.get_char(i);
        let d: u64 = (c as u32) as u64 - 48;
        let next: u64 = acc * 10 + d;
        proof {
            assert(s@.take(i + 1).drop_last() =~= s@.take(i as int));
            assert(s@.take(i + 1).last() == s@[i as int]);
            assert(spec_dec_val(s@.take(i + 1)) == spec_dec_val(s@.take(i as int)) * 10
                + spec_digit_val(s@[i as int]));
        }
        if next > 0xffff_ffff {
            proof {
                lemma_dec_val_prefix_le(s@, i + 1);
                assert(s@.take(s@.len() as int) =~= s@);
            }
            return None;
        }
        acc = next;
        i += 1;
    }
    proof {
        assert(s@.take(n as int) =~= s@);
    }
    Some(acc as u32)
}

/// The digit run end is pinned by its bounds: everything before it is a
/// digit and it cannot be extended.
proof fn lemma_digit_run_end_eq(s: Seq<char>, i: int, k: int)
    requires
        0 <= i <= k <= s.len(),
        forall|j: int| i <= j < k ==> spec_is_digit(s[j]),
        k == s.len() || !spec_is_digit(s[k]),
    ensures
        spec_digit_run_end(s, i) == k,
    decreases k - i,
{
    if i < k {
        lemma_digit_run_end_eq(s, i + 1, k);
    }
}

/// Extracts the version number from a target title: the ASCII digit run
/// right after the first `VCS_` marker. A missing marker, a marker with
/// no digits, or an overflowing number all yield nothing.
pub fn extract_vcs_number(title: &str) -> (r: Option<u32>)
    ensures
        r == spec_extract_vcs(title@),
{
    proof {
        reveal_strlit("VCS_");
    }
    let idx: usize = match find_sub(title, "VCS_") {
        Option::Some(i) => i,
        Option::None => {
            return None;
        },
    };
    let n: usize = title.unicode_len();
    proof {
        crate::text::lemma_find_from_props(title@, "VCS_"@, 0);
    }
    let start: usize = idx + 4;
    let mut run_end: usize = start;
    while run_end < n && is_digit_char(title.get_char(run_end))
        invariant
            n == title@.len(),
            start <= run_end <= n,
            forall|j: int| start <= j < run_end ==> spec_is_digit(title@[j]),
        decreases n - run_end,
    {
        run_end += 1;
    }
    proof {
        lemma_digit_run_end_eq(title@, start as int, run_end as int);
    }
    if run_end == start {
        return None;
    }
    let run = title.substring_char(start, run_end);
    parse_u32_digits(run)
}

/// Index of the winning candidate: the one with the highest version,
/// and among ties the latest in input order.
pub open spec fn spec_best_index(s: Seq<TargetData>) -> int
    decreases s.len(),
{
    if s.len() <= 1 {
        0
    } else {
        let prior = spec_best_index(s.drop_last());
        if spec_vcs_or_zero(s.last().title) >= spec_vcs_or_zero(s[prior].title) {
            s.len() - 1
        } else {
            prior
        }
    }
}

/// The selector's choice is sound: its version is at least every other
/// candidate's version, and no later candidate reaches that version —
/// on ties the last tying candidate in input order wins.
pub proof fn lemma_selector_picks_max(s: Seq<TargetData>)
    requires
        s.len() > 0,
    ensures
        0 <= spec_best_index(s) < s.len(),
        forall|i: int|
            0 <= i < s.len() ==> spec_vcs_or_zero(#[trigger] s[i].title) <= spec_vcs_or_zero(
                s[spec_best_index(s)].title,
            ),
        forall|i: int|
            spec_best_index(s) < i < s.len() ==> spec_vcs_or_zero(#[trigger] s[i].title)
                < spec_vcs_or_zero(s[spec_best_index(s)].title),
    decreases s.len(),
{
    if s.len() > 1 {
        lemma_selector_picks_max(s.drop_last());
        assert forall|i: int| 0 <= i < s.len() - 1 implies s.drop_last()[i] == s[i] by {}
    }
}

/// Version of one target's title, as ranked by the selector.
fn target_vcs(t: &DebugTarget) -> (v: u32)
    ensures
        v == spec_vcs_or_zero(t@.title),
{
    match extract_vcs_number(t.title.as_str()) {
        Option::Some(v) => v,
        Option::None => 0,
    }
}

/// Picks the candidate with the highest embedded version — the last one
/// in input order when several tie — and raises the version ratchet to
/// that version if it is higher. An empty candidate list yields nothing;
/// the ratchet is never lowered.
pub fn select_best_target(candidates: &Vec<DebugTarget>, current_highest_vcs: u32) -> (r: Option<
    (DebugTarget, u32),
>)
    ensures
        r is Some <==> candidates@.len() > 0,
        match r {
            Option::Some((t, v)) => {
                &&& t@ == candidates.deep_view()[spec_best_index(candidates.deep_view())]
                &&& v == if spec_vcs_or_zero(t@.title) > current_highest_vcs {
                    spec_vcs_or_zero(t@.title)
                } else {
                    current_highest_vcs
                }
                &&& v >= current_highest_vcs
            },
            Option::None => true,
        },
{
    if candidates.len() == 0 {
        return None;
    }
    let ghost model: Seq<TargetData> = candidates.deep_view();
    let mut best_i: usize = 0;
    let mut best_v: u32 = target_vcs(&candidates[0]);
    let mut i: usize = 1;
    proof {
        assert(model.take(1) =~= seq![model[0]]);
        assert(spec_best_index(model.take(1)) == 0);
    }
    while i < candidates.len()
        invariant
            model == candidates.deep_view(),
            model.len() == candidates@.len(),
            1 <= i <= candidates@.len(),
            0 <= best_i < i,
            best_i == spec_best_index(model.take(i as int)),
            best_v == spec_vcs_or_zero(model[best_i as int].title),
        decreases candidates@.len() - i,
    {
        let v = target_vcs(&candidates[i]);
        proof {
            assert(model.take(i + 1).drop_last() =~= model.take(i as int));
            assert(model.take(i + 1).last() == model[i as int]);
            assert forall|k: int| 0 <= k < i implies model.take(i + 1)[k] == model.take(
                i as int,
            )[k] by {}
        }
        if v >= best_v {
            best_i = i;
            best_v = v;
        }
        i += 1;
    }
    proof {
        assert(model.take(candidates@.len() as int) =~= model);
    }
    let chosen = candidates[best_i].clone();
    let new_highest: u32 = if best_v > current_highest_vcs {
        best_v
    } else {
        current_highest_vcs
    };
    Some((chosen, new_highest))
}

/// Lowercase image of a character sequence, as the standard library's
/// case folding computes it.
pub uninterp spec fn lower_of(s: Seq<char>) -> Seq<char>;

/// Relies on str::to_lowercase: the result depends on the input
/// characters alone.
#[verifier::external_body]
fn lowercase(s: &str) -> (r: String)
    ensures
        r@ == lower_of(s@),
{
    s.to_lowercase()
}

/// A target belongs to a category when its lowercased title contains
/// the category keyword.
pub open spec fn spec_is_category_member(t: TargetData, kw: Seq<char>) -> bool {
    spec_contains(lower_of(t.title), kw)
}

/// The candidates of one category, in input order.
pub open spec fn spec_filter_category(s: Seq<TargetData>, kw: Seq<char>) -> Seq<TargetData>
    decreases s.len(),
{
    if s.len() == 0 {
        Seq::empty()
    } else {
        let prior = spec_filter_category(s.drop_last(), kw);
        if spec_is_category_member(s.last(), kw) {
            prior.push(s.last())
        } else {
            prior
        }
    }
}

/// Tests category membership of one title.
fn is_category_member(title: &str, kw: &str) -> (r: bool)
    ensures
        r == spec_contains(lower_of(title@), kw@),
{
    let low = lowercase(title);
    contains_sub(low.as_str(), kw)
}

/// Splits a catalog into the candidates of the two categories, in input
/// order; a target whose title mentions both keywords lands in both.
pub fn partition_targets(targets: &Vec<DebugTarget>) -> (r: (Vec<DebugTarget>, Vec<DebugTarget>))
    ensures
        r.0.deep_view() == spec_filter_category(targets.deep_view(), "dynamics"@),
        r.1.deep_view() == spec_filter_category(targets.deep_view(), "events"@),
{
    let ghost model: Seq<TargetData> = targets.deep_view();
    let mut dynamics: Vec<DebugTarget> = Vec::new();
    let mut events: Vec<DebugTarget> = Vec::new();
    let mut i: usize = 0;
    proof {
        assert(model.take(0) =~= Seq::<TargetData>::empty());
    }
    while i < targets.len()
        invariant
            model == targets.deep_view(),
            model.len() == targets@.len(),
            0 <= i <= targets@.len(),
            dynamics.deep_view() == spec_filter_category(model.take(i as int), "dynamics"@),
            events.deep_view() == spec_filter_category(model.take(i as int), "events"@),
        decreases targets@.len() - i,
    {
        proof {
            assert(model.take(i + 1).drop_last() =~= model.take(i as int));
            assert(model.take(i + 1).last() == model[i as int]);
        }
        let t = &targets[i];
        if is_category_member(t.title.as_str(), "dynamics") {
            dynamics.push(t.clone());
            proof {
                assert(dynamics.deep_view() =~= spec_filter_category(
                    model.take(i + 1),
                    "dynamics"@,
                ));
            }
        }
        if is_category_member(t.title.as_str(), "events") {
            events.push(t.clone());
            proof {
                assert(events.deep_view() =~= spec_filter_category(model.take(i + 1), "events"@));
            }
        }
        i += 1;
    }
    proof {
        assert(model.take(targets@.len() as int) =~= model);
    }
    (dynamics, events)
}

/// The locally served socket address every catalog entry is rewritten to.
pub open spec fn spec_ws_local_url(port: u16) -> Seq<char> {
    "ws://localhost:"@ + spec_dec_str(port as nat)
}

/// One catalog entry as served to clients: the socket address replaced
/// by the local one, everything else kept.
pub open spec fn spec_rewrite_entry(t: TargetData, port: u16) -> TargetData {
    TargetData { web_socket_debugger_url: spec_ws_local_url(port), ..t }
}

/// The catalog served to clients: entries whose title contains the
/// filter, each pointed at the local port.
pub open spec fn spec_rewrite_catalog(s: Seq<TargetData>, filter: Seq<char>, port: u16) -> Seq<
    TargetData,
>
    decreases s.len(),
{
    if s.len() == 0 {
        Seq::empty()
    } else {
        let prior = spec_rewrite_catalog(s.drop_last(), filter, port);
        if spec_contains(s.last().title, filter) {
            prior.push(spec_rewrite_entry(s.last(), port))
        } else {
            prior
        }
    }
}

/// Builds the local socket address for a port.
pub fn local_ws_url(port: u16) -> (r: String)
    ensures
        r@ == spec_ws_local_url(port),
{
    let mut out: String = "ws://localhost:".to_owned();
    crate::text::append_u16_dec(&mut out, port);
    out
}

/// Filters a fetched catalog down to the entries whose title contains
/// `filter_title` and rewrites each entry's socket address to the local
/// port, preserving input order and every other field.
pub fn rewrite_catalog(targets: &Vec<DebugTarget>, filter_title: &str, port: u16) -> (r: Vec<
    DebugTarget,
>)
    ensures
        r.deep_view() == spec_rewrite_catalog(targets.deep_view(), filter_title@, port),
{
    let ghost model: Seq<TargetData> = targets.deep_view();
    let mut out: Vec<DebugTarget> = Vec::new();
    let url = local_ws_url(port);
    let mut i: usize = 0;
    proof {
        assert(model.take(0) =~= Seq::<TargetData>::empty());
    }
    while i < targets.len()
        invariant
            model == targets.deep_view(),
            model.len() == targets@.len(),
            0 <= i <= targets@.len(),
            url@ == spec_ws_local_url(port),
            out.deep_view() == spec_rewrite_catalog(model.take(i as int), filter_title@, port),
        decreases targets@.len() - i,
    {
        proof {
            assert(model.take(i + 1).drop_last() =~= model.take(i as int));
            assert(model.take(i + 1).last() == model[i as int]);
        }
        if contains_sub(targets[i].title.as_str(), filter_title) {
            let mut t = targets[i].clone();
            t.web_socket_debugger_url = url.clone();
            out.push(t);
            proof {
                assert(out.deep_view() =~= spec_rewrite_catalog(
                    model.take(i + 1),
                    filter_title@,
                    port,
                ));
            }
        }
        i += 1;
    }
    proof {
        assert(model.take(targets@.len() as int) =~= model);
    }
    out
}

/// The version document served when the upstream one cannot be fetched.
pub fn fallback_version_doc() -> (r: String)
    ensures
        r@ == "{\"Browser\":\"WinCC-Proxy/1.0\",\"Protocol-Version\":\"1.3\"}"@,
{
    "{\"Browser\":\"WinCC-Proxy/1.0\",\"Protocol-Version\":\"1.3\"}".to_owned()
}

} // verus!
