//! What the session store computes around its database: the text of kinds
//! and states, the rows it reads back, filtering, and traffic statistics.
use vstd::prelude::*;

use crate::clock::{
    four_digit_year, instant_from_text, instant_rfc3339, instant_text, parse_instant, parse_session_id,
    reads_as_instant, Instant,
    session_id_text, uuid_from_text, uuid_text,
};
use crate::codec::{json_string_list, json_string_list_parsed, parse_string_list, string_list_json};
use crate::error::StoreError;
use crate::model::{
    copy_strings, BodyPreview, BucketModel, CapturedSession, FilterModel, SessionFilter,
    SessionKind, SessionModel, SessionState, SessionSummary, SummaryModel, TrafficBucket,
    TrafficOverview, TrailersPreview, summary_of, CollectionItem, CollectionModel, RequestCollection,
};
use crate::rules::{
    id_less, lemma_lex_asymmetric, lemma_lex_irreflexive, lemma_lex_total, lemma_lex_transitive,
    lex_lt,
};
use crate::text::{
    chars_contain, chars_of, concat2, decimal, decimal_string, eq_ignore_ascii_case,
    eq_ignore_case, lower_chars, lower_seq, same_text, seq_contains, str_contains,
};

verus! {

// ---------------------------------------------------------------------------
// Kinds and states as text
// ---------------------------------------------------------------------------

/// The stored text of a session kind (its variant name).
pub open spec fn kind_text(kind: SessionKind) -> Seq<char> {
    match kind {
        SessionKind::Http => "Http"@,
        SessionKind::ConnectTunnel => "ConnectTunnel"@,
        SessionKind::WebSocket => "WebSocket"@,
    }
}

/// The stored text of a session state (its variant name).
pub open spec fn state_text(state: SessionState) -> Seq<char> {
    match state {
        SessionState::Pending => "Pending"@,
        SessionState::Completed => "Completed"@,
        SessionState::Failed => "Failed"@,
        SessionState::Mocked => "Mocked"@,
        SessionState::Tunneling => "Tunneling"@,
    }
}

/// The kind whose stored text is `text`.
pub open spec fn kind_of_text(text: Seq<char>) -> Option<SessionKind> {
    if text == "Http"@ {
        Some(SessionKind::Http)
    } else if text == "ConnectTunnel"@ {
        Some(SessionKind::ConnectTunnel)
    } else if text == "WebSocket"@ {
        Some(SessionKind::WebSocket)
    } else {
        None
    }
}

/// The state whose stored text is `text`.
pub open spec fn state_of_text(text: Seq<char>) -> Option<SessionState> {
    if text == "Pending"@ {
        Some(SessionState::Pending)
    } else if text == "Completed"@ {
        Some(SessionState::Completed)
    } else if text == "Failed"@ {
        Some(SessionState::Failed)
    } else if text == "Mocked"@ {
        Some(SessionState::Mocked)
    } else if text == "Tunneling"@ {
        Some(SessionState::Tunneling)
    } else {
        None
    }
}

/// A kind's stored text reads back as that kind.
pub proof fn law_kind_text_round_trip(kind: SessionKind)
    ensures
        kind_of_text(kind_text(kind)) == Some(kind),
{
    reveal_strlit("Http");
    reveal_strlit("ConnectTunnel");
    reveal_strlit("WebSocket");
    assert("Http"@.len() == 4);
    assert("ConnectTunnel"@.len() == 13);
    assert("WebSocket"@.len() == 9);
}

/// A state's stored text reads back as that state.
pub proof fn law_state_text_round_trip(state: SessionState)
    ensures
        state_of_text(state_text(state)) == Some(state),
{
    reveal_strlit("Pending");
    reveal_strlit("Completed");
    reveal_strlit("Failed");
    reveal_strlit("Mocked");
    reveal_strlit("Tunneling");
    assert("Pending"@.len() == 7);
    assert("Completed"@.len() == 9);
    assert("Failed"@.len() == 6);
    assert("Mocked"@.len() == 6);
    assert("Tunneling"@.len() == 9);
    assert("Failed"@[0] != "Mocked"@[0]);
    assert("Completed"@[0] != "Tunneling"@[0]);
}

/// The stored text of a session kind.
pub fn kind_name(kind: SessionKind) -> (r: &'static str)
    ensures
        r@ == kind_text(kind),
{
    match kind {
        SessionKind::Http => "Http",
        SessionKind::ConnectTunnel => "ConnectTunnel",
        SessionKind::WebSocket => "WebSocket",
    }
}

/// The stored text of a session state.
pub fn state_name(state: SessionState) -> (r: &'static str)
    ensures
        r@ == state_text(state),
{
    match state {
        SessionState::Pending => "Pending",
        SessionState::Completed => "Completed",
        SessionState::Failed => "Failed",
        SessionState::Mocked => "Mocked",
        SessionState::Tunneling => "Tunneling",
    }
}

/// Reads a stored session kind; unknown text is a serialization error.
pub fn parse_kind(kind: &str) -> (r: Result<SessionKind, StoreError>)
    ensures
        match kind_of_text(kind@) {
            Some(k) => r == Ok::<SessionKind, StoreError>(k),
            None => r matches Err(StoreError::Serialization(m)) && m@ == "unknown session kind: "@
                + kind@,
        },
{
    if same_text(kind, "Http") {
        Ok(SessionKind::Http)
    } else if same_text(kind, "ConnectTunnel") {
        Ok(SessionKind::ConnectTunnel)
    } else if same_text(kind, "WebSocket") {
        Ok(SessionKind::WebSocket)
    } else {
        Err(StoreError::Serialization(concat2("unknown session kind: ", kind)))
    }
}

/// Reads a stored session state; unknown text is a serialization error.
pub fn parse_state(state: &str) -> (r: Result<SessionState, StoreError>)
    ensures
        match state_of_text(state@) {
            Some(s) => r == Ok::<SessionState, StoreError>(s),
            None => r matches Err(StoreError::Serialization(m)) && m@ == "unknown session state: "@
                + state@,
        },
{
    if same_text(state, "Pending") {
        Ok(SessionState::Pending)
    } else if same_text(state, "Completed") {
        Ok(SessionState::Completed)
    } else if same_text(state, "Failed") {
        Ok(SessionState::Failed)
    } else if same_text(state, "Mocked") {
        Ok(SessionState::Mocked)
    } else if same_text(state, "Tunneling") {
        Ok(SessionState::Tunneling)
    } else {
        Err(StoreError::Serialization(concat2("unknown session state: ", state)))
    }
}

// ---------------------------------------------------------------------------
// Filtering
// ---------------------------------------------------------------------------

/// The characters of an optional text, or none.
pub open spec fn or_empty(s: Option<Seq<char>>) -> Seq<char> {
    match s {
        Some(v) => v,
        None => Seq::empty(),
    }
}

/// The text that a keyword is searched in: method, URL and host, separated
/// by spaces.
pub open spec fn search_text(s: SummaryModel) -> Seq<char> {
    or_empty(s.method) + " "@ + or_empty(s.url) + " "@ + or_empty(s.host)
}

/// Whether the summary meets every criterion of the filter: the host
/// contains the given text, the method equals up to ASCII case, the status
/// is the given one, the state is failed or mocked when asked, and the
/// keyword occurs, up to ASCII case, in the method, URL and host.
pub open spec fn filter_accepts(s: SummaryModel, f: FilterModel) -> bool {
    &&& (f.host matches Some(h) ==> (s.host matches Some(v) && seq_contains(v, h)))
    &&& (f.method matches Some(m) ==> (s.method matches Some(v) && eq_ignore_case(v, m)))
    &&& (f.status matches Some(st) ==> s.status == Some(st))
    &&& (f.only_failed ==> s.state == SessionState::Failed)
    &&& (f.only_mocked ==> s.state == SessionState::Mocked)
    &&& (f.keyword matches Some(k) ==> seq_contains(lower_seq(search_text(s)), lower_seq(k)))
}

fn text_or_empty(s: &Option<String>) -> (r: String)
    ensures
        r@ == or_empty(s.deep_view()),
{
    match s {
        Some(v) => v.clone(),
        None => String::new(),
    }
}

/// Whether the summary meets every criterion of the filter.
pub fn session_matches_filter(summary: &SessionSummary, filter: &SessionFilter) -> (r: bool)
    ensures
        r == filter_accepts(summary@, filter@),
{
    if let Some(host) = &filter.host {
        let ok = match &summary.host {
            Some(v) => str_contains(v.as_str(), host.as_str()),
            None => false,
        };
        if !ok {
            return false;
        }
    }
    if let Some(method) = &filter.method {
        let ok = match &summary.method {
            Some(v) => eq_ignore_ascii_case(v.as_str(), method.as_str()),
            None => false,
        };
        if !ok {
            return false;
        }
    }
    if let Some(status) = filter.status {
        let ok = match summary.status {
            Some(s) => s == status,
            None => false,
        };
        if !ok {
            return false;
        }
    }
    if filter.only_failed && summary.state != SessionState::Failed {
        return false;
    }
    if filter.only_mocked && summary.state != SessionState::Mocked {
        return false;
    }
    if let Some(keyword) = &filter.keyword {
        let mut target = text_or_empty(&summary.method);
        target.append(" ");
        let url = text_or_empty(&summary.url);
        target.append(url.as_str());
        target.append(" ");
        let host = text_or_empty(&summary.host);
        target.append(host.as_str());
        assert(target@ == search_text(summary@));
        let hay = lower_chars(target.as_str());
        let needle = lower_chars(keyword.as_str());
        if !chars_contain(&hay, &needle) {
            return false;
        }
    }
    true
}

/// What each criterion of a filter asks of a summary; the filter accepts a
/// summary exactly when every criterion it names holds:
/// - a host: the summary has a host with the given text at some position;
/// - a method: the summary's method equals it, letter by letter once ASCII
///   letters are lower-cased;
/// - a status: the summary has exactly that status;
/// - only failed, only mocked: the summary is in that state;
/// - a keyword: it occurs, ASCII lower-cased, in the lower-cased method,
///   URL and host joined by spaces.
pub proof fn law_filter_criteria(s: SummaryModel, f: FilterModel)
    ensures
        filter_accepts(s, f) <==> {
            &&& (f.host matches Some(w) ==> (s.host matches Some(h) && exists|i: int|
                0 <= i && i + w.len() <= h.len() && #[trigger] h.subrange(i, i + w.len()) == w))
            &&& (f.method matches Some(w) ==> (s.method matches Some(v) && v.len() == w.len()
                && forall|i: int| 0 <= i < v.len() ==> crate::text::ascii_lower(#[trigger] v[i])
                    == crate::text::ascii_lower(w[i])))
            &&& (f.status matches Some(st) ==> s.status == Some(st))
            &&& (f.only_failed ==> s.state == SessionState::Failed)
            &&& (f.only_mocked ==> s.state == SessionState::Mocked)
            &&& (f.keyword matches Some(k) ==> {
                let t = lower_seq(search_text(s));
                let w = lower_seq(k);
                exists|i: int| 0 <= i && i + w.len() <= t.len() && #[trigger] t.subrange(i, i + w.len()) == w
            })
        },
{
    if f.host is Some && s.host is Some {
        crate::text::lemma_contains_at_some_position(s.host->0, f.host->0);
    }
    if f.method is Some && s.method is Some {
        crate::text::lemma_eq_ignore_case_by_letter(s.method->0, f.method->0);
    }
    if f.keyword is Some {
        crate::text::lemma_contains_at_some_position(lower_seq(search_text(s)), lower_seq(f.keyword->0));
    }
}

/// A status filter lists only that status: every summary that a filter
/// naming a status accepts has that status, and so does every summary that
/// `filter_summaries` keeps.
pub proof fn law_status_filter_lists_only_that_status(items: Seq<SummaryModel>, f: FilterModel, st: u16)
    requires
        f.status == Some(st),
    ensures
        forall|i: int| 0 <= i < items.len() && filter_accepts(#[trigger] items[i], f) ==> items[i].status == Some(st),
        forall|i: int| 0 <= i < accepted(items, f).len() ==> (#[trigger] accepted(items, f)[i]).status == Some(st),
    decreases items.len(),
{
    if items.len() > 0 {
        law_status_filter_lists_only_that_status(items.drop_last(), f, st);
        let prev = accepted(items.drop_last(), f);
        assert forall|i: int| 0 <= i < accepted(items, f).len() implies (#[trigger] accepted(items, f)[i]).status == Some(st) by {
            if i < prev.len() {
                assert(accepted(items, f)[i] == prev[i]);
            }
        }
    }
}

/// The summaries that the filter accepts, in their order.
pub open spec fn accepted(items: Seq<SummaryModel>, f: FilterModel) -> Seq<SummaryModel>
    decreases items.len(),
{
    if items.len() == 0 {
        items
    } else if filter_accepts(items.last(), f) {
        accepted(items.drop_last(), f).push(items.last())
    } else {
        accepted(items.drop_last(), f)
    }
}

/// The filter that imposes nothing, as `SessionFilter::default` makes it.
pub open spec fn no_filter() -> FilterModel {
    FilterModel {
        keyword: None,
        method: None,
        status: None,
        host: None,
        only_failed: false,
        only_mocked: false,
    }
}

/// The default filter lists every session, in order.
pub proof fn law_default_filter_accepts_all(items: Seq<SummaryModel>)
    ensures
        accepted(items, no_filter()) == items,
    decreases items.len(),
{
    if items.len() > 0 {
        law_default_filter_accepts_all(items.drop_last());
        assert(items.drop_last().push(items.last()) =~= items);
    }
}

/// The summaries that the filter accepts, in their order.
pub fn filter_summaries(summaries: Vec<SessionSummary>, filter: &SessionFilter) -> (r: Vec<SessionSummary>)
    ensures
        r.deep_view() == accepted(summaries.deep_view(), filter@),
{
    let mut out: Vec<SessionSummary> = Vec::new();
    let mut i: usize = 0;
    while i < summaries.len()
        invariant
            i <= summaries.len(),
            out.deep_view() == accepted(summaries.deep_view().take(i as int), filter@),
        decreases summaries.len() - i,
    {
        proof {
            assert(summaries.deep_view().take(i + 1).drop_last() =~= summaries.deep_view().take(
                i as int,
            ));
        }
        if session_matches_filter(&summaries[i], filter) {
            let ghost before = out.deep_view();
            out.push(summaries[i].clone());
            assert(out.deep_view() =~= before.push(summaries.deep_view()[i as int]));
        }
        i += 1;
    }
    assert(summaries.deep_view().take(summaries.len() as int) =~= summaries.deep_view());
    out
}

// ---------------------------------------------------------------------------
// Rows read back
// ---------------------------------------------------------------------------

/// The columns of a `sessions` row that a summary is read from.
pub struct SummaryRow {
    pub id: String,
    pub kind: String,
    pub state: String,
    pub started_at: String,
    pub method: Option<String>,
    pub url: Option<String>,
    pub host: Option<String>,
    pub status: Option<i64>,
    pub duration_ms: Option<i64>,
    pub bytes_up: i64,
    pub bytes_down: i64,
    pub matched_rule_ids: String,
}

#[verifier::ext_equal]
pub ghost struct SummaryRowModel {
    pub id: Seq<char>,
    pub kind: Seq<char>,
    pub state: Seq<char>,
    pub started_at: Seq<char>,
    pub method: Option<Seq<char>>,
    pub url: Option<Seq<char>>,
    pub host: Option<Seq<char>>,
    pub status: Option<i64>,
    pub duration_ms: Option<i64>,
    pub bytes_up: i64,
    pub bytes_down: i64,
    pub matched_rule_ids: Seq<char>,
}

impl View for SummaryRow {
    type V = SummaryRowModel;

    open spec fn view(&self) -> SummaryRowModel {
        SummaryRowModel {
            id: self.id@,
            kind: self.kind@,
            state: self.state@,
            started_at: self.started_at@,
            method: self.method.deep_view(),
            url: self.url.deep_view(),
            host: self.host.deep_view(),
            status: self.status,
            duration_ms: self.duration_ms,
            bytes_up: self.bytes_up,
            bytes_down: self.bytes_down,
            matched_rule_ids: self.matched_rule_ids@,
        }
    }
}

/// The summary read from a row's columns, or the message of the first of
/// its id, kind, state and start that does not decode. Status and duration
/// are narrowed with `as`, byte counts clamped at zero, and rule ids that
/// do not decode read as none.
pub open spec fn stored_summary(row: SummaryRowModel) -> Result<SummaryModel, Seq<char>> {
    match uuid_from_text(row.id) {
        Err(m) => Err(m),
        Ok(id) => match kind_of_text(row.kind) {
            None => Err("unknown session kind: "@ + row.kind),
            Some(k) => match state_of_text(row.state) {
                None => Err("unknown session state: "@ + row.state),
                Some(st) => match instant_from_text(row.started_at) {
                    Err(m) => Err(m),
                    Ok(t) => Ok(
                        SummaryModel {
                            id,
                            kind: k,
                            state: st,
                            started_at: t as i128,
                            method: row.method,
                            url: row.url,
                            host: row.host,
                            status: match row.status {
                                Some(v) => Some(v as u16),
                                None => None,
                            },
                            duration_ms: match row.duration_ms {
                                Some(v) => Some(v as u64),
                                None => None,
                            },
                            bytes_up: clamp_count(row.bytes_up),
                            bytes_down: clamp_count(row.bytes_down),
                            matched_rule_ids: match json_string_list_parsed(row.matched_rule_ids) {
                                Some(v) => v,
                                None => Seq::empty(),
                            },
                        },
                    ),
                },
            },
        },
    }
}

/// A stored integer clamped below at zero.
pub open spec fn clamp_count(v: i64) -> u64 {
    if v < 0 {
        0
    } else {
        v as u64
    }
}

fn clamp_count_exec(v: i64) -> (r: u64)
    ensures
        r == clamp_count(v),
{
    if v < 0 {
        0
    } else {
        v as u64
    }
}

/// The summary read from a row's columns, given the decoded id, the decoded
/// start instant and the decoded rule ids: the first failure among id, kind,
/// state and start is a serialization error; rule ids that do not decode
/// are read as none; status and duration are narrowed with `as`, byte counts
/// are clamped at zero.
pub fn summary_from_decoded(
    id: Result<u128, String>,
    kind: &str,
    state: &str,
    started_at: Result<Instant, String>,
    method: Option<String>,
    url: Option<String>,
    host: Option<String>,
    status: Option<i64>,
    duration_ms: Option<i64>,
    bytes_up: i64,
    bytes_down: i64,
    matched_rule_ids: Option<Vec<String>>,
) -> (r: Result<SessionSummary, StoreError>)
    ensures
        match id {
            Err(m) => r matches Err(StoreError::Serialization(e)) && e@ == m@,
            Ok(id) => match kind_of_text(kind@) {
                None => r matches Err(StoreError::Serialization(e)) && e@ == "unknown session kind: "@
                    + kind@,
                Some(k) => match state_of_text(state@) {
                    None => r matches Err(StoreError::Serialization(e)) && e@
                        == "unknown session state: "@ + state@,
                    Some(st) => match started_at {
                        Err(m) => r matches Err(StoreError::Serialization(e)) && e@ == m@,
                        Ok(t) => r matches Ok(s) && s@ == (SummaryModel {
                            id,
                            kind: k,
                            state: st,
                            started_at: t,
                            method: method.deep_view(),
                            url: url.deep_view(),
                            host: host.deep_view(),
                            status: match status {
                                Some(v) => Some(v as u16),
                                None => None,
                            },
                            duration_ms: match duration_ms {
                                Some(v) => Some(v as u64),
                                None => None,
                            },
                            bytes_up: clamp_count(bytes_up),
                            bytes_down: clamp_count(bytes_down),
                            matched_rule_ids: match matched_rule_ids {
                                Some(v) => v.deep_view(),
                                None => Seq::empty(),
                            },
                        }),
                    },
                },
            },
        },
{
    let id = match id {
        Ok(v) => v,
        Err(m) => {
            return Err(StoreError::Serialization(m));
        },
    };
    let kind = parse_kind(kind)?;
    let state = parse_state(state)?;
    let started_at = match started_at {
        Ok(v) => v,
        Err(m) => {
            return Err(StoreError::Serialization(m));
        },
    };
    let matched = match matched_rule_ids {
        Some(v) => v,
        None => Vec::new(),
    };
    let s = SessionSummary {
        id,
        kind,
        state,
        started_at,
        method,
        url,
        host,
        status: match status {
            Some(v) => Some(v as u16),
            None => None,
        },
        duration_ms: match duration_ms {
            Some(v) => Some(v as u64),
            None => None,
        },
        bytes_up: clamp_count_exec(bytes_up),
        bytes_down: clamp_count_exec(bytes_down),
        matched_rule_ids: matched,
    };
    assert(s@.matched_rule_ids =~= s.matched_rule_ids.deep_view());
    Ok(s)
}

/// The summary read from a row: the id is parsed as a UUID, the start as
/// RFC 3339, the rule ids as a JSON array of strings.
pub fn summary_from_row(row: SummaryRow) -> (r: Result<SessionSummary, StoreError>)
    ensures
        match stored_summary(row@) {
            Ok(m) => (r matches Ok(x) && x@ == m),
            Err(m) => (r matches Err(StoreError::Serialization(e)) && e@ == m),
        },
{
    let id = parse_session_id(row.id.as_str());
    let started = parse_instant(row.started_at.as_str());
    let matched = parse_string_list(row.matched_rule_ids.as_str());
    summary_from_decoded(
        id,
        row.kind.as_str(),
        row.state.as_str(),
        started,
        row.method,
        row.url,
        row.host,
        row.status,
        row.duration_ms,
        row.bytes_up,
        row.bytes_down,
        matched,
    )
}

// ---------------------------------------------------------------------------
// Averages and percentiles
// ---------------------------------------------------------------------------

/// The sum of a sequence of counts.
pub open spec fn total(values: Seq<u64>) -> nat
    decreases values.len(),
{
    if values.len() == 0 {
        0
    } else {
        total(values.drop_last()) + (values.last() as nat)
    }
}

/// The mean of the values rounded down, or `None` for no values.
pub open spec fn mean(values: Seq<u64>) -> Option<u64> {
    if values.len() == 0 {
        None
    } else {
        Some((total(values) / values.len()) as u64)
    }
}

/// The integer mean of the values, or `None` when there are none.
pub fn average_u64(values: &[u64]) -> (r: Option<u64>)
    requires
        total(values@) <= u64::MAX,
    ensures
        r == mean(values@),
{
    if values.len() == 0 {
        return None;
    }
    let mut sum: u64 = 0;
    let mut i: usize = 0;
    while i < values.len()
        invariant
            i <= values.len(),
            total(values@) <= u64::MAX,
            sum == total(values@.take(i as int)),
        decreases values.len() - i,
    {
        proof {
            assert(values@.take(i + 1).drop_last() =~= values@.take(i as int));
            lemma_total_prefix_le(values@, i + 1);
        }
        sum = sum + values[i];
        i += 1;
    }
    assert(values@.take(values.len() as int) =~= values@);
    proof {
        assert(total(values@) / values@.len() <= total(values@)) by (nonlinear_arith)
            requires
                values@.len() >= 1,
        ;
    }
    Some(sum / (values.len() as u64))
}

/// A prefix never sums to more than the whole.
pub proof fn lemma_total_prefix_le(values: Seq<u64>, k: int)
    requires
        0 <= k <= values.len(),
    ensures
        total(values.take(k)) <= total(values),
    decreases values.len() - k,
{
    if k < values.len() {
        lemma_total_prefix_le(values, k + 1);
        assert(values.take(k + 1).drop_last() =~= values.take(k));
    } else {
        assert(values.take(k) =~= values);
    }
}

/// The index of the given percentile among `len` sorted values:
/// `(len - 1) * percentile / 100`, rounded up.
pub open spec fn percentile_index(len: nat, percentile: nat) -> int {
    let scaled = (len - 1) * percentile;
    if scaled % 100 == 0 {
        scaled / 100
    } else {
        scaled / 100 + 1
    }
}

/// The value at the given percentile of `values`, which the caller keeps
/// sorted: `None` when there are no values or the index falls beyond them.
pub fn percentile_u64(values: &[u64], percentile: usize) -> (r: Option<u64>)
    requires
        values@.len() == 0 || (values@.len() - 1) * percentile <= usize::MAX,
    ensures
        values@.len() == 0 ==> r is None,
        values@.len() > 0 ==> r == (if percentile_index(values@.len(), percentile as nat)
            < values@.len() {
            Some(values@[percentile_index(values@.len(), percentile as nat)])
        } else {
            None
        }),
{
    if values.len() == 0 {
        return None;
    }
    let scaled = (values.len() - 1) * percentile;
    let index = if scaled % 100 == 0 {
        scaled / 100
    } else {
        scaled / 100 + 1
    };
    if index < values.len() {
        Some(values[index])
    } else {
        None
    }
}

// ---------------------------------------------------------------------------
// Traffic buckets
// ---------------------------------------------------------------------------

/// What sessions are grouped by.
#[derive(Debug, Clone, Copy, PartialEq, Eq, Structural)]
pub enum BucketBy {
    Host,
    Method,
    Status,
}

/// The group key of a summary: its host, method or decimal status, or `-`
/// when it has none.
pub open spec fn key_of(by: BucketBy, s: SummaryModel) -> Seq<char> {
    match by {
        BucketBy::Host => match s.host {
            Some(h) => h,
            None => "-"@,
        },
        BucketBy::Method => match s.method {
            Some(m) => m,
            None => "-"@,
        },
        BucketBy::Status => match s.status {
            Some(st) => decimal(st as nat),
            None => "-"@,
        },
    }
}

/// The summaries whose key is `k`, in order.
pub open spec fn members(ss: Seq<SummaryModel>, by: BucketBy, k: Seq<char>) -> Seq<SummaryModel>
    decreases ss.len(),
{
    if ss.len() == 0 {
        ss
    } else if key_of(by, ss.last()) == k {
        members(ss.drop_last(), by, k).push(ss.last())
    } else {
        members(ss.drop_last(), by, k)
    }
}

/// Bytes sent upstream, summed over the summaries.
pub open spec fn total_up(ss: Seq<SummaryModel>) -> nat
    decreases ss.len(),
{
    if ss.len() == 0 {
        0
    } else {
        total_up(ss.drop_last()) + (ss.last().bytes_up as nat)
    }
}

/// Bytes received, summed over the summaries.
pub open spec fn total_down(ss: Seq<SummaryModel>) -> nat
    decreases ss.len(),
{
    if ss.len() == 0 {
        0
    } else {
        total_down(ss.drop_last()) + (ss.last().bytes_down as nat)
    }
}

/// The known durations of the summaries, in order.
pub open spec fn durations(ss: Seq<SummaryModel>) -> Seq<u64>
    decreases ss.len(),
{
    if ss.len() == 0 {
        Seq::empty()
    } else {
        match ss.last().duration_ms {
            Some(d) => durations(ss.drop_last()).push(d),
            None => durations(ss.drop_last()),
        }
    }
}

/// Some summary has key `k`.
pub open spec fn key_occurs(ss: Seq<SummaryModel>, by: BucketBy, k: Seq<char>) -> bool {
    exists|i: int| 0 <= i < ss.len() && #[trigger] key_of(by, ss[i]) == k
}

/// The bucket of key `k`: how many summaries have it, their bytes both ways,
/// and the mean of their known durations.
pub open spec fn bucket_of(ss: Seq<SummaryModel>, by: BucketBy, k: Seq<char>) -> BucketModel {
    let m = members(ss, by, k);
    BucketModel {
        key: k,
        count: m.len() as u64,
        bytes_up: total_up(m) as u64,
        bytes_down: total_down(m) as u64,
        average_duration_ms: mean(durations(m)),
    }
}

/// Bucket `a` is listed before bucket `b`: more sessions first, then the
/// lower key.
pub open spec fn bucket_before(a: BucketModel, b: BucketModel) -> bool {
    a.count > b.count || (a.count == b.count && lex_lt(a.key, b.key))
}

/// The number of buckets that are listed.
pub open spec fn bucket_limit() -> nat {
    12
}

/// `bs` are the listed buckets of the summaries grouped by `by`: the bucket
/// of each key that occurs, at most twelve, in listing order, and no bucket
/// left out comes before one listed.
pub open spec fn are_listed_buckets(ss: Seq<SummaryModel>, by: BucketBy, bs: Seq<BucketModel>) -> bool {
    &&& bs.len() <= bucket_limit()
    &&& forall|i: int| 0 <= i < bs.len() ==> key_occurs(ss, by, #[trigger] bs[i].key)
    &&& forall|i: int| 0 <= i < bs.len() ==> #[trigger] bs[i] == bucket_of(ss, by, bs[i].key)
    &&& forall|i: int, j: int| 0 <= i < j < bs.len() ==> bucket_before(#[trigger] bs[i], #[trigger] bs[j])
    &&& forall|k: Seq<char>|
        key_occurs(ss, by, k) && !(exists|i: int| 0 <= i < bs.len() && #[trigger] bs[i].key == k)
            ==> bs.len() == bucket_limit() && forall|i: int|
            0 <= i < bs.len() ==> bucket_before(#[trigger] bs[i], bucket_of(ss, by, k))
}

proof fn lemma_members_step(ss: Seq<SummaryModel>, by: BucketBy, k: Seq<char>, i: int)
    requires
        0 <= i < ss.len(),
    ensures
        members(ss.take(i + 1), by, k) == (if key_of(by, ss[i]) == k {
            members(ss.take(i), by, k).push(ss[i])
        } else {
            members(ss.take(i), by, k)
        }),
{
    assert(ss.take(i + 1).drop_last() =~= ss.take(i));
    assert(ss.take(i + 1).last() == ss[i]);
}

proof fn lemma_totals_le(ss: Seq<SummaryModel>, by: BucketBy, k: Seq<char>)
    ensures
        total_up(members(ss, by, k)) <= total_up(ss),
        total_down(members(ss, by, k)) <= total_down(ss),
        total(durations(members(ss, by, k))) <= total(durations(ss)),
        members(ss, by, k).len() <= ss.len(),
    decreases ss.len(),
{
    if ss.len() > 0 {
        lemma_totals_le(ss.drop_last(), by, k);
        let m = members(ss.drop_last(), by, k);
        if key_of(by, ss.last()) == k {
            assert(m.push(ss.last()).drop_last() =~= m);
            match ss.last().duration_ms {
                Some(d) => {
                    assert(durations(m).push(d).drop_last() =~= durations(m));
                    assert(durations(ss.drop_last()).push(d).drop_last() =~= durations(ss.drop_last()));
                },
                None => {},
            }
        } else {
            match ss.last().duration_ms {
                Some(d) => {
                    assert(durations(ss.drop_last()).push(d).drop_last() =~= durations(ss.drop_last()));
                },
                None => {},
            }
        }
    }
}

proof fn lemma_prefix_totals_le(ss: Seq<SummaryModel>, i: int)
    requires
        0 <= i <= ss.len(),
    ensures
        total_up(ss.take(i)) <= total_up(ss),
        total_down(ss.take(i)) <= total_down(ss),
        total(durations(ss.take(i))) <= total(durations(ss)),
    decreases ss.len() - i,
{
    if i < ss.len() {
        lemma_prefix_totals_le(ss, i + 1);
        let p = ss.take(i + 1);
        assert(p.drop_last() =~= ss.take(i));
        match p.last().duration_ms {
            Some(d) => {
                assert(durations(ss.take(i)).push(d).drop_last() =~= durations(ss.take(i)));
            },
            None => {},
        }
    } else {
        assert(ss.take(i) =~= ss);
    }
}

/// The running aggregates of one key.
struct Tally {
    key: String,
    count: u64,
    bytes_up: u64,
    bytes_down: u64,
    durations: Vec<u64>,
}

/// The tally of key `k` over `p`.
spec fn tally_ok(t: Tally, p: Seq<SummaryModel>, by: BucketBy) -> bool {
    let m = members(p, by, t.key@);
    &&& t.count == m.len()
    &&& t.bytes_up == total_up(m)
    &&& t.bytes_down == total_down(m)
    &&& t.durations@ == durations(m)
    &&& key_occurs(p, by, t.key@)
}

/// The group key of a summary.
pub fn key_for(by: BucketBy, s: &SessionSummary) -> (r: String)
    ensures
        r@ == key_of(by, s@),
{
    match by {
        BucketBy::Host => match &s.host {
            Some(h) => h.clone(),
            None => "-".to_owned(),
        },
        BucketBy::Method => match &s.method {
            Some(m) => m.clone(),
            None => "-".to_owned(),
        },
        BucketBy::Status => match s.status {
            Some(st) => decimal_string(st as u64),
            None => "-".to_owned(),
        },
    }
}

fn tally_keys(
    sessions: &[SessionSummary],
    by: BucketBy,
) -> (r: Vec<Tally>)
    requires
        total_up(sessions.deep_view()) <= u64::MAX,
        total_down(sessions.deep_view()) <= u64::MAX,
    ensures
        forall|a: int| 0 <= a < r.len() ==> tally_ok(#[trigger] r@[a], sessions.deep_view(), by),
        forall|a: int, b: int| 0 <= a < b < r.len() ==> (#[trigger] r@[a]).key@ != (#[trigger] r@[b]).key@,
        forall|k: Seq<char>|
            key_occurs(sessions.deep_view(), by, k) ==> exists|a: int| 0 <= a < r.len() && (#[trigger] r@[a]).key@ == k,
{
    let ghost ss = sessions.deep_view();
    let mut tallies: Vec<Tally> = Vec::new();
    let mut i: usize = 0;
    while i < sessions.len()
        invariant
            ss == sessions.deep_view(),
            i <= sessions.len(),
            total_up(ss) <= u64::MAX,
            total_down(ss) <= u64::MAX,
            forall|a: int| 0 <= a < tallies.len() ==> tally_ok(#[trigger] tallies@[a], ss.take(i as int), by),
            forall|a: int, b: int| 0 <= a < b < tallies.len() ==> (#[trigger] tallies@[a]).key@ != (#[trigger] tallies@[b]).key@,
            forall|k: Seq<char>|
                key_occurs(ss.take(i as int), by, k) ==> exists|a: int| 0 <= a < tallies.len() && (#[trigger] tallies@[a]).key@ == k,
        decreases sessions.len() - i,
    {
        let s = &sessions[i];
        let key = key_for(by, s);
        let ghost p = ss.take(i as int);
        let ghost q = ss.take(i + 1);
        let ghost sm = ss[i as int];
        assert(s@ == sm);
        proof {
            lemma_prefix_totals_le(ss, i + 1);
        }
        let mut j: usize = 0;
        let mut found = false;
        while j < tallies.len()
            invariant_except_break
                !found,
            invariant
                j <= tallies.len(),
                forall|a: int| 0 <= a < j ==> (#[trigger] tallies@[a]).key@ != key@,
            ensures
                found ==> j < tallies.len() && tallies@[j as int].key@ == key@,
                !found ==> j == tallies.len(),
            decreases tallies.len() - j,
        {
            if same_text(tallies[j].key.as_str(), key.as_str()) {
                found = true;
                break;
            }
            j += 1;
        }
        let ghost old_tallies = tallies@;
        proof {
            assert forall|k: Seq<char>| #![auto] true implies members(q, by, k) == (if key_of(by, sm) == k {
                members(p, by, k).push(sm)
            } else {
                members(p, by, k)
            }) by {
                lemma_members_step(ss, by, k, i as int);
            }
            assert forall|k: Seq<char>| key_occurs(p, by, k) implies key_occurs(q, by, k) by {
                let w = choose|w: int| 0 <= w < p.len() && #[trigger] key_of(by, p[w]) == k;
                assert(q[w] == p[w]);
            }
            assert(q[i as int] == sm);
            assert(key_occurs(q, by, key@));
        }
        if found {
            let mut t = tallies.remove(j);
            let ghost m = members(p, by, key@);
            proof {
                lemma_totals_le(q, by, key@);
                assert(members(q, by, key@) == m.push(sm));
                assert(m.push(sm).drop_last() =~= m);
            }
            t.count = t.count + 1;
            t.bytes_up = t.bytes_up + s.bytes_up;
            t.bytes_down = t.bytes_down + s.bytes_down;
            match s.duration_ms {
                Some(d) => t.durations.push(d),
                None => {},
            }
            assert(tally_ok(t, q, by));
            tallies.insert(j, t);
            proof {
                assert forall|a: int| 0 <= a < tallies.len() implies tally_ok(#[trigger] tallies@[a], q, by) by {
                    if a != j {
                        let o = old_tallies[a];
                        assert(tallies@[a] == o);
                        assert(o.key@ != key@);
                    }
                }
                assert forall|a: int, b: int| 0 <= a < b < tallies.len() implies (#[trigger] tallies@[a]).key@ != (#[trigger] tallies@[b]).key@ by {
                    assert(tallies@[a].key@ == old_tallies[a].key@);
                    assert(tallies@[b].key@ == old_tallies[b].key@);
                }
                assert forall|k: Seq<char>| key_occurs(q, by, k) implies exists|a: int| 0 <= a < tallies.len() && (#[trigger] tallies@[a]).key@ == k by {
                    if k == key@ {
                        assert(tallies@[j as int].key@ == k);
                    } else {
                        let w = choose|w: int| 0 <= w < q.len() && #[trigger] key_of(by, q[w]) == k;
                        assert(w < i);
                        assert(p[w] == q[w]);
                        assert(key_occurs(p, by, k));
                        let a = choose|a: int| 0 <= a < old_tallies.len() && (#[trigger] old_tallies[a]).key@ == k;
                        assert(tallies@[a] == old_tallies[a]);
                    }
                }
            }
        } else {
            let mut ds: Vec<u64> = Vec::new();
            match s.duration_ms {
                Some(d) => ds.push(d),
                None => {},
            }
            proof {
                lemma_totals_le(q, by, key@);
                assert(!key_occurs(p, by, key@));
                lemma_members_empty(p, by, key@);
                assert(members(q, by, key@) == Seq::<SummaryModel>::empty().push(sm));
            }
            let t = Tally {
                key,
                count: 1,
                bytes_up: s.bytes_up,
                bytes_down: s.bytes_down,
                durations: ds,
            };
            proof {
                let e = Seq::<SummaryModel>::empty();
                assert(e.push(sm).drop_last() =~= e);
                match sm.duration_ms {
                    Some(d) => {
                        assert(ds@ =~= durations(e).push(d));
                    },
                    None => {
                        assert(ds@ =~= durations(e));
                    },
                }
                let m1 = members(q, by, key@);
                assert(m1.len() == 1);
                assert(m1.last() == sm);
                assert(m1.drop_last() =~= e);
                assert(total_up(m1) == total_up(e) + sm.bytes_up);
                assert(total_down(m1) == total_down(e) + sm.bytes_down);
                assert(t.count == m1.len());
                assert(t.bytes_up == total_up(m1));
                assert(t.bytes_down == total_down(m1));
                assert(t.durations@ == durations(m1));
                assert(key_occurs(q, by, t.key@));
            }
            assert(tally_ok(t, q, by));
            tallies.push(t);
            proof {
                assert forall|a: int| 0 <= a < tallies.len() implies tally_ok(#[trigger] tallies@[a], q, by) by {
                    if a < old_tallies.len() {
                        assert(tallies@[a] == old_tallies[a]);
                    }
                }
                assert forall|k: Seq<char>| key_occurs(q, by, k) implies exists|a: int| 0 <= a < tallies.len() && (#[trigger] tallies@[a]).key@ == k by {
                    if k == tallies@[old_tallies.len() as int].key@ {
                    } else {
                        let w = choose|w: int| 0 <= w < q.len() && #[trigger] key_of(by, q[w]) == k;
                        assert(w < i);
                        assert(p[w] == q[w]);
                        assert(key_occurs(p, by, k));
                        let a = choose|a: int| 0 <= a < old_tallies.len() && (#[trigger] old_tallies[a]).key@ == k;
                        assert(tallies@[a] == old_tallies[a]);
                    }
                }
            }
        }
        i += 1;
    }
    assert(ss.take(sessions.len() as int) =~= ss);
    tallies
}

proof fn lemma_members_empty(ss: Seq<SummaryModel>, by: BucketBy, k: Seq<char>)
    requires
        !key_occurs(ss, by, k),
    ensures
        members(ss, by, k) == Seq::<SummaryModel>::empty(),
    decreases ss.len(),
{
    if ss.len() > 0 {
        assert(key_of(by, ss[ss.len() - 1]) != k);
        assert forall|i: int| 0 <= i < ss.drop_last().len() implies #[trigger] key_of(by, ss.drop_last()[i]) != k by {
            assert(ss.drop_last()[i] == ss[i]);
        }
        lemma_members_empty(ss.drop_last(), by, k);
    }
}

/// Whether the bucket `a` is listed before the bucket `b`.
fn bucket_before_exec(a: &TrafficBucket, b: &TrafficBucket) -> (r: bool)
    ensures
        r == bucket_before(a@, b@),
{
    a.count > b.count || (a.count == b.count && id_less(&a.key, &b.key))
}

proof fn lemma_bucket_before_total(a: BucketModel, b: BucketModel)
    requires
        a.key != b.key,
    ensures
        bucket_before(a, b) || bucket_before(b, a),
{
    lemma_lex_total(a.key, b.key);
}

proof fn lemma_bucket_before_transitive(a: BucketModel, b: BucketModel, c: BucketModel)
    requires
        bucket_before(a, b),
        bucket_before(b, c),
    ensures
        bucket_before(a, c),
{
    if a.count == b.count && b.count == c.count {
        lemma_lex_transitive(a.key, b.key, c.key);
    }
}

/// The bucket is the one of its key, which occurs.
spec fn bucket_fits(ss: Seq<SummaryModel>, by: BucketBy, b: BucketModel) -> bool {
    b == bucket_of(ss, by, b.key) && key_occurs(ss, by, b.key)
}

/// Each bucket is listed before every later one.
pub open spec fn strictly_ranked(bs: Seq<BucketModel>) -> bool {
    forall|i: int, j: int| 0 <= i < j < bs.len() ==> bucket_before(#[trigger] bs[i], #[trigger] bs[j])
}

/// Puts `bucket` into the ranked list at its place.
fn insert_ranked(sorted: &mut Vec<TrafficBucket>, bucket: TrafficBucket)
    requires
        strictly_ranked(old(sorted).deep_view()),
        forall|i: int| 0 <= i < old(sorted).len() ==> (#[trigger] old(sorted).deep_view()[i]).key != bucket@.key,
    ensures
        strictly_ranked(final(sorted).deep_view()),
        exists|p: int| 0 <= p <= old(sorted).len() && final(sorted).deep_view() == old(sorted).deep_view().insert(p, bucket@),
{
    let mut p: usize = 0;
    while p < sorted.len() && bucket_before_exec(&sorted[p], &bucket)
        invariant
            p <= sorted.len(),
            forall|i: int| 0 <= i < p ==> bucket_before(#[trigger] sorted.deep_view()[i], bucket@),
        decreases sorted.len() - p,
    {
        p += 1;
    }
    let ghost before = sorted.deep_view();
    let ghost bm = bucket@;
    sorted.insert(p, bucket);
    proof {
        assert(sorted.deep_view() =~= before.insert(p as int, bm));
        before.insert_ensures(p as int, bm);
        let s2 = sorted.deep_view();
        if p < before.len() {
            assert(!bucket_before(before[p as int], bm));
            lemma_bucket_before_total(before[p as int], bm);
        }
        assert forall|i: int, j: int| 0 <= i < j < s2.len() implies bucket_before(#[trigger] s2[i], #[trigger] s2[j]) by {
            if i == p {
                if j > p + 1 {
                    lemma_bucket_before_transitive(bm, before[p as int], before[j - 1]);
                }
            }
        }
    }
}

/// The ranked buckets of all the tallies.
#[verifier::rlimit(40)]
fn rank_tallies(sessions: &[SessionSummary], by: BucketBy, tallies: Vec<Tally>) -> (r: Vec<TrafficBucket>)
    requires
        total(durations(sessions.deep_view())) <= u64::MAX,
        forall|a: int| 0 <= a < tallies.len() ==> tally_ok(#[trigger] tallies@[a], sessions.deep_view(), by),
        forall|a: int, b: int| 0 <= a < b < tallies.len() ==> (#[trigger] tallies@[a]).key@ != (#[trigger] tallies@[b]).key@,
    ensures
        r.len() == tallies.len(),
        strictly_ranked(r.deep_view()),
        forall|i: int| 0 <= i < r.len() ==> bucket_fits(sessions.deep_view(), by, #[trigger] r.deep_view()[i]),
        forall|a: int| 0 <= a < tallies.len() ==> r.deep_view().contains(bucket_of(sessions.deep_view(), by, (#[trigger] tallies@[a]).key@)),
{
    let ghost ss = sessions.deep_view();
    let mut tallies = tallies;
    let n = tallies.len();
    let ghost all = tallies@;
    let mut sorted: Vec<TrafficBucket> = Vec::new();
    let mut done: usize = 0;
    while tallies.len() > 0
        invariant
            ss == sessions.deep_view(),
            total(durations(ss)) <= u64::MAX,
            done + tallies.len() == n,
            all.len() == n,
            sorted.len() == done,
            tallies@ == all.subrange(done as int, n as int),
            forall|a: int| 0 <= a < n ==> tally_ok(#[trigger] all[a], ss, by),
            forall|a: int, b: int| 0 <= a < b < n ==> (#[trigger] all[a]).key@ != (#[trigger] all[b]).key@,
            strictly_ranked(sorted.deep_view()),
            forall|i: int| 0 <= i < sorted.len() ==> bucket_fits(ss, by, #[trigger] sorted.deep_view()[i]),
            forall|a: int| 0 <= a < done ==> sorted.deep_view().contains(bucket_of(ss, by, (#[trigger] all[a]).key@)),
            forall|i: int| 0 <= i < sorted.len() ==> exists|a: int| 0 <= a < done && (#[trigger] sorted.deep_view()[i]).key == (#[trigger] all[a]).key@,
        decreases tallies.len(),
    {
        let t = tallies.remove(0);
        let ghost ta = all[done as int];
        assert(t == ta);
        proof {
            lemma_totals_le(ss, by, t.key@);
        }
        let average = average_u64(t.durations.as_slice());
        let bucket = TrafficBucket {
            key: t.key,
            count: t.count,
            bytes_up: t.bytes_up,
            bytes_down: t.bytes_down,
            average_duration_ms: average,
        };
        let ghost bm = bucket@;
        assert(bucket_fits(ss, by, bm));
        proof {
            assert forall|i: int| 0 <= i < sorted.len() implies (#[trigger] sorted.deep_view()[i]).key != bm.key by {
                let a = choose|a: int| 0 <= a < done && (#[trigger] sorted.deep_view()[i]).key == (#[trigger] all[a]).key@;
                assert(all[a].key@ != all[done as int].key@);
            }
        }
        let ghost before = sorted.deep_view();
        insert_ranked(&mut sorted, bucket);
        proof {
            let p = choose|p: int| 0 <= p <= before.len() && sorted.deep_view() == before.insert(p, bm);
            before.insert_ensures(p, bm);
            let s2 = sorted.deep_view();
            assert forall|i: int| 0 <= i < s2.len() implies bucket_fits(ss, by, #[trigger] s2[i]) by {
                if i > p {
                    assert(s2[i] == before[i - 1]);
                }
            }
            assert forall|a: int| 0 <= a < done + 1 implies s2.contains(bucket_of(ss, by, (#[trigger] all[a]).key@)) by {
                if a == done {
                    assert(s2[p] == bm);
                } else {
                    let i = choose|i: int| 0 <= i < before.len() && before[i] == bucket_of(ss, by, all[a].key@);
                    if i < p {
                        assert(s2[i] == before[i]);
                    } else {
                        assert(s2[i + 1] == before[i]);
                    }
                }
            }
            assert forall|i: int| 0 <= i < s2.len() implies exists|a: int| 0 <= a < done + 1 && (#[trigger] s2[i]).key == (#[trigger] all[a]).key@ by {
                if i == p {
                    assert(s2[i].key == all[done as int].key@);
                } else if i < p {
                    assert(s2[i] == before[i]);
                    let a = choose|a: int| 0 <= a < done && (#[trigger] before[i]).key == (#[trigger] all[a]).key@;
                } else {
                    assert(s2[i] == before[i - 1]);
                    let a = choose|a: int| 0 <= a < done && (#[trigger] before[i - 1]).key == (#[trigger] all[a]).key@;
                }
            }
            assert(tallies@ =~= all.subrange(done + 1, n as int));
        }
        done += 1;
    }
    sorted
}

/// The listed buckets of the summaries grouped by `by`: one per key, with
/// its count, bytes and mean duration, by descending count then ascending
/// key, at most twelve.
pub fn buckets_by(sessions: &[SessionSummary], by: BucketBy) -> (r: Vec<TrafficBucket>)
    requires
        total_up(sessions.deep_view()) <= u64::MAX,
        total_down(sessions.deep_view()) <= u64::MAX,
        total(durations(sessions.deep_view())) <= u64::MAX,
    ensures
        are_listed_buckets(sessions.deep_view(), by, r.deep_view()),
{
    let ghost ss = sessions.deep_view();
    let tallies = tally_keys(sessions, by);
    let ghost all = tallies@;
    let mut sorted = rank_tallies(sessions, by, tallies);
    let ghost full = sorted.deep_view();
    sorted.truncate(12);
    proof {
        let bs = sorted.deep_view();
        assert(bs =~= (if full.len() <= 12 { full } else { full.subrange(0, 12) }));
        assert forall|k: Seq<char>|
            key_occurs(ss, by, k) && !(exists|i: int| 0 <= i < bs.len() && #[trigger] bs[i].key == k)
            implies bs.len() == bucket_limit() && forall|i: int|
                0 <= i < bs.len() ==> bucket_before(#[trigger] bs[i], bucket_of(ss, by, k)) by {
            let a = choose|a: int| 0 <= a < all.len() && (#[trigger] all[a]).key@ == k;
            assert(full.contains(bucket_of(ss, by, all[a].key@)));
            let j = choose|j: int| 0 <= j < full.len() && full[j] == bucket_of(ss, by, k);
            if j < 12 {
                assert(bs[j] == full[j]);
            }
            assert forall|i: int| 0 <= i < bs.len() implies bucket_before(#[trigger] bs[i], bucket_of(ss, by, k)) by {
                assert(bs[i] == full[i]);
            }
        }
    }
    sorted
}

/// The values are in ascending order.
pub open spec fn ascending(values: Seq<u64>) -> bool {
    forall|i: int, j: int| 0 <= i < j < values.len() ==> #[trigger] values[i] <= #[trigger] values[j]
}

/// The values in ascending order.
pub fn sort_ascending(values: Vec<u64>) -> (r: Vec<u64>)
    ensures
        ascending(r@),
        r@.to_multiset() == values@.to_multiset(),
{
    let mut values = values;
    let ghost input = values@;
    let n = values.len();
    let mut sorted: Vec<u64> = Vec::new();
    let mut taken: usize = 0;
    assert(sorted@ =~= input.subrange(0, 0));
    assert(values@ =~= input.subrange(0, n as int));
    while values.len() > 0
        invariant
            input.len() == n,
            taken + values.len() == n,
            values@ == input.subrange(taken as int, n as int),
            ascending(sorted@),
            sorted@.to_multiset() == input.subrange(0, taken as int).to_multiset(),
        decreases values.len(),
    {
        let v = values.remove(0);
        assert(v == input[taken as int]);
        let mut p: usize = 0;
        while p < sorted.len() && sorted[p] <= v
            invariant
                p <= sorted.len(),
                forall|i: int| 0 <= i < p ==> sorted@[i] <= v,
            decreases sorted.len() - p,
        {
            p += 1;
        }
        let ghost before = sorted@;
        sorted.insert(p, v);
        proof {
            before.insert_ensures(p as int, v);
            vstd::seq_lib::to_multiset_insert(before, p as int, v);
            vstd::seq_lib::to_multiset_build(input.subrange(0, taken as int), v);
            assert(input.subrange(0, taken + 1) =~= input.subrange(0, taken as int).push(v));
            assert(values@ =~= input.subrange(taken + 1, n as int));
        }
        taken += 1;
    }
    assert(input.subrange(0, n as int) =~= input);
    sorted
}

/// The known durations of the summaries, in order.
pub fn collect_durations(sessions: &[SessionSummary]) -> (r: Vec<u64>)
    ensures
        r@ == durations(sessions.deep_view()),
{
    let ghost ss = sessions.deep_view();
    let mut out: Vec<u64> = Vec::new();
    let mut i: usize = 0;
    while i < sessions.len()
        invariant
            ss == sessions.deep_view(),
            i <= sessions.len(),
            out@ == durations(ss.take(i as int)),
        decreases sessions.len() - i,
    {
        assert(ss.take(i + 1).drop_last() =~= ss.take(i as int));
        assert(ss.take(i + 1).last() == sessions[i as int]@);
        match sessions[i].duration_ms {
            Some(d) => out.push(d),
            None => {},
        }
        i += 1;
    }
    assert(ss.take(sessions.len() as int) =~= ss);
    out
}

fn sum_bytes(sessions: &[SessionSummary]) -> (r: (u64, u64))
    requires
        total_up(sessions.deep_view()) <= u64::MAX,
        total_down(sessions.deep_view()) <= u64::MAX,
    ensures
        r.0 == total_up(sessions.deep_view()),
        r.1 == total_down(sessions.deep_view()),
{
    let ghost ss = sessions.deep_view();
    let mut up: u64 = 0;
    let mut down: u64 = 0;
    let mut i: usize = 0;
    while i < sessions.len()
        invariant
            ss == sessions.deep_view(),
            i <= sessions.len(),
            total_up(ss) <= u64::MAX,
            total_down(ss) <= u64::MAX,
            up == total_up(ss.take(i as int)),
            down == total_down(ss.take(i as int)),
        decreases sessions.len() - i,
    {
        assert(ss.take(i + 1).drop_last() =~= ss.take(i as int));
        assert(ss.take(i + 1).last() == sessions[i as int]@);
        proof {
            lemma_prefix_totals_le(ss, i + 1);
        }
        up = up + sessions[i].bytes_up;
        down = down + sessions[i].bytes_down;
        i += 1;
    }
    assert(ss.take(sessions.len() as int) =~= ss);
    (up, down)
}

/// The value at the given percentile of ascending values, as
/// `percentile_u64` gives it.
pub open spec fn percentile_of(values: Seq<u64>, percentile: nat) -> Option<u64> {
    if values.len() == 0 || percentile_index(values.len(), percentile) >= values.len() {
        None
    } else {
        Some(values[percentile_index(values.len(), percentile)])
    }
}

/// Aggregates over the summaries: their number, bytes both ways, the mean
/// and the 95th percentile of their known durations, and the listed buckets
/// by host, method and status.
pub fn traffic_overview(sessions: &[SessionSummary]) -> (r: TrafficOverview)
    requires
        total_up(sessions.deep_view()) <= u64::MAX,
        total_down(sessions.deep_view()) <= u64::MAX,
        total(durations(sessions.deep_view())) <= u64::MAX,
        sessions@.len() * 95 <= usize::MAX,
    ensures
        r.total_sessions == sessions@.len(),
        r.total_bytes_up == total_up(sessions.deep_view()),
        r.total_bytes_down == total_down(sessions.deep_view()),
        r.average_duration_ms == mean(durations(sessions.deep_view())),
        exists|t: Seq<u64>|
            ascending(t) && t.to_multiset() == durations(sessions.deep_view()).to_multiset()
                && r.p95_duration_ms == percentile_of(t, 95),
        are_listed_buckets(sessions.deep_view(), BucketBy::Host, r.by_host.deep_view()),
        are_listed_buckets(sessions.deep_view(), BucketBy::Method, r.by_method.deep_view()),
        are_listed_buckets(sessions.deep_view(), BucketBy::Status, r.by_status.deep_view()),
{
    let (up, down) = sum_bytes(sessions);
    let ds = collect_durations(sessions);
    let average = average_u64(ds.as_slice());
    let ghost dm = ds@;
    let sorted = sort_ascending(ds);
    proof {
        vstd::seq_lib::to_multiset_len(sorted@);
        vstd::seq_lib::to_multiset_len(dm);
        assert(sorted@.len() == dm.len());
        lemma_durations_len(sessions.deep_view());
    }
    let p95 = percentile_u64(sorted.as_slice(), 95);
    assert(p95 == percentile_of(sorted@, 95));
    TrafficOverview {
        total_sessions: sessions.len() as u64,
        total_bytes_up: up,
        total_bytes_down: down,
        average_duration_ms: average,
        p95_duration_ms: p95,
        by_host: buckets_by(sessions, BucketBy::Host),
        by_method: buckets_by(sessions, BucketBy::Method),
        by_status: buckets_by(sessions, BucketBy::Status),
    }
}

proof fn lemma_durations_len(ss: Seq<SummaryModel>)
    ensures
        durations(ss).len() <= ss.len(),
    decreases ss.len(),
{
    if ss.len() > 0 {
        lemma_durations_len(ss.drop_last());
    }
}

// ---------------------------------------------------------------------------
// The store and its session rows
// ---------------------------------------------------------------------------

/// A session store kept in the SQLite database at a path.
pub struct SqliteStore {
    db_path: String,
}

impl SqliteStore {
    /// The path of the database file.
    pub closed spec fn path(&self) -> Seq<char> {
        self.db_path@
    }

    /// A store for the database at `db_path`.
    pub fn at(db_path: &str) -> (r: Self)
        ensures
            r.path() == db_path@,
    {
        SqliteStore { db_path: db_path.to_owned() }
    }

    /// The path of the database file.
    pub fn db_path(&self) -> (r: &str)
        ensures
            r@ == self.path(),
    {
        self.db_path.as_str()
    }
}

impl Clone for SqliteStore {
    /// A store for the same database.
    fn clone(&self) -> (r: Self)
        ensures
            r.path() == self.path(),
    {
        SqliteStore { db_path: self.db_path.clone() }
    }
}

/// The columns of a `sessions` row.
pub struct SessionRow {
    pub id: String,
    pub kind: String,
    pub state: String,
    pub started_at: String,
    pub ended_at: Option<String>,
    pub duration_ms: Option<i64>,
    pub method: Option<String>,
    pub url: Option<String>,
    pub scheme: Option<String>,
    pub host: Option<String>,
    pub port: Option<i64>,
    pub path: Option<String>,
    pub status: Option<i64>,
    pub bytes_up: i64,
    pub bytes_down: i64,
    pub error: Option<String>,
    pub matched_rule_ids: String,
    pub created_at: String,
}

#[verifier::ext_equal]
pub ghost struct RowModel {
    pub id: Seq<char>,
    pub kind: Seq<char>,
    pub state: Seq<char>,
    pub started_at: Seq<char>,
    pub ended_at: Option<Seq<char>>,
    pub duration_ms: Option<i64>,
    pub method: Option<Seq<char>>,
    pub url: Option<Seq<char>>,
    pub scheme: Option<Seq<char>>,
    pub host: Option<Seq<char>>,
    pub port: Option<i64>,
    pub path: Option<Seq<char>>,
    pub status: Option<i64>,
    pub bytes_up: i64,
    pub bytes_down: i64,
    pub error: Option<Seq<char>>,
    pub matched_rule_ids: Seq<char>,
    pub created_at: Seq<char>,
}

impl View for SessionRow {
    type V = RowModel;

    open spec fn view(&self) -> RowModel {
        RowModel {
            id: self.id@,
            kind: self.kind@,
            state: self.state@,
            started_at: self.started_at@,
            ended_at: self.ended_at.deep_view(),
            duration_ms: self.duration_ms,
            method: self.method.deep_view(),
            url: self.url.deep_view(),
            scheme: self.scheme.deep_view(),
            host: self.host.deep_view(),
            port: self.port,
            path: self.path.deep_view(),
            status: self.status,
            bytes_up: self.bytes_up,
            bytes_down: self.bytes_down,
            error: self.error.deep_view(),
            matched_rule_ids: self.matched_rule_ids@,
            created_at: self.created_at@,
        }
    }
}

/// What the `sessions` row keeps of a session: all but its details (headers,
/// bodies, gRPC metadata and trailers, timeline and frames), which are
/// stored apart.
pub open spec fn row_part(s: SessionModel) -> SessionModel {
    SessionModel {
        request_headers: Seq::empty(),
        response_headers: Seq::empty(),
        request_body: BodyPreview::empty_model(),
        response_body: BodyPreview::empty_model(),
        grpc_request_metadata: Seq::empty(),
        grpc_response_metadata: Seq::empty(),
        grpc_request_trailers: Seq::empty(),
        grpc_response_trailers: Seq::empty(),
        timeline: Seq::empty(),
        websocket_frames: Seq::empty(),
        ..s
    }
}

/// The session read back from a row alone, or the message of the first of
/// its id, kind, state, start and end that does not decode. Narrower
/// integers are converted with `as`, byte counts clamped at zero, and rule
/// ids that do not decode read as none.
pub open spec fn stored_session(row: RowModel) -> Result<SessionModel, Seq<char>> {
    match uuid_from_text(row.id) {
        Err(m) => Err(m),
        Ok(id) => match kind_of_text(row.kind) {
            None => Err("unknown session kind: "@ + row.kind),
            Some(kind) => match state_of_text(row.state) {
                None => Err("unknown session state: "@ + row.state),
                Some(state) => match instant_from_text(row.started_at) {
                    Err(m) => Err(m),
                    Ok(started) => match stored_end(row.ended_at) {
                        Err(m) => Err(m),
                        Ok(ended_at) => Ok(
                            SessionModel {
                                state,
                                ended_at,
                                duration_ms: match row.duration_ms {
                                    Some(v) => Some(v as u64),
                                    None => None,
                                },
                                method: row.method,
                                url: row.url,
                                scheme: row.scheme,
                                host: row.host,
                                port: match row.port {
                                    Some(v) => Some(v as u16),
                                    None => None,
                                },
                                path: row.path,
                                status: match row.status {
                                    Some(v) => Some(v as u16),
                                    None => None,
                                },
                                bytes_up: clamp_count(row.bytes_up),
                                bytes_down: clamp_count(row.bytes_down),
                                error: row.error,
                                matched_rule_ids: match json_string_list_parsed(
                                    row.matched_rule_ids,
                                ) {
                                    Some(v) => v,
                                    None => Seq::empty(),
                                },
                                ..CapturedSession::fresh_model(kind, id, started as i128)
                            },
                        ),
                    },
                },
            },
        },
    }
}

/// The end instant read back from its column: none, the instant, or the
/// message of the parse error.
pub open spec fn stored_end(text: Option<Seq<char>>) -> Result<Option<Instant>, Seq<char>> {
    match text {
        None => Ok(None),
        Some(t) => match instant_from_text(t) {
            Ok(v) => Ok(Some(v as i128)),
            Err(m) => Err(m),
        },
    }
}

/// The integer column of an optional count, converted with `as`.
pub open spec fn opt_u64_column(v: Option<u64>) -> Option<i64> {
    match v {
        Some(x) => Some(x as i64),
        None => None,
    }
}

/// The integer column of an optional 16-bit value.
pub open spec fn opt_u16_column(v: Option<u16>) -> Option<i64> {
    match v {
        Some(x) => Some(x as i64),
        None => None,
    }
}

/// `row` is the `sessions` row that stores session `s`, written at instant
/// `created_at`: the id as UUID text, kind and state by name, instants as
/// RFC 3339, counts converted with `as`, rule ids as a JSON array.
pub open spec fn row_stores(row: RowModel, s: SessionModel, created_at: int) -> bool {
    &&& row.id == uuid_text(s.id)
    &&& row.kind == kind_text(s.kind)
    &&& row.state == state_text(s.state)
    &&& Some(row.started_at) == instant_rfc3339(s.started_at as int)
    &&& row.ended_at == (match s.ended_at {
        Some(e) => instant_rfc3339(e as int),
        None => None,
    })
    &&& row.duration_ms == opt_u64_column(s.duration_ms)
    &&& row.method == s.method
    &&& row.url == s.url
    &&& row.scheme == s.scheme
    &&& row.host == s.host
    &&& row.port == opt_u16_column(s.port)
    &&& row.path == s.path
    &&& row.status == opt_u16_column(s.status)
    &&& row.bytes_up == s.bytes_up as i64
    &&& row.bytes_down == s.bytes_down as i64
    &&& row.error == s.error
    &&& row.matched_rule_ids == json_string_list(s.matched_rule_ids)
    &&& Some(row.created_at) == instant_rfc3339(created_at)
}

/// The columns of a `sessions` row that a summary is read from.
pub open spec fn summary_columns(row: RowModel) -> SummaryRowModel {
    SummaryRowModel {
        id: row.id,
        kind: row.kind,
        state: row.state,
        started_at: row.started_at,
        method: row.method,
        url: row.url,
        host: row.host,
        status: row.status,
        duration_ms: row.duration_ms,
        bytes_up: row.bytes_up,
        bytes_down: row.bytes_down,
        matched_rule_ids: row.matched_rule_ids,
    }
}

fn opt_instant_text(v: Option<Instant>) -> (r: Result<Option<String>, StoreError>)
    ensures
        match v {
            None => r matches Ok(None),
            Some(ms) => match instant_rfc3339(ms as int) {
                Some(t) => r matches Ok(Some(s)) && s@ == t
                    && (four_digit_year(ms as int) ==> reads_as_instant(t, ms as int)),
                None => (r matches Err(StoreError::Serialization(m)) && m@ == "instant out of range"@),
            },
        },
{
    match v {
        None => Ok(None),
        Some(ms) => match instant_text(ms) {
            Some(t) => Ok(Some(t)),
            None => Err(StoreError::Serialization("instant out of range".to_owned())),
        },
    }
}

/// The `sessions` row that stores `session`, written at instant
/// `created_at`: the id as UUID text, kind and state by name, instants as
/// RFC 3339, counts converted with `as`, rule ids as a JSON array. An
/// instant that has no date is a serialization error. The row reads back as
/// the session, less its details, when its byte counts fit in `i64` and its
/// start and end fall in the years 0000 to 9999.
pub fn session_row(session: &CapturedSession, created_at: Instant) -> (r: Result<SessionRow, StoreError>)
    ensures
        (instant_rfc3339(session.started_at as int) is Some && instant_rfc3339(created_at as int) is Some
            && (session.ended_at matches Some(e) ==> instant_rfc3339(e as int) is Some)) <==> r is Ok,
        r is Err ==> (r matches Err(StoreError::Serialization(m)) && m@ == "instant out of range"@),
        r matches Ok(row) ==> row_stores(row@, session@, created_at as int),
        match r {
            Ok(row) => session.bytes_up <= i64::MAX && session.bytes_down <= i64::MAX
                && four_digit_year(session.started_at as int)
                && (session.ended_at matches Some(e) ==> four_digit_year(e as int))
                ==> (stored_session(row@) matches Ok(s) && s == row_part(session@)),
            Err(_) => true,
        },
        match r {
            Ok(row) => session.bytes_up <= i64::MAX && session.bytes_down <= i64::MAX
                && four_digit_year(session.started_at as int)
                ==> stored_summary(summary_columns(row@)) == Ok::<SummaryModel, Seq<char>>(
                summary_of(session@),
            ),
            Err(_) => true,
        },
{
    let started_at = match instant_text(session.started_at) {
        Some(t) => t,
        None => {
            return Err(StoreError::Serialization("instant out of range".to_owned()));
        },
    };
    let ended_at = opt_instant_text(session.ended_at)?;
    let created = match instant_text(created_at) {
        Some(t) => t,
        None => {
            return Err(StoreError::Serialization("instant out of range".to_owned()));
        },
    };
    let row = SessionRow {
        id: session_id_text(session.id),
        kind: kind_name(session.kind).to_owned(),
        state: state_name(session.state).to_owned(),
        started_at,
        ended_at,
        duration_ms: match session.duration_ms {
            Some(v) => Some(v as i64),
            None => None,
        },
        method: session.method.clone(),
        url: session.url.clone(),
        scheme: session.scheme.clone(),
        host: session.host.clone(),
        port: match session.port {
            Some(v) => Some(v as i64),
            None => None,
        },
        path: session.path.clone(),
        status: match session.status {
            Some(v) => Some(v as i64),
            None => None,
        },
        bytes_up: session.bytes_up as i64,
        bytes_down: session.bytes_down as i64,
        error: session.error.clone(),
        matched_rule_ids: string_list_json(&session.matched_rule_ids),
        created_at: created,
    };
    proof {
        let d = session.duration_ms;
        if d is Some {
            let v = d->0;
            assert(((v as i64) as u64) == v) by (bit_vector);
        }
        if session.bytes_up <= i64::MAX && session.bytes_down <= i64::MAX
            && four_digit_year(session.started_at as int)
            && (session.ended_at matches Some(e) ==> four_digit_year(e as int)) {
            law_kind_text_round_trip(session.kind);
            law_state_text_round_trip(session.state);
            assert(uuid_from_text(row@.id) matches Ok(v) && v == session.id);
            assert(reads_as_instant(row@.started_at, session.started_at as int));
            assert(clamp_count(row@.bytes_up) == session.bytes_up);
            assert(clamp_count(row@.bytes_down) == session.bytes_down);
            assert(json_string_list_parsed(row@.matched_rule_ids) == Some(session@.matched_rule_ids));
            assert(stored_session(row@) matches Ok(m) && m =~= row_part(session@));
        }
        if session.bytes_up <= i64::MAX && session.bytes_down <= i64::MAX
            && four_digit_year(session.started_at as int) {
            law_kind_text_round_trip(session.kind);
            law_state_text_round_trip(session.state);
            assert(uuid_from_text(row@.id) matches Ok(v) && v == session.id);
            assert(reads_as_instant(row@.started_at, session.started_at as int));
            assert(clamp_count(row@.bytes_up) == session.bytes_up);
            assert(clamp_count(row@.bytes_down) == session.bytes_down);
            assert(json_string_list_parsed(row@.matched_rule_ids) == Some(session@.matched_rule_ids));
            assert(stored_summary(summary_columns(row@)) matches Ok(m) && m =~= summary_of(session@));
        }
    }
    Ok(row)
}

fn opt_instant(v: &Option<String>) -> (r: Result<Option<Instant>, StoreError>)
    ensures
        match stored_end(v.deep_view()) {
            Ok(x) => r matches Ok(y) && y == x,
            Err(m) => r matches Err(StoreError::Serialization(e)) && e@ == m,
        },
{
    match v {
        None => Ok(None),
        Some(t) => match parse_instant(t.as_str()) {
            Ok(ms) => Ok(Some(ms)),
            Err(m) => Err(StoreError::Serialization(m)),
        },
    }
}

/// The session read back from its `sessions` row alone, with no headers and
/// empty bodies (see `stored_session`); a column that does not decode is a
/// serialization error.
pub fn session_from_row(row: &SessionRow) -> (r: Result<CapturedSession, StoreError>)
    ensures
        match stored_session(row@) {
            Ok(s) => (r matches Ok(x) && x@ == s),
            Err(m) => (r matches Err(StoreError::Serialization(e)) && e@ == m),
        },
{
    let id = match parse_session_id(row.id.as_str()) {
        Ok(v) => v,
        Err(m) => {
            return Err(StoreError::Serialization(m));
        },
    };
    let kind = parse_kind(row.kind.as_str())?;
    let state = parse_state(row.state.as_str())?;
    let started_at = match parse_instant(row.started_at.as_str()) {
        Ok(v) => v,
        Err(m) => {
            return Err(StoreError::Serialization(m));
        },
    };
    let ended_at = opt_instant(&row.ended_at)?;
    let matched = match parse_string_list(row.matched_rule_ids.as_str()) {
        Some(v) => v,
        None => Vec::new(),
    };
    let mut s = CapturedSession::with_identity(kind, id, started_at);
    s.state = state;
    s.ended_at = ended_at;
    s.duration_ms = match row.duration_ms {
        Some(v) => Some(v as u64),
        None => None,
    };
    s.method = row.method.clone();
    s.url = row.url.clone();
    s.scheme = row.scheme.clone();
    s.host = row.host.clone();
    s.port = match row.port {
        Some(v) => Some(v as u16),
        None => None,
    };
    s.path = row.path.clone();
    s.status = match row.status {
        Some(v) => Some(v as u16),
        None => None,
    };
    s.bytes_up = clamp_count_exec(row.bytes_up);
    s.bytes_down = clamp_count_exec(row.bytes_down);
    s.error = row.error.clone();
    s.matched_rule_ids = matched;
    Ok(s)
}

// ---------------------------------------------------------------------------
// Collection rows
// ---------------------------------------------------------------------------

/// The columns of a `collections` row but for its items, which are stored
/// as JSON apart.
pub struct CollectionRow {
    pub id: String,
    pub name: String,
    pub description: Option<String>,
    pub created_at: String,
    pub updated_at: String,
}

/// The row of `collection`, but for its items: id, name and description as
/// they are, instants as RFC 3339. An instant that has no date is a
/// serialization error. Instants in the years 0000 to 9999 read back.
pub fn collection_row(collection: &RequestCollection) -> (r: Result<CollectionRow, StoreError>)
    ensures
        (instant_rfc3339(collection.created_at as int) is Some && instant_rfc3339(
            collection.updated_at as int,
        ) is Some) <==> r is Ok,
        r is Err ==> (r matches Err(StoreError::Serialization(m)) && m@ == "instant out of range"@),
        r matches Ok(row) ==> {
            &&& row.id@ == collection@.id
            &&& row.name@ == collection@.name
            &&& row.description.deep_view() == collection@.description
            &&& Some(row.created_at@) == instant_rfc3339(collection.created_at as int)
            &&& Some(row.updated_at@) == instant_rfc3339(collection.updated_at as int)
            &&& four_digit_year(collection.created_at as int) ==> reads_as_instant(
                row.created_at@,
                collection.created_at as int,
            )
            &&& four_digit_year(collection.updated_at as int) ==> reads_as_instant(
                row.updated_at@,
                collection.updated_at as int,
            )
        },
{
    let created_at = match instant_text(collection.created_at) {
        Some(t) => t,
        None => {
            return Err(StoreError::Serialization("instant out of range".to_owned()));
        },
    };
    let updated_at = match instant_text(collection.updated_at) {
        Some(t) => t,
        None => {
            return Err(StoreError::Serialization("instant out of range".to_owned()));
        },
    };
    Ok(
        CollectionRow {
            id: collection.id.clone(),
            name: collection.name.clone(),
            description: collection.description.clone(),
            created_at,
            updated_at,
        },
    )
}

/// The collection read from its row and its items as decoded from JSON: a
/// failure to decode the items, then the creation instant, then the update
/// instant, is a serialization error with its message.
pub fn collection_from_row(row: CollectionRow, items: Result<Vec<CollectionItem>, String>) -> (r:
    Result<RequestCollection, StoreError>)
    ensures
        match items {
            Err(m) => (r matches Err(StoreError::Serialization(e)) && e@ == m@),
            Ok(items) => match instant_from_text(row.created_at@) {
                Err(m) => (r matches Err(StoreError::Serialization(e)) && e@ == m),
                Ok(c) => match instant_from_text(row.updated_at@) {
                    Err(m) => (r matches Err(StoreError::Serialization(e)) && e@ == m),
                    Ok(u) => (r matches Ok(x) && x@ == (CollectionModel {
                        id: row.id@,
                        name: row.name@,
                        description: row.description.deep_view(),
                        items: items.deep_view(),
                        created_at: c as i128,
                        updated_at: u as i128,
                    })),
                },
            },
        },
{
    let items = match items {
        Ok(v) => v,
        Err(m) => {
            return Err(StoreError::Serialization(m));
        },
    };
    let created_at = match parse_instant(row.created_at.as_str()) {
        Ok(t) => t,
        Err(m) => {
            return Err(StoreError::Serialization(m));
        },
    };
    let updated_at = match parse_instant(row.updated_at.as_str()) {
        Ok(t) => t,
        Err(m) => {
            return Err(StoreError::Serialization(m));
        },
    };
    let c = RequestCollection {
        id: row.id,
        name: row.name,
        description: row.description,
        items,
        created_at,
        updated_at,
    };
    assert(c@.items =~= c.items.deep_view());
    Ok(c)
}

} // verus!
