//! The rule engine: which rules match a session, in which order they run,
//! and what they ask of a request or a response.
use vstd::prelude::*;

use crate::error::RuleError;
use crate::model::{
    ActionModel, CapturedSession, HeaderModel, HeaderPair, MatchModel, RequestContext,
    ResponseContext, Rule, RuleAction, RuleMatch, RuleModel, SessionModel, copy_headers,
};
use crate::text::{
    chars_of, eq_ignore_ascii_case, eq_ignore_case, lower_seq, seq_contains, str_contains, trim,
    trim_seq,
};

verus! {

// ---------------------------------------------------------------------------
// Matching
// ---------------------------------------------------------------------------

/// Whether the match conditions `m` hold for session `s`: the method equals
/// up to ASCII case, the host and the URL contain the given text, the status
/// is the given one. A condition on a field that the session lacks fails.
pub open spec fn match_holds(m: MatchModel, s: SessionModel) -> bool {
    &&& (m.method matches Some(want) ==> (s.method matches Some(have) && eq_ignore_case(
        have,
        want,
    )))
    &&& (m.host matches Some(want) ==> (s.host matches Some(have) && seq_contains(have, want)))
    &&& (m.url_contains matches Some(want) ==> (s.url matches Some(have) && seq_contains(
        have,
        want,
    )))
    &&& (m.status matches Some(want) ==> s.status == Some(want))
}

/// Whether rule `r` takes part for session `s`: it is enabled and matches.
pub open spec fn rule_applies(r: RuleModel, s: SessionModel) -> bool {
    r.enabled && match_holds(r.match_, s)
}

fn opt_text_contains(have: &Option<String>, want: &String) -> (r: bool)
    ensures
        r == (have.deep_view() matches Some(h) && seq_contains(h, want@)),
{
    match have {
        Some(h) => str_contains(h.as_str(), want.as_str()),
        None => false,
    }
}

/// Whether the match conditions of `rule` hold for `session`; the enabled
/// flag is not consulted.
pub fn matches_request(rule: &Rule, session: &CapturedSession) -> (r: bool)
    ensures
        r == match_holds(rule.match_@, session@),
{
    let matcher = &rule.match_;
    if let Some(method) = &matcher.method {
        let ok = match &session.method {
            Some(m) => eq_ignore_ascii_case(m.as_str(), method.as_str()),
            None => false,
        };
        if !ok {
            return false;
        }
    }
    if let Some(host) = &matcher.host {
        if !opt_text_contains(&session.host, host) {
            return false;
        }
    }
    if let Some(url_contains) = &matcher.url_contains {
        if !opt_text_contains(&session.url, url_contains) {
            return false;
        }
    }
    if let Some(status) = matcher.status {
        match session.status {
            Some(s) => {
                if s != status {
                    return false;
                }
            },
            None => {
                return false;
            },
        }
    }
    true
}

// ---------------------------------------------------------------------------
// Results
// ---------------------------------------------------------------------------

/// What the rules that applied ask for.
#[derive(Debug)]
pub struct RuleResult {
    pub matched_rule_ids: Vec<String>,
    pub rewrite_request_headers: Vec<HeaderPair>,
    pub rewrite_response_headers: Vec<HeaderPair>,
    pub rewrite_request_trailers: Vec<HeaderPair>,
    pub rewrite_response_trailers: Vec<HeaderPair>,
    pub mock_response: Option<(u16, Vec<HeaderPair>, String)>,
    pub delay_ms: Option<u64>,
}

#[verifier::ext_equal]
pub ghost struct ResultModel {
    pub matched_rule_ids: Seq<Seq<char>>,
    pub rewrite_request_headers: Seq<HeaderModel>,
    pub rewrite_response_headers: Seq<HeaderModel>,
    pub rewrite_request_trailers: Seq<HeaderModel>,
    pub rewrite_response_trailers: Seq<HeaderModel>,
    pub mock_response: Option<(u16, Seq<HeaderModel>, Seq<char>)>,
    pub delay_ms: Option<u64>,
}

impl View for RuleResult {
    type V = ResultModel;

    open spec fn view(&self) -> ResultModel {
        ResultModel {
            matched_rule_ids: self.matched_rule_ids.deep_view(),
            rewrite_request_headers: self.rewrite_request_headers.deep_view(),
            rewrite_response_headers: self.rewrite_response_headers.deep_view(),
            rewrite_request_trailers: self.rewrite_request_trailers.deep_view(),
            rewrite_response_trailers: self.rewrite_response_trailers.deep_view(),
            mock_response: match self.mock_response {
                Some((status, headers, body)) => Some((status, headers.deep_view(), body@)),
                None => None,
            },
            delay_ms: self.delay_ms,
        }
    }
}

/// The result of no rule at all.
pub open spec fn empty_result() -> ResultModel {
    ResultModel {
        matched_rule_ids: Seq::empty(),
        rewrite_request_headers: Seq::empty(),
        rewrite_response_headers: Seq::empty(),
        rewrite_request_trailers: Seq::empty(),
        rewrite_response_trailers: Seq::empty(),
        mock_response: None,
        delay_ms: None,
    }
}

impl Default for RuleResult {
    fn default() -> (r: Self)
        ensures
            r@ == empty_result(),
    {
        let r = RuleResult {
            matched_rule_ids: Vec::new(),
            rewrite_request_headers: Vec::new(),
            rewrite_response_headers: Vec::new(),
            rewrite_request_trailers: Vec::new(),
            rewrite_response_trailers: Vec::new(),
            mock_response: None,
            delay_ms: None,
        };
        assert(r@ =~= empty_result());
        r
    }
}

/// The effect of one applying rule on the result, on the request side:
/// its id is recorded; request header rewrites accumulate; a mock response
/// or a delay replaces an earlier one; response rewrites are ignored.
pub open spec fn request_step(acc: ResultModel, r: RuleModel) -> ResultModel {
    let acc = ResultModel { matched_rule_ids: acc.matched_rule_ids.push(r.id), ..acc };
    match r.action {
        ActionModel::RewriteRequestHeaders { headers } => ResultModel {
            rewrite_request_headers: acc.rewrite_request_headers + headers,
            ..acc
        },
        ActionModel::RewriteResponseHeaders { .. } => acc,
        ActionModel::MockResponse { status, headers, body } => ResultModel {
            mock_response: Some((status, headers, body)),
            ..acc
        },
        ActionModel::Delay { millis } => ResultModel { delay_ms: Some(millis), ..acc },
    }
}

/// The effect of one applying rule on the result, on the response side:
/// like `request_step`, but response header rewrites accumulate and request
/// rewrites and mock responses are ignored.
pub open spec fn response_step(acc: ResultModel, r: RuleModel) -> ResultModel {
    let acc = ResultModel { matched_rule_ids: acc.matched_rule_ids.push(r.id), ..acc };
    match r.action {
        ActionModel::RewriteResponseHeaders { headers } => ResultModel {
            rewrite_response_headers: acc.rewrite_response_headers + headers,
            ..acc
        },
        ActionModel::Delay { millis } => ResultModel { delay_ms: Some(millis), ..acc },
        _ => acc,
    }
}

/// The result of running `rules` in order on the request side of session `s`.
pub open spec fn request_outcome(rules: Seq<RuleModel>, s: SessionModel) -> ResultModel
    decreases rules.len(),
{
    if rules.len() == 0 {
        empty_result()
    } else {
        let prev = request_outcome(rules.drop_last(), s);
        if rule_applies(rules.last(), s) {
            request_step(prev, rules.last())
        } else {
            prev
        }
    }
}

/// The result of running `rules` in order on the response side of session `s`.
pub open spec fn response_outcome(rules: Seq<RuleModel>, s: SessionModel) -> ResultModel
    decreases rules.len(),
{
    if rules.len() == 0 {
        empty_result()
    } else {
        let prev = response_outcome(rules.drop_last(), s);
        if rule_applies(rules.last(), s) {
            response_step(prev, rules.last())
        } else {
            prev
        }
    }
}

fn append_headers(dst: &mut Vec<HeaderPair>, src: &Vec<HeaderPair>)
    ensures
        final(dst).deep_view() == old(dst).deep_view() + src.deep_view(),
{
    let mut copy = copy_headers(src);
    let ghost before = dst.deep_view();
    dst.append(&mut copy);
    assert(dst.deep_view() =~= before + src.deep_view());
}

// ---------------------------------------------------------------------------
// Ordering
// ---------------------------------------------------------------------------

/// Lexicographic order of character sequences by code point, which is the
/// order of `String` (UTF-8 preserves code point order).
pub open spec fn lex_lt(a: Seq<char>, b: Seq<char>) -> bool
    decreases a.len(),
{
    if a.len() == 0 {
        b.len() > 0
    } else if b.len() == 0 {
        false
    } else if a[0] != b[0] {
        (a[0] as u32) < (b[0] as u32)
    } else {
        lex_lt(a.drop_first(), b.drop_first())
    }
}

pub proof fn lemma_lex_irreflexive(a: Seq<char>)
    ensures
        !lex_lt(a, a),
    decreases a.len(),
{
    if a.len() > 0 {
        lemma_lex_irreflexive(a.drop_first());
    }
}

pub proof fn lemma_lex_total(a: Seq<char>, b: Seq<char>)
    ensures
        lex_lt(a, b) || lex_lt(b, a) || a == b,
    decreases a.len(),
{
    if a.len() > 0 && b.len() > 0 {
        if a[0] == b[0] {
            lemma_lex_total(a.drop_first(), b.drop_first());
            if a.drop_first() == b.drop_first() {
                assert(a =~= seq![a[0]] + a.drop_first());
                assert(b =~= seq![b[0]] + b.drop_first());
            }
        } else {
            vstd::utf8::char_u32_cast(a[0], a[0] as u32);
            vstd::utf8::char_u32_cast(b[0], b[0] as u32);
            assert((a[0] as u32) != (b[0] as u32));
        }
    } else if a.len() == 0 && b.len() == 0 {
        assert(a =~= b);
    }
}

pub proof fn lemma_lex_asymmetric(a: Seq<char>, b: Seq<char>)
    ensures
        !(lex_lt(a, b) && lex_lt(b, a)),
    decreases a.len(),
{
    if a.len() > 0 && b.len() > 0 && a[0] == b[0] {
        lemma_lex_asymmetric(a.drop_first(), b.drop_first());
    }
}

pub proof fn lemma_lex_transitive(a: Seq<char>, b: Seq<char>, c: Seq<char>)
    requires
        lex_lt(a, b),
        lex_lt(b, c),
    ensures
        lex_lt(a, c),
    decreases a.len(),
{
    if a.len() > 0 && b.len() > 0 && c.len() > 0 && a[0] == b[0] && b[0] == c[0] {
        lemma_lex_transitive(a.drop_first(), b.drop_first(), c.drop_first());
    }
}

/// `a` runs no later than `b`: lower priority first, then lower id.
pub open spec fn rule_le(a: RuleModel, b: RuleModel) -> bool {
    a.priority < b.priority || (a.priority == b.priority && !lex_lt(b.id, a.id))
}

/// The rules are in running order.
pub open spec fn rules_sorted(rules: Seq<RuleModel>) -> bool {
    forall|i: int, j: int| 0 <= i < j < rules.len() ==> rule_le(#[trigger] rules[i], #[trigger] rules[j])
}

pub proof fn lemma_rule_le_total(a: RuleModel, b: RuleModel)
    ensures
        rule_le(a, b) || rule_le(b, a),
{
    lemma_lex_asymmetric(a.id, b.id);
}

pub proof fn lemma_rule_le_transitive(a: RuleModel, b: RuleModel, c: RuleModel)
    requires
        rule_le(a, b),
        rule_le(b, c),
    ensures
        rule_le(a, c),
{
    if a.priority == b.priority && b.priority == c.priority {
        lemma_lex_total(b.id, a.id);
        lemma_lex_total(c.id, b.id);
        if lex_lt(c.id, a.id) {
            lemma_lex_total(c.id, b.id);
            if lex_lt(b.id, a.id) {
            } else if b.id == a.id {
            } else {
                // a < b, and c < a gives c < b
                lemma_lex_total(a.id, b.id);
                lemma_lex_transitive(c.id, a.id, b.id);
            }
        }
    }
}

/// Whether `a` comes strictly before `b` in the order of strings
/// (lexicographic by code point).
pub fn id_less(a: &String, b: &String) -> (r: bool)
    ensures
        r == lex_lt(a@, b@),
{
    let x = chars_of(a.as_str());
    let y = chars_of(b.as_str());
    let mut i: usize = 0;
    assert(a@.skip(0) =~= a@);
    assert(b@.skip(0) =~= b@);
    while i < x.len() && i < y.len() && x[i] == y[i]
        invariant
            x@ == a@,
            y@ == b@,
            i <= x.len(),
            i <= y.len(),
            lex_lt(a@, b@) == lex_lt(a@.skip(i as int), b@.skip(i as int)),
        decreases x.len() - i,
    {
        proof {
            let sa = a@.skip(i as int);
            let sb = b@.skip(i as int);
            assert(sa.drop_first() =~= a@.skip(i + 1));
            assert(sb.drop_first() =~= b@.skip(i + 1));
        }
        i += 1;
    }
    if i == x.len() {
        i < y.len()
    } else if i == y.len() {
        false
    } else {
        (x[i] as u32) < (y[i] as u32)
    }
}

/// Whether rule `a` runs no later than rule `b`.
fn rule_le_exec(a: &Rule, b: &Rule) -> (r: bool)
    ensures
        r == rule_le(a@, b@),
{
    a.priority < b.priority || (a.priority == b.priority && !id_less(&b.id, &a.id))
}

// ---------------------------------------------------------------------------
// The engine
// ---------------------------------------------------------------------------

/// The current rules, kept in running order.
pub struct RuleEngine {
    rules: Vec<Rule>,
}

impl View for RuleEngine {
    type V = Seq<RuleModel>;

    closed spec fn view(&self) -> Seq<RuleModel> {
        self.rules.deep_view()
    }
}

impl RuleEngine {
    /// The engine's rules are in running order.
    pub closed spec fn well_formed(&self) -> bool {
        rules_sorted(self.rules.deep_view())
    }
}

impl Default for RuleEngine {
    fn default() -> (r: Self)
        ensures
            r@ == Seq::<RuleModel>::empty(),
            r.well_formed(),
    {
        let r = RuleEngine { rules: Vec::new() };
        assert(r.rules.deep_view() =~= Seq::<RuleModel>::empty());
        r
    }
}

/// `x` put into `s` after every rule that runs no later than it.
pub open spec fn insert_rule(s: Seq<RuleModel>, x: RuleModel) -> Seq<RuleModel>
    decreases s.len(),
{
    if s.len() == 0 {
        seq![x]
    } else if rule_le(s.last(), x) {
        s.push(x)
    } else {
        insert_rule(s.drop_last(), x).push(s.last())
    }
}

/// The rules in running order, as a stable sort puts them: each rule is
/// put after the earlier ones that run no later, so rules that tie keep
/// their order.
pub open spec fn running_order(rules: Seq<RuleModel>) -> Seq<RuleModel>
    decreases rules.len(),
{
    if rules.len() == 0 {
        rules
    } else {
        insert_rule(running_order(rules.drop_last()), rules.last())
    }
}

proof fn lemma_insert_rule_at(s: Seq<RuleModel>, x: RuleModel, p: int)
    requires
        0 <= p <= s.len(),
        forall|i: int| 0 <= i < p ==> rule_le(#[trigger] s[i], x),
        forall|i: int| p <= i < s.len() ==> !rule_le(#[trigger] s[i], x),
    ensures
        insert_rule(s, x) == s.insert(p, x),
    decreases s.len(),
{
    if s.len() == 0 {
        assert(s.insert(p, x) =~= seq![x]);
    } else if p == s.len() {
        assert(rule_le(s[s.len() - 1], x));
        assert(s.insert(p, x) =~= s.push(x));
    } else {
        assert(!rule_le(s[s.len() - 1], x));
        let d = s.drop_last();
        assert forall|i: int| 0 <= i < p implies rule_le(#[trigger] d[i], x) by {
            assert(d[i] == s[i]);
        }
        assert forall|i: int| p <= i < d.len() implies !rule_le(#[trigger] d[i], x) by {
            assert(d[i] == s[i]);
        }
        lemma_insert_rule_at(d, x, p);
        assert(d.insert(p, x).push(s.last()) =~= s.insert(p, x));
    }
}

/// Where `rule` goes among `sorted`: after every rule that runs no later.
fn insertion_point(sorted: &Vec<Rule>, rule: &Rule) -> (p: usize)
    requires
        rules_sorted(sorted.deep_view()),
    ensures
        p <= sorted.len(),
        forall|i: int| 0 <= i < p ==> rule_le(#[trigger] sorted.deep_view()[i], rule@),
        forall|i: int| p <= i < sorted.len() ==> !rule_le(#[trigger] sorted.deep_view()[i], rule@),
{
    let mut p: usize = sorted.len();
    while p > 0 && !rule_le_exec(&sorted[p - 1], rule)
        invariant
            p <= sorted.len(),
            rules_sorted(sorted.deep_view()),
            forall|i: int| p <= i < sorted.len() ==> !rule_le(#[trigger] sorted.deep_view()[i], rule@),
        decreases p,
    {
        p -= 1;
    }
    proof {
        if p > 0 {
            assert forall|i: int| 0 <= i < p implies rule_le(#[trigger] sorted.deep_view()[i], rule@) by {
                if i < p - 1 {
                    lemma_rule_le_transitive(sorted.deep_view()[i], sorted.deep_view()[p - 1], rule@);
                }
            }
        }
    }
    p
}

impl RuleEngine {
    /// Replaces the rules by `rules`, put in running order: ascending
    /// priority, then ascending id.
    pub fn set_rules(&mut self, rules: Vec<Rule>)
        ensures
            final(self)@ == running_order(rules.deep_view()),
            final(self).well_formed(),
            final(self)@.to_multiset() == rules.deep_view().to_multiset(),
    {
        let mut rules = rules;
        let ghost input = rules.deep_view();
        let mut sorted: Vec<Rule> = Vec::new();
        let mut taken: usize = 0;
        let n = rules.len();
        assert(sorted.deep_view() =~= input.subrange(0, 0));
        assert(rules.deep_view() =~= input.subrange(0, n as int));
        while rules.len() > 0
            invariant
                input.len() == n,
                taken + rules.len() == n,
                rules.deep_view() == input.subrange(taken as int, n as int),
                rules_sorted(sorted.deep_view()),
                sorted.deep_view().to_multiset() == input.subrange(0, taken as int).to_multiset(),
                sorted.deep_view() == running_order(input.subrange(0, taken as int)),
            decreases rules.len(),
        {
            let ghost rv = rules.deep_view();
            let ghost rs = rules@;
            let rule = rules.remove(0);
            let ghost rm = rule@;
            assert(rv[0] == rs[0].deep_view());
            assert(rm == input[taken as int]);
            assert forall|k: int| 0 <= k < rules.deep_view().len() implies #[trigger] rules.deep_view()[k]
                == input[taken + 1 + k] by {
                assert(rules@[k] == rs[k + 1]);
                assert(rv[k + 1] == rs[k + 1].deep_view());
            }
            let p = insertion_point(&sorted, &rule);
            let ghost before = sorted.deep_view();
            sorted.insert(p, rule);
            proof {
                assert(sorted.deep_view() =~= before.insert(p as int, rm));
                before.insert_ensures(p as int, rm);
                lemma_insert_rule_at(before, rm, p as int);
                assert(input.subrange(0, taken + 1).drop_last() =~= input.subrange(0, taken as int));
                assert forall|i: int, j: int|
                    0 <= i < j < sorted.deep_view().len() implies rule_le(
                    #[trigger] sorted.deep_view()[i],
                    #[trigger] sorted.deep_view()[j],
                ) by {
                    let s = sorted.deep_view();
                    if j < p {
                    } else if j == p {
                    } else if i == p {
                        lemma_rule_le_total(before[j - 1], rm);
                    } else if i < p {
                    } else {
                    }
                }
                vstd::seq_lib::to_multiset_insert(before, p as int, rm);
                vstd::seq_lib::to_multiset_build(input.subrange(0, taken as int), rm);
                assert(input.subrange(0, taken + 1) =~= input.subrange(0, taken as int).push(rm));
                assert(rules.deep_view() =~= input.subrange(taken + 1, n as int));
            }
            taken += 1;
        }
        proof {
            assert(input.subrange(0, n as int) =~= input);
        }
        self.rules = sorted;
    }

    /// A copy of the current rules, in running order.
    pub fn get_rules(&self) -> (r: Vec<Rule>)
        ensures
            r.deep_view() == self@,
    {
        let r = self.rules.clone();
        assert(r.deep_view() =~= self.rules.deep_view());
        r
    }

    /// Refuses a rule whose id or name is empty or only whitespace.
    pub fn validate_rule(rule: &Rule) -> (r: Result<(), RuleError>)
        ensures
            trim_seq(rule.id@).len() == 0 ==> (r matches Err(RuleError::InvalidRule(m)) && m@
                == "id cannot be empty"@),
            trim_seq(rule.id@).len() != 0 && trim_seq(rule.name@).len() == 0 ==> (r matches Err(
                RuleError::InvalidRule(m),
            ) && m@ == "name cannot be empty"@),
            trim_seq(rule.id@).len() != 0 && trim_seq(rule.name@).len() != 0 ==> r is Ok,
    {
        if trim(rule.id.as_str()).as_str().is_empty() {
            return Err(RuleError::InvalidRule("id cannot be empty".to_owned()));
        }
        if trim(rule.name.as_str()).as_str().is_empty() {
            return Err(RuleError::InvalidRule("name cannot be empty".to_owned()));
        }
        Ok(())
    }

    /// Runs the enabled rules that match the request's session, in running
    /// order, and records their ids in the context.
    pub fn apply_request(&self, ctx: &mut RequestContext) -> (r: RuleResult)
        ensures
            r@ == request_outcome(self@, old(ctx).session@),
            final(ctx).matched_rule_ids.deep_view() == old(ctx).matched_rule_ids.deep_view()
                + r@.matched_rule_ids,
            final(ctx).session@ == old(ctx).session@,
            final(ctx).request_headers.deep_view() == old(ctx).request_headers.deep_view(),
            final(ctx).request_body@ == old(ctx).request_body@,
            final(ctx).request_trailers.deep_view() == old(ctx).request_trailers.deep_view(),
            final(ctx).should_mock == old(ctx).should_mock,
            final(ctx).delay_ms == old(ctx).delay_ms,
            final(ctx).rewrite_request_headers.deep_view() == old(
                ctx,
            ).rewrite_request_headers.deep_view(),
            final(ctx).rewrite_request_trailers.deep_view() == old(
                ctx,
            ).rewrite_request_trailers.deep_view(),
    {
        let mut result = RuleResult::default();
        let ghost ids0 = ctx.matched_rule_ids.deep_view();
        let mut i: usize = 0;
        while i < self.rules.len()
            invariant
                i <= self.rules.len(),
                result@ == request_outcome(self.rules.deep_view().take(i as int), ctx.session@),
                ctx.matched_rule_ids.deep_view() == ids0 + result@.matched_rule_ids,
                ctx.session@ == old(ctx).session@,
                ctx.request_headers.deep_view() == old(ctx).request_headers.deep_view(),
                ctx.request_body@ == old(ctx).request_body@,
                ctx.request_trailers.deep_view() == old(ctx).request_trailers.deep_view(),
                ctx.should_mock == old(ctx).should_mock,
                ctx.delay_ms == old(ctx).delay_ms,
                ctx.rewrite_request_headers.deep_view() == old(
                    ctx,
                ).rewrite_request_headers.deep_view(),
                ctx.rewrite_request_trailers.deep_view() == old(
                    ctx,
                ).rewrite_request_trailers.deep_view(),
            decreases self.rules.len() - i,
        {
            let rule = &self.rules[i];
            let ghost prev = result@;
            proof {
                assert(self.rules.deep_view().take(i + 1).drop_last() =~= self.rules.deep_view().take(
                    i as int,
                ));
            }
            if rule.enabled && matches_request(rule, &ctx.session) {
                let ghost ids_before = ctx.matched_rule_ids.deep_view();
                let ghost res_before = result.matched_rule_ids.deep_view();
                result.matched_rule_ids.push(rule.id.clone());
                ctx.matched_rule_ids.push(rule.id.clone());
                assert(ctx.matched_rule_ids.deep_view() =~= ids_before.push(rule.id@));
                assert(result.matched_rule_ids.deep_view() =~= res_before.push(rule.id@));
                match &rule.action {
                    RuleAction::RewriteRequestHeaders { headers } => {
                        append_headers(&mut result.rewrite_request_headers, headers);
                    },
                    RuleAction::RewriteResponseHeaders { .. } => {},
                    RuleAction::MockResponse { status, headers, body } => {
                        result.mock_response = Some((*status, copy_headers(headers), body.clone()));
                    },
                    RuleAction::Delay { millis } => {
                        result.delay_ms = Some(*millis);
                    },
                }
                assert(result@ =~= request_step(prev, rule@));
                assert(ctx.matched_rule_ids.deep_view() =~= ids0 + result@.matched_rule_ids);
            }
            i += 1;
        }
        assert(self.rules.deep_view().take(self.rules.len() as int) =~= self.rules.deep_view());
        result
    }

    /// Runs the enabled rules that match the response's session, in running
    /// order, and records their ids in the context.
    pub fn apply_response(&self, ctx: &mut ResponseContext) -> (r: RuleResult)
        ensures
            r@ == response_outcome(self@, old(ctx).session@),
            final(ctx).matched_rule_ids.deep_view() == old(ctx).matched_rule_ids.deep_view()
                + r@.matched_rule_ids,
            final(ctx).session@ == old(ctx).session@,
            final(ctx).response_headers.deep_view() == old(ctx).response_headers.deep_view(),
            final(ctx).response_body@ == old(ctx).response_body@,
            final(ctx).response_trailers.deep_view() == old(ctx).response_trailers.deep_view(),
            final(ctx).delay_ms == old(ctx).delay_ms,
            final(ctx).rewrite_response_headers.deep_view() == old(
                ctx,
            ).rewrite_response_headers.deep_view(),
            final(ctx).rewrite_response_trailers.deep_view() == old(
                ctx,
            ).rewrite_response_trailers.deep_view(),
    {
        let mut result = RuleResult::default();
        let ghost ids0 = ctx.matched_rule_ids.deep_view();
        let mut i: usize = 0;
        while i < self.rules.len()
            invariant
                i <= self.rules.len(),
                result@ == response_outcome(self.rules.deep_view().take(i as int), ctx.session@),
                ctx.matched_rule_ids.deep_view() == ids0 + result@.matched_rule_ids,
                ctx.session@ == old(ctx).session@,
                ctx.response_headers.deep_view() == old(ctx).response_headers.deep_view(),
                ctx.response_body@ == old(ctx).response_body@,
                ctx.response_trailers.deep_view() == old(ctx).response_trailers.deep_view(),
                ctx.delay_ms == old(ctx).delay_ms,
                ctx.rewrite_response_headers.deep_view() == old(
                    ctx,
                ).rewrite_response_headers.deep_view(),
                ctx.rewrite_response_trailers.deep_view() == old(
                    ctx,
                ).rewrite_response_trailers.deep_view(),
            decreases self.rules.len() - i,
        {
            let rule = &self.rules[i];
            let ghost prev = result@;
            proof {
                assert(self.rules.deep_view().take(i + 1).drop_last() =~= self.rules.deep_view().take(
                    i as int,
                ));
            }
            if rule.enabled && matches_request(rule, &ctx.session) {
                let ghost ids_before = ctx.matched_rule_ids.deep_view();
                let ghost res_before = result.matched_rule_ids.deep_view();
                result.matched_rule_ids.push(rule.id.clone());
                ctx.matched_rule_ids.push(rule.id.clone());
                assert(ctx.matched_rule_ids.deep_view() =~= ids_before.push(rule.id@));
                assert(result.matched_rule_ids.deep_view() =~= res_before.push(rule.id@));
                match &rule.action {
                    RuleAction::RewriteResponseHeaders { headers } => {
                        append_headers(&mut result.rewrite_response_headers, headers);
                    },
                    RuleAction::RewriteRequestHeaders { .. } => {},
                    RuleAction::MockResponse { .. } => {},
                    RuleAction::Delay { millis } => {
                        result.delay_ms = Some(*millis);
                    },
                }
                assert(result@ =~= response_step(prev, rule@));
                assert(ctx.matched_rule_ids.deep_view() =~= ids0 + result@.matched_rule_ids);
            }
            i += 1;
        }
        assert(self.rules.deep_view().take(self.rules.len() as int) =~= self.rules.deep_view());
        result
    }

    /// How long a request should wait before going on: the delay when it is
    /// present and not zero.
    pub fn delay_to_apply(delay_ms: Option<u64>) -> (r: Option<u64>)
        ensures
            r == (match delay_ms {
                Some(d) => if d > 0 { Some(d) } else { None },
                None => None,
            }),
    {
        match delay_ms {
            Some(d) => if d > 0 { Some(d) } else { None },
            None => None,
        }
    }
}

// ---------------------------------------------------------------------------
// Header rewrites
// ---------------------------------------------------------------------------

/// Some header of `hs` is named `name` up to ASCII case.
pub open spec fn has_named(hs: Seq<HeaderModel>, name: Seq<char>) -> bool {
    exists|i: int| 0 <= i < hs.len() && eq_ignore_case(#[trigger] hs[i].name, name)
}

/// `i` is the first index of a header of `hs` named `name` up to ASCII case.
pub open spec fn is_first_named(hs: Seq<HeaderModel>, name: Seq<char>, i: int) -> bool {
    &&& 0 <= i < hs.len()
    &&& eq_ignore_case(hs[i].name, name)
    &&& forall|j: int| 0 <= j < i ==> !eq_ignore_case(#[trigger] hs[j].name, name)
}

/// The first index of a header of `hs` named `name` up to ASCII case.
pub open spec fn first_named(hs: Seq<HeaderModel>, name: Seq<char>) -> int {
    choose|i: int| is_first_named(hs, name, i)
}

/// One rewrite: the value of the first header of the same name (up to
/// ASCII case) is replaced, keeping that header's name; when there is none,
/// the rewrite is appended.
pub open spec fn merge_one(hs: Seq<HeaderModel>, rewrite: HeaderModel) -> Seq<HeaderModel> {
    if has_named(hs, rewrite.name) {
        let i = first_named(hs, rewrite.name);
        hs.update(i, HeaderModel { name: hs[i].name, value: rewrite.value })
    } else {
        hs.push(rewrite)
    }
}

/// The rewrites applied one after the other, in order.
pub open spec fn merged(hs: Seq<HeaderModel>, rewrites: Seq<HeaderModel>) -> Seq<HeaderModel>
    decreases rewrites.len(),
{
    if rewrites.len() == 0 {
        hs
    } else {
        merge_one(merged(hs, rewrites.drop_last()), rewrites.last())
    }
}

proof fn lemma_first_named_unique(hs: Seq<HeaderModel>, name: Seq<char>, i: int)
    requires
        is_first_named(hs, name, i),
    ensures
        has_named(hs, name),
        first_named(hs, name) == i,
{
    let k = first_named(hs, name);
    assert(is_first_named(hs, name, k));
    if k < i {
        assert(!eq_ignore_case(hs[k].name, name));
    } else if i < k {
        assert(!eq_ignore_case(hs[i].name, name));
    }
}

/// Applies `rewrites` to `base` in order: each one replaces the value of
/// the first header of the same name (up to ASCII case), or is appended.
pub fn merge_headers(base: &mut Vec<HeaderPair>, rewrites: &[HeaderPair])
    ensures
        final(base).deep_view() == merged(old(base).deep_view(), rewrites.deep_view()),
{
    let mut k: usize = 0;
    while k < rewrites.len()
        invariant
            k <= rewrites.len(),
            base.deep_view() == merged(old(base).deep_view(), rewrites.deep_view().take(k as int)),
        decreases rewrites.len() - k,
    {
        let rewrite = &rewrites[k];
        let ghost hs = base.deep_view();
        proof {
            assert(rewrites.deep_view().take(k + 1).drop_last() =~= rewrites.deep_view().take(
                k as int,
            ));
            assert(rewrites.deep_view().take(k + 1).last() == rewrite@);
        }
        let mut i: usize = 0;
        let mut found = false;
        while i < base.len()
            invariant_except_break
                !found,
            invariant
                i <= base.len(),
                base.deep_view() == hs,
                forall|j: int| 0 <= j < i ==> !eq_ignore_case(#[trigger] hs[j].name, rewrite.name@),
            ensures
                found ==> i < base.len() && eq_ignore_case(hs[i as int].name, rewrite.name@),
                !found ==> i == base.len(),
            decreases base.len() - i,
        {
            if eq_ignore_ascii_case(base[i].name.as_str(), rewrite.name.as_str()) {
                found = true;
                break;
            }
            i += 1;
        }
        if found {
            proof {
                lemma_first_named_unique(hs, rewrite.name@, i as int);
            }
            let name = base[i].name.clone();
            base.set(i, HeaderPair { name, value: rewrite.value.clone() });
            assert(base.deep_view() =~= merge_one(hs, rewrite@));
        } else {
            base.push(rewrite.clone());
            assert(base.deep_view() =~= merge_one(hs, rewrite@));
        }
        k += 1;
    }
    assert(rewrites.deep_view().take(rewrites.len() as int) =~= rewrites.deep_view());
}

// ---------------------------------------------------------------------------
// Laws
// ---------------------------------------------------------------------------

/// The enabled rules of `rules`, in order.
pub open spec fn enabled_rules(rules: Seq<RuleModel>) -> Seq<RuleModel>
    decreases rules.len(),
{
    if rules.len() == 0 {
        rules
    } else if rules.last().enabled {
        enabled_rules(rules.drop_last()).push(rules.last())
    } else {
        enabled_rules(rules.drop_last())
    }
}

/// Disabled rules are skipped: the outcome of a rule list, on the request
/// side and on the response side, is that of its enabled rules alone.
pub proof fn law_disabled_rules_skipped(rules: Seq<RuleModel>, s: SessionModel)
    ensures
        request_outcome(rules, s) == request_outcome(enabled_rules(rules), s),
        response_outcome(rules, s) == response_outcome(enabled_rules(rules), s),
    decreases rules.len(),
{
    if rules.len() > 0 {
        law_disabled_rules_skipped(rules.drop_last(), s);
        if rules.last().enabled {
            let e = enabled_rules(rules);
            assert(e.drop_last() =~= enabled_rules(rules.drop_last()));
            assert(e.last() == rules.last());
        }
    }
}

/// Response rules never mock and never rewrite the request: whatever the
/// rules, the response-side outcome has no mock response and no request
/// header rewrites.
pub proof fn law_response_rules_never_mock(rules: Seq<RuleModel>, s: SessionModel)
    ensures
        response_outcome(rules, s).mock_response is None,
        response_outcome(rules, s).rewrite_request_headers.len() == 0,
    decreases rules.len(),
{
    if rules.len() > 0 {
        law_response_rules_never_mock(rules.drop_last(), s);
    }
}

/// Merging never drops a header nor renames one: every header keeps its
/// place and its name, and rewrites of new names come after.
pub proof fn law_merge_keeps_headers(hs: Seq<HeaderModel>, rewrites: Seq<HeaderModel>)
    ensures
        merged(hs, rewrites).len() >= hs.len(),
        forall|i: int| 0 <= i < hs.len() ==> (#[trigger] merged(hs, rewrites)[i]).name == hs[i].name,
    decreases rewrites.len(),
{
    if rewrites.len() > 0 {
        law_merge_keeps_headers(hs, rewrites.drop_last());
        let prev = merged(hs, rewrites.drop_last());
        let rw = rewrites.last();
        if has_named(prev, rw.name) {
            lemma_first_named_exists(prev, rw.name);
        }
        assert forall|i: int| 0 <= i < hs.len() implies (#[trigger] merged(hs, rewrites)[i]).name
            == hs[i].name by {
            assert(prev[i].name == hs[i].name);
        }
    }
}

/// The first header named `name` in `hs` is the one at `i` with this value.
pub open spec fn named_value_is(hs: Seq<HeaderModel>, name: Seq<char>, value: Seq<char>) -> bool {
    has_named(hs, name) && hs[first_named(hs, name)].value == value
}

proof fn lemma_first_named_below(hs: Seq<HeaderModel>, name: Seq<char>, w: int)
    requires
        0 <= w < hs.len(),
        eq_ignore_case(hs[w].name, name),
    ensures
        exists|i: int| is_first_named(hs, name, i),
    decreases w,
{
    if forall|j: int| 0 <= j < w ==> !eq_ignore_case(#[trigger] hs[j].name, name) {
        assert(is_first_named(hs, name, w));
    } else {
        let j = choose|j: int| 0 <= j < w && eq_ignore_case(#[trigger] hs[j].name, name);
        lemma_first_named_below(hs, name, j);
    }
}

/// When some header is named `name`, `first_named` is the first of them.
pub proof fn lemma_first_named_exists(hs: Seq<HeaderModel>, name: Seq<char>)
    requires
        has_named(hs, name),
    ensures
        is_first_named(hs, name, first_named(hs, name)),
{
    let w = choose|i: int| 0 <= i < hs.len() && eq_ignore_case(#[trigger] hs[i].name, name);
    lemma_first_named_below(hs, name, w);
}

proof fn lemma_merge_one_other_name(hs: Seq<HeaderModel>, rw: HeaderModel, name: Seq<char>)
    requires
        has_named(hs, name),
        !eq_ignore_case(rw.name, name),
    ensures
        has_named(merge_one(hs, rw), name),
        first_named(merge_one(hs, rw), name) == first_named(hs, name),
        merge_one(hs, rw)[first_named(hs, name)] == hs[first_named(hs, name)],
{
    lemma_first_named_exists(hs, name);
    let i = first_named(hs, name);
    let out = merge_one(hs, rw);
    if has_named(hs, rw.name) {
        lemma_first_named_exists(hs, rw.name);
        let k = first_named(hs, rw.name);
        // `k` names `rw.name`, which is not `name` up to case, so `k != i`.
        assert(eq_ignore_case(hs[k].name, rw.name));
        assert(k != i);
        assert forall|j: int| 0 <= j < i implies !eq_ignore_case(#[trigger] out[j].name, name) by {
            assert(out[j].name == hs[j].name);
        }
        assert(is_first_named(out, name, i));
    } else {
        assert forall|j: int| 0 <= j < i implies !eq_ignore_case(#[trigger] out[j].name, name) by {
            assert(out[j] == hs[j]);
        }
        assert(is_first_named(out, name, i));
    }
    lemma_first_named_unique(out, name, i);
}

/// The last rewrite of a name wins: after merging, the first header of that
/// name (up to ASCII case) carries the value of the last rewrite of it.
pub proof fn law_merge_last_rewrite_wins(hs: Seq<HeaderModel>, rewrites: Seq<HeaderModel>, k: int)
    requires
        0 <= k < rewrites.len(),
        forall|j: int| k < j < rewrites.len() ==> !eq_ignore_case(
            #[trigger] rewrites[j].name,
            rewrites[k].name,
        ),
    ensures
        named_value_is(merged(hs, rewrites), rewrites[k].name, rewrites[k].value),
    decreases rewrites.len(),
{
    let name = rewrites[k].name;
    let prev = merged(hs, rewrites.drop_last());
    if k == rewrites.len() - 1 {
        let rw = rewrites.last();
        let out = merge_one(prev, rw);
        if has_named(prev, rw.name) {
            lemma_first_named_exists(prev, rw.name);
            let i = first_named(prev, rw.name);
            assert forall|j: int| 0 <= j < i implies !eq_ignore_case(#[trigger] out[j].name, name) by {
                assert(out[j] == prev[j]);
            }
            assert(is_first_named(out, name, i));
            lemma_first_named_unique(out, name, i);
        } else {
            let i = prev.len() as int;
            assert forall|j: int| 0 <= j < i implies !eq_ignore_case(#[trigger] out[j].name, name) by {
                assert(out[j] == prev[j]);
                if eq_ignore_case(prev[j].name, name) {
                    assert(has_named(prev, rw.name));
                }
            }
            assert(lower_seq(out[i].name) =~= lower_seq(name));
            assert(is_first_named(out, name, i));
            lemma_first_named_unique(out, name, i);
        }
    } else {
        law_merge_last_rewrite_wins(hs, rewrites.drop_last(), k);
        let rw = rewrites.last();
        assert(!eq_ignore_case(rw.name, name));
        lemma_merge_one_other_name(prev, rw, name);
    }
}

// ---------------------------------------------------------------------------
// Running order
// ---------------------------------------------------------------------------

proof fn lemma_insert_rule_bounded(s: Seq<RuleModel>, x: RuleModel, b: RuleModel)
    requires
        forall|i: int| 0 <= i < s.len() ==> rule_le(#[trigger] s[i], b),
        rule_le(x, b),
    ensures
        insert_rule(s, x).len() == s.len() + 1,
        forall|i: int| 0 <= i < insert_rule(s, x).len() ==> rule_le(#[trigger] insert_rule(s, x)[i], b),
    decreases s.len(),
{
    if s.len() > 0 && !rule_le(s.last(), x) {
        let d = s.drop_last();
        assert forall|i: int| 0 <= i < d.len() implies rule_le(#[trigger] d[i], b) by {
            assert(d[i] == s[i]);
        }
        lemma_insert_rule_bounded(d, x, b);
    }
}

proof fn lemma_insert_rule_sorted(s: Seq<RuleModel>, x: RuleModel)
    requires
        rules_sorted(s),
    ensures
        rules_sorted(insert_rule(s, x)),
        insert_rule(s, x).to_multiset() == s.to_multiset().insert(x),
    decreases s.len(),
{
    broadcast use vstd::seq_lib::to_multiset_build;

    if s.len() == 0 {
        assert(seq![x] =~= s.push(x));
    } else if rule_le(s.last(), x) {
        let r = s.push(x);
        assert forall|i: int, j: int| 0 <= i < j < r.len() implies rule_le(
            #[trigger] r[i],
            #[trigger] r[j],
        ) by {
            if j == s.len() && i < s.len() - 1 {
                lemma_rule_le_transitive(s[i], s.last(), x);
            }
        }
    } else {
        let d = s.drop_last();
        let y = s.last();
        assert forall|i: int, j: int| 0 <= i < j < d.len() implies rule_le(
            #[trigger] d[i],
            #[trigger] d[j],
        ) by {
            assert(d[i] == s[i] && d[j] == s[j]);
        }
        lemma_insert_rule_sorted(d, x);
        lemma_rule_le_total(y, x);
        assert forall|i: int| 0 <= i < d.len() implies rule_le(#[trigger] d[i], y) by {
            assert(d[i] == s[i]);
        }
        lemma_insert_rule_bounded(d, x, y);
        let m = insert_rule(d, x);
        let r = m.push(y);
        assert forall|i: int, j: int| 0 <= i < j < r.len() implies rule_le(
            #[trigger] r[i],
            #[trigger] r[j],
        ) by {
            if j == m.len() {
                assert(r[i] == m[i]);
            } else {
                assert(r[i] == m[i] && r[j] == m[j]);
            }
        }
        assert(s =~= d.push(y));
        assert(insert_rule(s, x) == r);
        assert(r.to_multiset() =~= s.to_multiset().insert(x));
    }
}

/// Running order sorts the rules: it holds exactly the rules given, each as
/// often as given, ordered by ascending priority and then ascending id. So
/// after `set_rules(rules)`, `get_rules` gives them so.
pub proof fn law_running_order_sorts(rules: Seq<RuleModel>)
    ensures
        rules_sorted(running_order(rules)),
        running_order(rules).to_multiset() == rules.to_multiset(),
    decreases rules.len(),
{
    broadcast use vstd::seq_lib::to_multiset_build;

    if rules.len() == 0 {
    } else {
        law_running_order_sorts(rules.drop_last());
        lemma_insert_rule_sorted(running_order(rules.drop_last()), rules.last());
        assert(rules =~= rules.drop_last().push(rules.last()));
    }
}

// ---------------------------------------------------------------------------
// What the applying rules ask for
// ---------------------------------------------------------------------------

/// The rules of `rules` that apply to session `s` (enabled and matching),
/// in their order.
pub open spec fn applying(rules: Seq<RuleModel>, s: SessionModel) -> Seq<RuleModel>
    decreases rules.len(),
{
    if rules.len() == 0 {
        rules
    } else if rule_applies(rules.last(), s) {
        applying(rules.drop_last(), s).push(rules.last())
    } else {
        applying(rules.drop_last(), s)
    }
}

/// The ids of `rs`, in order.
pub open spec fn rule_ids(rs: Seq<RuleModel>) -> Seq<Seq<char>> {
    rs.map_values(|r: RuleModel| r.id)
}

/// The request header rewrites of `rs`, concatenated in order.
pub open spec fn request_rewrites(rs: Seq<RuleModel>) -> Seq<HeaderModel>
    decreases rs.len(),
{
    if rs.len() == 0 {
        Seq::empty()
    } else {
        request_rewrites(rs.drop_last()) + match rs.last().action {
            ActionModel::RewriteRequestHeaders { headers } => headers,
            _ => Seq::empty(),
        }
    }
}

/// The response header rewrites of `rs`, concatenated in order.
pub open spec fn response_rewrites(rs: Seq<RuleModel>) -> Seq<HeaderModel>
    decreases rs.len(),
{
    if rs.len() == 0 {
        Seq::empty()
    } else {
        response_rewrites(rs.drop_last()) + match rs.last().action {
            ActionModel::RewriteResponseHeaders { headers } => headers,
            _ => Seq::empty(),
        }
    }
}

/// The mock response of the last mocking rule of `rs`, if any.
pub open spec fn last_mock(rs: Seq<RuleModel>) -> Option<(u16, Seq<HeaderModel>, Seq<char>)>
    decreases rs.len(),
{
    if rs.len() == 0 {
        None
    } else {
        match rs.last().action {
            ActionModel::MockResponse { status, headers, body } => Some((status, headers, body)),
            _ => last_mock(rs.drop_last()),
        }
    }
}

/// The delay of the last delaying rule of `rs`, if any.
pub open spec fn last_delay(rs: Seq<RuleModel>) -> Option<u64>
    decreases rs.len(),
{
    if rs.len() == 0 {
        None
    } else {
        match rs.last().action {
            ActionModel::Delay { millis } => Some(millis),
            _ => last_delay(rs.drop_last()),
        }
    }
}

/// On the request side, the applying rules `ms` give their ids, their
/// request header rewrites in order, the last mock response and the last
/// delay; nothing for the response.
pub open spec fn request_result_of(ms: Seq<RuleModel>) -> ResultModel {
    ResultModel {
        matched_rule_ids: rule_ids(ms),
        rewrite_request_headers: request_rewrites(ms),
        rewrite_response_headers: Seq::empty(),
        rewrite_request_trailers: Seq::empty(),
        rewrite_response_trailers: Seq::empty(),
        mock_response: last_mock(ms),
        delay_ms: last_delay(ms),
    }
}

/// On the response side, the applying rules `ms` give their ids, their
/// response header rewrites in order and the last delay; never a mock
/// response nor a request rewrite.
pub open spec fn response_result_of(ms: Seq<RuleModel>) -> ResultModel {
    ResultModel {
        matched_rule_ids: rule_ids(ms),
        rewrite_request_headers: Seq::empty(),
        rewrite_response_headers: response_rewrites(ms),
        rewrite_request_trailers: Seq::empty(),
        rewrite_response_trailers: Seq::empty(),
        mock_response: None,
        delay_ms: last_delay(ms),
    }
}

/// Running the rules on a request comes to the result of the rules that
/// apply, in the engine's order: their ids, the concatenation of their
/// request header rewrites, the last mock response and the last delay.
pub proof fn law_request_outcome_of_applying(rules: Seq<RuleModel>, s: SessionModel)
    ensures
        request_outcome(rules, s) == request_result_of(applying(rules, s)),
    decreases rules.len(),
{
    if rules.len() > 0 {
        let d = rules.drop_last();
        let x = rules.last();
        law_request_outcome_of_applying(d, s);
        if rule_applies(x, s) {
            let m = applying(d, s);
            let a = m.push(x);
            assert(a.drop_last() =~= m);
            assert(a.last() == x);
            assert(rule_ids(a) =~= rule_ids(m).push(x.id));
            assert(request_rewrites(m) + Seq::<HeaderModel>::empty() =~= request_rewrites(m));
            assert(request_outcome(rules, s) =~= request_result_of(a));
        }
    }
}

/// Running the rules on a response comes to the result of the rules that
/// apply, in the engine's order: their ids, the concatenation of their
/// response header rewrites and the last delay.
pub proof fn law_response_outcome_of_applying(rules: Seq<RuleModel>, s: SessionModel)
    ensures
        response_outcome(rules, s) == response_result_of(applying(rules, s)),
    decreases rules.len(),
{
    if rules.len() > 0 {
        let d = rules.drop_last();
        let x = rules.last();
        law_response_outcome_of_applying(d, s);
        if rule_applies(x, s) {
            let m = applying(d, s);
            let a = m.push(x);
            assert(a.drop_last() =~= m);
            assert(a.last() == x);
            assert(rule_ids(a) =~= rule_ids(m).push(x.id));
            assert(response_rewrites(m) + Seq::<HeaderModel>::empty() =~= response_rewrites(m));
            assert(response_outcome(rules, s) =~= response_result_of(a));
        }
    }
}

// ---------------------------------------------------------------------------
// Merging twice
// ---------------------------------------------------------------------------

/// Every rewrite of `rw` names a header that `hs` has (up to ASCII case).
pub open spec fn names_present(hs: Seq<HeaderModel>, rw: Seq<HeaderModel>) -> bool {
    forall|j: int| 0 <= j < rw.len() ==> has_named(hs, #[trigger] rw[j].name)
}

/// The value that position `p` of `hs` holds after the rewrites `rw`, when
/// every rewrite names a header that `hs` has: that of the last rewrite
/// aimed at `p`, or the one it had.
pub open spec fn value_after(hs: Seq<HeaderModel>, rw: Seq<HeaderModel>, p: int) -> Seq<char>
    decreases rw.len(),
{
    if rw.len() == 0 {
        hs[p].value
    } else if first_named(hs, rw.last().name) == p {
        rw.last().value
    } else {
        value_after(hs, rw.drop_last(), p)
    }
}

/// The index of the last rewrite of `rw` aimed at position `p` of `hs`, or
/// -1 when none is.
pub open spec fn last_aimed_at(hs: Seq<HeaderModel>, rw: Seq<HeaderModel>, p: int) -> int
    decreases rw.len(),
{
    if rw.len() == 0 {
        -1
    } else if first_named(hs, rw.last().name) == p {
        rw.len() - 1
    } else {
        last_aimed_at(hs, rw.drop_last(), p)
    }
}

proof fn lemma_first_named_same_names(hs: Seq<HeaderModel>, gs: Seq<HeaderModel>, name: Seq<char>)
    requires
        hs.len() == gs.len(),
        forall|i: int| 0 <= i < hs.len() ==> (#[trigger] gs[i]).name == hs[i].name,
        has_named(hs, name),
    ensures
        has_named(gs, name),
        first_named(gs, name) == first_named(hs, name),
{
    lemma_first_named_exists(hs, name);
    let i = first_named(hs, name);
    assert forall|j: int| 0 <= j < i implies !eq_ignore_case(#[trigger] gs[j].name, name) by {
        assert(gs[j].name == hs[j].name);
    }
    assert(gs[i].name == hs[i].name);
    assert(is_first_named(gs, name, i));
    lemma_first_named_unique(gs, name, i);
}

proof fn lemma_first_named_same_class(hs: Seq<HeaderModel>, a: Seq<char>, b: Seq<char>)
    requires
        has_named(hs, a),
        eq_ignore_case(a, b),
    ensures
        first_named(hs, b) == first_named(hs, a),
{
    lemma_first_named_exists(hs, a);
    let i = first_named(hs, a);
    assert forall|j: int| 0 <= j < i implies !eq_ignore_case(#[trigger] hs[j].name, b) by {
        assert(!eq_ignore_case(hs[j].name, a));
    }
    assert(is_first_named(hs, b, i));
    lemma_first_named_unique(hs, b, i);
}

proof fn lemma_merged_names_present(hs: Seq<HeaderModel>, rw: Seq<HeaderModel>)
    ensures
        names_present(merged(hs, rw), rw),
    decreases rw.len(),
{
    if rw.len() > 0 {
        let d = rw.drop_last();
        let x = rw.last();
        lemma_merged_names_present(hs, d);
        let prev = merged(hs, d);
        let out = merge_one(prev, x);
        if has_named(prev, x.name) {
            lemma_first_named_exists(prev, x.name);
        }
        assert(out.len() >= prev.len());
        assert forall|i: int| 0 <= i < prev.len() implies (#[trigger] out[i]).name == prev[i].name by {}
        if has_named(prev, x.name) {
            let i = first_named(prev, x.name);
            assert(eq_ignore_case(out[i].name, x.name));
        } else {
            assert(out[prev.len() as int] == x);
            assert(eq_ignore_case(out[prev.len() as int].name, x.name));
        }
        assert forall|j: int| 0 <= j < rw.len() implies has_named(out, #[trigger] rw[j].name) by {
            if j < rw.len() - 1 {
                assert(rw[j] == d[j]);
                assert(has_named(prev, d[j].name));
                let w = choose|w: int| 0 <= w < prev.len() && eq_ignore_case(#[trigger] prev[w].name, d[j].name);
                assert(out[w].name == prev[w].name);
            }
        }
    }
}

proof fn lemma_merged_when_present(hs: Seq<HeaderModel>, rw: Seq<HeaderModel>)
    requires
        names_present(hs, rw),
    ensures
        merged(hs, rw) == Seq::new(
            hs.len(),
            |p: int| HeaderModel { name: hs[p].name, value: value_after(hs, rw, p) },
        ),
    decreases rw.len(),
{
    if rw.len() == 0 {
        assert(merged(hs, rw) =~= Seq::new(
            hs.len(),
            |p: int| HeaderModel { name: hs[p].name, value: value_after(hs, rw, p) },
        ));
    } else {
        let d = rw.drop_last();
        let x = rw.last();
        assert forall|j: int| 0 <= j < d.len() implies has_named(hs, #[trigger] d[j].name) by {
            assert(d[j] == rw[j]);
        }
        lemma_merged_when_present(hs, d);
        let prev = merged(hs, d);
        assert(has_named(hs, rw[rw.len() - 1].name));
        lemma_first_named_same_names(hs, prev, x.name);
        lemma_first_named_exists(hs, x.name);
        assert(merged(hs, rw) =~= Seq::new(
            hs.len(),
            |p: int| HeaderModel { name: hs[p].name, value: value_after(hs, rw, p) },
        ));
    }
}

proof fn lemma_last_aimed_at(hs: Seq<HeaderModel>, rw: Seq<HeaderModel>, p: int)
    ensures
        -1 <= last_aimed_at(hs, rw, p) < rw.len(),
        last_aimed_at(hs, rw, p) == -1 ==> value_after(hs, rw, p) == hs[p].value,
        last_aimed_at(hs, rw, p) >= 0 ==> first_named(hs, rw[last_aimed_at(hs, rw, p)].name) == p
            && value_after(hs, rw, p) == rw[last_aimed_at(hs, rw, p)].value,
        forall|k: int|
            last_aimed_at(hs, rw, p) < k < rw.len() ==> first_named(hs, #[trigger] rw[k].name) != p,
    decreases rw.len(),
{
    if rw.len() > 0 {
        let d = rw.drop_last();
        lemma_last_aimed_at(hs, d, p);
        let t = last_aimed_at(hs, rw, p);
        if first_named(hs, rw.last().name) != p {
            assert forall|k: int| t < k < rw.len() implies first_named(hs, #[trigger] rw[k].name) != p by {
                if k < rw.len() - 1 {
                    assert(rw[k] == d[k]);
                }
            }
            if t >= 0 {
                assert(rw[t] == d[t]);
            }
        }
    }
}

/// Merging the same rewrites a second time changes nothing: the headers
/// after two merges are those after one.
pub proof fn law_merge_twice_is_once(hs: Seq<HeaderModel>, rw: Seq<HeaderModel>)
    ensures
        merged(merged(hs, rw), rw) == merged(hs, rw),
{
    let h = merged(hs, rw);
    lemma_merged_names_present(hs, rw);
    lemma_merged_when_present(h, rw);
    assert forall|p: int| 0 <= p < h.len() implies value_after(h, rw, p) == h[p].value by {
        lemma_last_aimed_at(h, rw, p);
        let t = last_aimed_at(h, rw, p);
        if t >= 0 {
            assert forall|k: int| t < k < rw.len() implies !eq_ignore_case(
                #[trigger] rw[k].name,
                rw[t].name,
            ) by {
                if eq_ignore_case(rw[k].name, rw[t].name) {
                    assert(has_named(h, rw[k].name));
                    lemma_first_named_same_class(h, rw[k].name, rw[t].name);
                    assert(first_named(h, rw[k].name) != p);
                }
            }
            law_merge_last_rewrite_wins(hs, rw, t);
        }
    }
    assert(merged(h, rw) =~= h);
}

// ---------------------------------------------------------------------------
// What the match conditions test
// ---------------------------------------------------------------------------

/// Each match condition tests one field of the session, and a condition on
/// a field the session lacks fails:
/// - a host condition holds exactly when the session's host has the given
///   text at some position (a substring, not only a prefix);
/// - a URL condition likewise on the URL;
/// - a method condition holds exactly when the methods are equal once ASCII
///   letters are lower-cased;
/// - a status condition holds exactly when the session has that status.
/// Conditions that are absent impose nothing.
pub proof fn law_match_conditions(m: MatchModel, s: SessionModel)
    ensures
        match_holds(m, s) <==> {
            &&& (m.host matches Some(w) ==> (s.host matches Some(h) && exists|i: int|
                0 <= i && i + w.len() <= h.len() && #[trigger] h.subrange(i, i + w.len()) == w))
            &&& (m.url_contains matches Some(w) ==> (s.url matches Some(u) && exists|i: int|
                0 <= i && i + w.len() <= u.len() && #[trigger] u.subrange(i, i + w.len()) == w))
            &&& (m.method matches Some(w) ==> (s.method matches Some(v) && v.len() == w.len()
                && forall|i: int| 0 <= i < v.len() ==> crate::text::ascii_lower(#[trigger] v[i])
                    == crate::text::ascii_lower(w[i])))
            &&& (m.status matches Some(st) ==> s.status == Some(st))
        },
{
    if m.host is Some && s.host is Some {
        crate::text::lemma_contains_at_some_position(s.host->0, m.host->0);
    }
    if m.url_contains is Some && s.url is Some {
        crate::text::lemma_contains_at_some_position(s.url->0, m.url_contains->0);
    }
    if m.method is Some && s.method is Some {
        crate::text::lemma_eq_ignore_case_by_letter(s.method->0, m.method->0);
    }
}

/// A host condition matches wherever the text stands in the host: a rule
/// whose only condition is host `w` matches a session whose host is any
/// text, then `w`, then any text.
pub proof fn law_host_condition_matches_inside(m: MatchModel, s: SessionModel, before: Seq<char>, w: Seq<char>, after: Seq<char>)
    requires
        m.host == Some(w),
        m.method is None,
        m.url_contains is None,
        m.status is None,
        s.host == Some(before + w + after),
    ensures
        match_holds(m, s),
{
    let h = before + w + after;
    assert(h.subrange(before.len() as int, before.len() + w.len() as int) =~= w);
    assert(crate::text::occurs_at(h, w, before.len() as int));
}

} // verus!
