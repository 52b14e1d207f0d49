//! The OSV audit service: which package versions to ask OSV about, how its
//! batch answers read, and the answers kept from earlier requests.
use vstd::prelude::*;

use crate::domain::{
    opt_string_view, strings_view, AuditFinding, AuditLookupResult, AuditQuery, AuditView,
    FindingView,
};
use crate::evaluate::{lookup_audit, AuditResults};
use crate::planner::{has_query, insert_query, queries_sorted};
use crate::text::{concat, decimal, decimal_string};

verus! {

/// Failures of the audit service.
#[derive(Debug)]
pub enum AuditError {
    Infra(String),
    Json(String),
    CachePoisoned,
}

pub open spec fn audit_error_text(e: AuditError) -> Seq<char> {
    match e {
        AuditError::Infra(d) => d@,
        AuditError::Json(d) => d@,
        AuditError::CachePoisoned => "audit cache state is unavailable"@,
    }
}

impl AuditError {
    /// What went wrong, in words.
    pub fn message(&self) -> (r: String)
        ensures
            r@ == audit_error_text(*self),
    {
        match self {
            AuditError::Infra(d) => d.clone(),
            AuditError::Json(d) => d.clone(),
            AuditError::CachePoisoned => "audit cache state is unavailable".to_owned(),
        }
    }
}

/// One query of an OSV batch request.
#[derive(Debug)]
pub struct OsvQuery {
    pub version: String,
    pub package_name: String,
    pub ecosystem: String,
}

/// The OSV request for an audit query: its version, package name and
/// ecosystem name.
pub fn osv_query(q: &AuditQuery) -> (r: OsvQuery)
    ensures
        r.version@ == q.version@,
        r.package_name@ == q.subject.package_name@,
        r.ecosystem@ == crate::domain::osv_ecosystem_name(q.subject.ecosystem),
{
    OsvQuery {
        version: q.version.as_str().to_owned(),
        package_name: q.subject.package_name.as_str().to_owned(),
        ecosystem: q.subject.ecosystem.as_str().to_owned(),
    }
}

/// One vulnerability of an OSV answer, with what the audit reads of it.
#[derive(Debug)]
pub struct OsvVulnerability {
    pub id: String,
    pub aliases: Vec<String>,
    pub summary: Option<String>,
    /// The `score` of each `severity` entry, in order.
    pub severity_scores: Vec<String>,
    /// `database_specific.severity`, when it is a string.
    pub database_severity: Option<String>,
    /// The `url` of each reference, when it has one.
    pub reference_urls: Vec<Option<String>>,
}

/// The first severity score, else the database's own severity.
pub open spec fn osv_severity(v: OsvVulnerability) -> Option<Seq<char>> {
    if v.severity_scores@.len() > 0 {
        Some(v.severity_scores@[0]@)
    } else {
        opt_string_view(v.database_severity)
    }
}

impl OsvVulnerability {
    pub fn severity(&self) -> (r: Option<String>)
        ensures
            opt_string_view(r) == osv_severity(*self),
    {
        if self.severity_scores.len() > 0 {
            Some(self.severity_scores[0].clone())
        } else {
            match &self.database_severity {
                Some(s) => Some(s.clone()),
                None => None,
            }
        }
    }
}

/// The reference URLs that are present, in order.
pub open spec fn present_urls(urls: Seq<Option<String>>) -> Seq<Seq<char>>
    decreases urls.len(),
{
    if urls.len() == 0 {
        Seq::empty()
    } else {
        let head = present_urls(urls.drop_last());
        match urls.last() {
            Some(u) => head.push(u@),
            None => head,
        }
    }
}

pub open spec fn osv_finding(v: OsvVulnerability) -> FindingView {
    FindingView {
        id: v.id@,
        aliases: strings_view(v.aliases@),
        summary: opt_string_view(v.summary),
        severity: osv_severity(v),
        references: present_urls(v.reference_urls@),
    }
}

/// The audit answer for one OSV result: clean when it lists no
/// vulnerability, else each vulnerability as a finding, in order.
pub open spec fn osv_answer(vulns: Seq<OsvVulnerability>) -> AuditView {
    if vulns.len() == 0 {
        AuditView::Clean
    } else {
        AuditView::Vulnerable(vulns.map_values(|v: OsvVulnerability| osv_finding(v)))
    }
}

fn present_urls_of(urls: &Vec<Option<String>>) -> (r: Vec<String>)
    ensures
        strings_view(r@) == present_urls(urls@),
{
    let mut out: Vec<String> = Vec::new();
    let mut i: usize = 0;
    while i < urls.len()
        invariant
            i <= urls@.len(),
            strings_view(out@) == present_urls(urls@.take(i as int)),
        decreases urls@.len() - i,
    {
        assert(urls@.take(i + 1).drop_last() =~= urls@.take(i as int));
        assert(urls@.take(i + 1).last() == urls@[i as int]);
        if let Some(u) = &urls[i] {
            let ghost before = strings_view(out@);
            out.push(u.clone());
            assert(strings_view(out@) =~= before.push(u@));
        }
        i = i + 1;
    }
    assert(urls@.take(urls@.len() as int) =~= urls@);
    out
}

pub fn audit_result_from_osv(vulns: Vec<OsvVulnerability>) -> (r: AuditLookupResult)
    ensures
        r@ == osv_answer(vulns@),
{
    if vulns.len() == 0 {
        return AuditLookupResult::Clean;
    }
    let mut findings: Vec<AuditFinding> = Vec::new();
    let mut i: usize = 0;
    while i < vulns.len()
        invariant
            i <= vulns@.len(),
            findings@.len() == i,
            forall|k: int| 0 <= k < i ==> #[trigger] findings@[k]@ == osv_finding(vulns@[k]),
        decreases vulns@.len() - i,
    {
        let v = &vulns[i];
        let f = AuditFinding {
            id: v.id.clone(),
            aliases: crate::domain::clone_strings(&v.aliases),
            summary: match &v.summary {
                Some(s) => Some(s.clone()),
                None => None,
            },
            severity: v.severity(),
            references: present_urls_of(&v.reference_urls),
        };
        findings.push(f);
        i = i + 1;
    }
    let r = AuditLookupResult::Vulnerable { findings };
    assert(crate::domain::findings_view(findings@) =~= vulns@.map_values(|v: OsvVulnerability| osv_finding(v)));
    r
}

pub open spec fn count_mismatch_text(results: nat, queries: nat) -> Seq<char> {
    "OSV returned "@ + decimal(results) + " results for "@ + decimal(queries) + " queries"@
}

pub open spec fn answers_view(v: Seq<(AuditQuery, AuditLookupResult)>) -> Seq<(AuditQuery, AuditView)> {
    v.map_values(|p: (AuditQuery, AuditLookupResult)| (p.0, p.1@))
}

/// Pairs each query of a batch with the OSV result at its position; a
/// result count other than the query count is an error.
pub fn parse_batch_response(queries: &[AuditQuery], results: Vec<Vec<OsvVulnerability>>) -> (r: Result<
    Vec<(AuditQuery, AuditLookupResult)>,
    AuditError,
>)
    ensures
        results@.len() != queries@.len() ==> (r matches Err(AuditError::Json(d)) && d@
            == count_mismatch_text(results@.len(), queries@.len())),
        results@.len() == queries@.len() ==> (r matches Ok(v) && v@.len() == queries@.len()
            && forall|i: int|
            0 <= i < queries@.len() ==> (#[trigger] v@[i]).0 == queries@[i] && v@[i].1@
                == osv_answer(results@[i]@)),
{
    if results.len() != queries.len() {
        let a = concat("OSV returned ", decimal_string(results.len() as u64).as_str());
        let b = concat(a.as_str(), " results for ");
        let c = concat(b.as_str(), decimal_string(queries.len() as u64).as_str());
        return Err(AuditError::Json(concat(c.as_str(), " queries")));
    }
    let mut out: Vec<(AuditQuery, AuditLookupResult)> = Vec::new();
    let mut rest = results;
    let ghost all = rest@;
    let mut taken: Vec<Vec<OsvVulnerability>> = Vec::new();
    let mut i: usize = 0;
    while rest.len() > 0
        invariant
            i + rest@.len() == all.len(),
            all.len() == queries@.len(),
            rest@ == all.skip(i as int),
            out@.len() == i,
            forall|k: int| 0 <= k < i ==> (#[trigger] out@[k]).0 == queries@[k] && out@[k].1@
                == osv_answer(all[k]@),
        decreases rest@.len(),
    {
        let ghost before = rest@;
        let first = rest.remove(0);
        assert(first@ == all[i as int]@) by {
            assert(before[0] == all[i as int]);
        }
        assert(rest@ =~= all.skip(i + 1));
        out.push((queries[i].clone(), audit_result_from_osv(first)));
        i = i + 1;
    }
    Ok(out)
}

/// Every query of a chunk, answered with the failure of its request.
pub fn failed_chunk(queries: &Vec<AuditQuery>, detail: &str) -> (r: Vec<(AuditQuery, AuditLookupResult)>)
    ensures
        r@.len() == queries@.len(),
        forall|i: int|
            0 <= i < queries@.len() ==> (#[trigger] r@[i]).0 == queries@[i] && r@[i].1@
                == AuditView::LookupFailed(detail@),
{
    let mut out: Vec<(AuditQuery, AuditLookupResult)> = Vec::new();
    let mut i: usize = 0;
    while i < queries.len()
        invariant
            i <= queries@.len(),
            out@.len() == i,
            forall|k: int| 0 <= k < i ==> (#[trigger] out@[k]).0 == queries@[k] && out@[k].1@
                == AuditView::LookupFailed(detail@),
        decreases queries@.len() - i,
    {
        out.push((queries[i].clone(), AuditLookupResult::LookupFailed { detail: detail.to_owned() }));
        i = i + 1;
    }
    out
}

/// The answers for one chunk of queries from how its OSV request went: the
/// batch read against the queries, or on any failure that failure's text
/// for every query.
pub fn chunk_answers(queries: Vec<AuditQuery>, outcome: Result<Vec<Vec<OsvVulnerability>>, AuditError>) -> (r: Vec<
    (AuditQuery, AuditLookupResult),
>)
    ensures
        r@.len() == queries@.len(),
        forall|i: int| 0 <= i < queries@.len() ==> (#[trigger] r@[i]).0 == queries@[i],
        match outcome {
            Err(e) => forall|i: int|
                0 <= i < queries@.len() ==> (#[trigger] r@[i]).1@ == AuditView::LookupFailed(
                    audit_error_text(e),
                ),
            Ok(results) => if results@.len() == queries@.len() {
                forall|i: int|
                    0 <= i < queries@.len() ==> (#[trigger] r@[i]).1@ == osv_answer(results@[i]@)
            } else {
                forall|i: int|
                    0 <= i < queries@.len() ==> (#[trigger] r@[i]).1@ == AuditView::LookupFailed(
                        count_mismatch_text(results@.len(), queries@.len()),
                    )
            },
        },
{
    match outcome {
        Err(e) => failed_chunk(&queries, e.message().as_str()),
        Ok(results) => {
            match parse_batch_response(queries.as_slice(), results) {
                Ok(answers) => answers,
                Err(e) => failed_chunk(&queries, e.message().as_str()),
            }
        },
    }
}


// ---------------------------------------------------------------------------
// The service and its answers
// ---------------------------------------------------------------------------

/// The OSV service: its address, how many requests may run at once, how
/// many queries one request carries, and the answers it already has.
#[derive(Debug)]
pub struct AuditService {
    base_url: String,
    concurrency: usize,
    chunk_size: usize,
    cache: AuditResults,
}

/// The queries that have no answer yet, in order.
pub open spec fn uncached(requested: Seq<AuditQuery>, cache: Seq<(AuditQuery, AuditLookupResult)>) -> Seq<AuditQuery>
    decreases requested.len(),
{
    if requested.len() == 0 {
        Seq::empty()
    } else {
        let head = uncached(requested.drop_last(), cache);
        if lookup_audit(cache, requested.last()) is None {
            head.push(requested.last())
        } else {
            head
        }
    }
}

/// The queries of all chunks, chunk after chunk.
pub open spec fn flat(chunks: Seq<Vec<AuditQuery>>) -> Seq<AuditQuery>
    decreases chunks.len(),
{
    if chunks.len() == 0 {
        Seq::empty()
    } else {
        flat(chunks.drop_last()) + chunks.last()@
    }
}

/// Each requested query that has an answer, with that answer, in order.
pub open spec fn answered(requested: Seq<AuditQuery>, cache: Seq<(AuditQuery, AuditLookupResult)>) -> Seq<
    (AuditQuery, AuditView),
>
    decreases requested.len(),
{
    if requested.len() == 0 {
        Seq::empty()
    } else {
        let head = answered(requested.drop_last(), cache);
        match lookup_audit(cache, requested.last()) {
            Some(v) => head.push((requested.last(), v)),
            None => head,
        }
    }
}

impl AuditService {
    /// A service at `base_url` with no answers yet; at least one request may
    /// run, and a request carries up to a hundred queries.
    pub fn new(base_url: String, concurrency: usize) -> (r: Self)
        ensures
            r.base_url()@ == base_url@,
            r.concurrency() == if concurrency == 0 { 1 } else { concurrency },
            r.chunk_size() == 100,
            r.cached().len() == 0,
    {
        let concurrency = if concurrency == 0 { 1 } else { concurrency };
        AuditService { base_url, concurrency, chunk_size: 100, cache: AuditResults::new() }
    }

    pub closed spec fn base_url(self) -> String {
        self.base_url
    }

    pub closed spec fn concurrency(self) -> usize {
        self.concurrency
    }

    pub closed spec fn chunk_size(self) -> usize {
        self.chunk_size
    }

    /// The answers recorded so far; a later answer for a query replaces an
    /// earlier one.
    pub closed spec fn cached(self) -> Seq<(AuditQuery, AuditLookupResult)> {
        self.cache.entries@
    }

    pub fn base_url_str(&self) -> (r: &str)
        ensures
            r@ == self.base_url()@,
    {
        self.base_url.as_str()
    }

    pub fn max_concurrency(&self) -> (r: usize)
        ensures
            r == self.concurrency(),
    {
        self.concurrency
    }

    /// The queries to answer: each package version once, sorted.
    pub fn requested(queries: Vec<AuditQuery>) -> (r: Vec<AuditQuery>)
        ensures
            queries_sorted(r@),
            forall|x: AuditQuery| #[trigger] has_query(r@, x) == has_query(queries@, x),
    {
        let mut out: Vec<AuditQuery> = Vec::new();
        let mut i: usize = 0;
        while i < queries.len()
            invariant
                i <= queries@.len(),
                queries_sorted(out@),
                forall|x: AuditQuery| #[trigger] has_query(out@, x) == has_query(queries@.take(i as int), x),
            decreases queries@.len() - i,
        {
            let ghost before = out@;
            insert_query(&mut out, queries[i].clone());
            assert forall|x: AuditQuery| #[trigger] has_query(out@, x) == has_query(queries@.take(i + 1), x) by {
                let t = queries@.take(i + 1);
                assert(t[i as int] == queries@[i as int]);
                if has_query(queries@.take(i as int), x) {
                    let k = choose|k: int| 0 <= k < i && #[trigger] queries@.take(i as int)[k].same_as(x);
                    assert(t[k] == queries@.take(i as int)[k]);
                }
                if has_query(t, x) {
                    let k = choose|k: int| 0 <= k < i + 1 && #[trigger] t[k].same_as(x);
                    if k < i {
                        assert(queries@.take(i as int)[k] == t[k]);
                    }
                }
            }
            i = i + 1;
        }
        assert(queries@.take(queries@.len() as int) =~= queries@);
        out
    }

    /// The requested queries without an answer, in chunks of at most the
    /// chunk size and in order.
    pub fn missing_chunks(&self, requested: &Vec<AuditQuery>) -> (r: Vec<Vec<AuditQuery>>)
        requires
            self.chunk_size() > 0,
        ensures
            flat(r@) == uncached(requested@, self.cached()),
            forall|k: int| 0 <= k < r@.len() ==> 0 < (#[trigger] r@[k])@.len() <= self.chunk_size(),
            uncached(requested@, self.cached()).len() == 0 ==> r@.len() == 0,
            requested@.len() == 0 ==> r@.len() == 0,
    {
        let mut done: Vec<Vec<AuditQuery>> = Vec::new();
        let mut cur: Vec<AuditQuery> = Vec::new();
        let mut i: usize = 0;
        while i < requested.len()
            invariant
                i <= requested@.len(),
                self.chunk_size > 0,
                flat(done@) + cur@ == uncached(requested@.take(i as int), self.cached()),
                cur@.len() < self.chunk_size,
                forall|k: int| 0 <= k < done@.len() ==> 0 < (#[trigger] done@[k])@.len() <= self.chunk_size,
            decreases requested@.len() - i,
        {
            assert(requested@.take(i + 1).drop_last() =~= requested@.take(i as int));
            assert(requested@.take(i + 1).last() == requested@[i as int]);
            if self.cache.get(&requested[i]).is_none() {
                let ghost before = flat(done@) + cur@;
                cur.push(requested[i].clone());
                assert(flat(done@) + cur@ =~= before.push(requested@[i as int]));
                if cur.len() == self.chunk_size {
                    let ghost old_done = done@;
                    let full = cur;
                    cur = Vec::new();
                    done.push(full);
                    assert(done@.drop_last() =~= old_done);
                    assert(done@.last() == full);
                    assert(cur@ =~= Seq::<AuditQuery>::empty());
                    assert(flat(done@) + cur@ =~= flat(old_done) + full@);
                }
            }
            i = i + 1;
        }
        assert(requested@.take(requested@.len() as int) =~= requested@);
        if cur.len() > 0 {
            let ghost old_done = done@;
            let ghost last = cur@;
            done.push(cur);
            assert(done@.drop_last() =~= old_done);
            assert(flat(done@) =~= flat(old_done) + last);
        } else {
            assert(flat(done@) + cur@ =~= flat(done@));
        }
        proof {
            lemma_flat_of_nonempty_chunks(done@);
        }
        done
    }

    /// Keeps the answers of one chunk.
    pub fn record(&mut self, answers: Vec<(AuditQuery, AuditLookupResult)>)
        ensures
            final(self).cached() == old(self).cached() + answers@,
            final(self).base_url() == old(self).base_url(),
            final(self).concurrency() == old(self).concurrency(),
            final(self).chunk_size() == old(self).chunk_size(),
    {
        let ghost start = self.cache.entries@;
        let mut i: usize = 0;
        let mut rest = answers;
        let ghost all = rest@;
        let total: usize = rest.len();
        while rest.len() > 0
            invariant
                i + rest@.len() == all.len(),
                all.len() <= usize::MAX,
                rest@ == all.skip(i as int),
                self.cache.entries@ == start + all.take(i as int),
                self.base_url == old(self).base_url,
                self.concurrency == old(self).concurrency,
                self.chunk_size == old(self).chunk_size,
            decreases rest@.len(),
        {
            let ghost before = rest@;
            let (q, a) = rest.remove(0);
            assert(before[0] == all[i as int]);
            assert(rest@ =~= all.skip(i + 1));
            self.cache.insert(q, a);
            assert(all.take(i + 1) =~= all.take(i as int).push(all[i as int]));
            assert(self.cache.entries@ =~= start + all.take(i + 1));
            i = i + 1;
        }
        assert(all.take(all.len() as int) =~= all);
    }

    /// The recorded answer of each requested query that has one, in order.
    pub fn answers(&self, requested: &Vec<AuditQuery>) -> (r: AuditResults)
        ensures
            answers_view(r.entries@) == answered(requested@, self.cached()),
    {
        let mut out = AuditResults::new();
        let mut i: usize = 0;
        assert(answers_view(out.entries@) =~= answered(requested@.take(0), self.cached()));
        while i < requested.len()
            invariant
                i <= requested@.len(),
                answers_view(out.entries@) == answered(requested@.take(i as int), self.cached()),
            decreases requested@.len() - i,
        {
            assert(requested@.take(i + 1).drop_last() =~= requested@.take(i as int));
            assert(requested@.take(i + 1).last() == requested@[i as int]);
            match self.cache.get(&requested[i]) {
                Some(a) => {
                    let ghost before = answers_view(out.entries@);
                    let ghost av = a@;
                    out.insert(requested[i].clone(), a);
                    assert(answers_view(out.entries@) =~= before.push((requested@[i as int], av)));
                },
                None => {},
            }
            i = i + 1;
        }
        assert(requested@.take(requested@.len() as int) =~= requested@);
        out
    }
}


// ---------------------------------------------------------------------------
// Refreshing the answers
// ---------------------------------------------------------------------------

proof fn lemma_flat_of_nonempty_chunks(chunks: Seq<Vec<AuditQuery>>)
    requires
        forall|k: int| 0 <= k < chunks.len() ==> 0 < (#[trigger] chunks[k])@.len(),
    ensures
        chunks.len() > 0 ==> flat(chunks).len() > 0,
{
    if chunks.len() > 0 {
        assert(chunks.last()@.len() > 0);
    }
}

/// The answers of several chunks, chunk after chunk.
pub open spec fn flat_answers(answers: Seq<Seq<(AuditQuery, AuditLookupResult)>>) -> Seq<
    (AuditQuery, AuditLookupResult),
>
    decreases answers.len(),
{
    if answers.len() == 0 {
        Seq::empty()
    } else {
        flat_answers(answers.drop_last()) + answers.last()
    }
}

/// The answers of one chunk name that chunk's queries, in order.
pub open spec fn answers_chunk(answers: Seq<(AuditQuery, AuditLookupResult)>, chunk: Seq<AuditQuery>) -> bool {
    &&& answers.len() == chunk.len()
    &&& forall|i: int| 0 <= i < chunk.len() ==> (#[trigger] answers[i]).0 == chunk[i]
}

proof fn lemma_flat_answers(answers: Seq<Seq<(AuditQuery, AuditLookupResult)>>, chunks: Seq<Vec<AuditQuery>>)
    requires
        answers.len() == chunks.len(),
        forall|k: int| 0 <= k < chunks.len() ==> answers_chunk(#[trigger] answers[k], chunks[k]@),
    ensures
        flat_answers(answers).len() == flat(chunks).len(),
        forall|i: int| 0 <= i < flat(chunks).len() ==> (#[trigger] flat_answers(answers)[i]).0 == flat(chunks)[i],
    decreases chunks.len(),
{
    if chunks.len() > 0 {
        let n = (chunks.len() - 1) as int;
        assert forall|k: int| 0 <= k < n implies answers_chunk(#[trigger] answers.drop_last()[k], chunks.drop_last()[k]@) by {
            assert(answers_chunk(answers[k], chunks[k]@));
        }
        lemma_flat_answers(answers.drop_last(), chunks.drop_last());
        assert(answers_chunk(answers[n], chunks[n]@));
        let fa = flat_answers(answers.drop_last());
        let fc = flat(chunks.drop_last());
        assert forall|i: int| 0 <= i < flat(chunks).len() implies (#[trigger] flat_answers(answers)[i]).0
            == flat(chunks)[i] by {
            if i >= fc.len() {
                assert(answers.last()[i - fc.len()].0 == chunks.last()@[i - fc.len()]);
            }
        }
    }
}

proof fn lemma_all_found(requested: Seq<AuditQuery>, cache: Seq<(AuditQuery, AuditLookupResult)>)
    requires
        forall|k: int| 0 <= k < requested.len() ==> lookup_audit(cache, #[trigger] requested[k]) is Some,
    ensures
        answered(requested, cache).len() == requested.len(),
        uncached(requested, cache).len() == 0,
    decreases requested.len(),
{
    if requested.len() > 0 {
        let init = requested.drop_last();
        assert forall|k: int| 0 <= k < init.len() implies lookup_audit(cache, #[trigger] init[k]) is Some by {
            assert(init[k] == requested[k]);
        }
        lemma_all_found(init, cache);
        assert(lookup_audit(cache, requested[requested.len() - 1]) is Some);
    }
}

proof fn lemma_lookup_append(c1: Seq<(AuditQuery, AuditLookupResult)>, c2: Seq<(AuditQuery, AuditLookupResult)>, q: AuditQuery)
    ensures
        lookup_audit(c1 + c2, q) == match lookup_audit(c2, q) {
            Some(v) => Some(v),
            None => lookup_audit(c1, q),
        },
    decreases c2.len(),
{
    if c2.len() == 0 {
        assert(c1 + c2 =~= c1);
    } else {
        assert((c1 + c2).drop_last() =~= c1 + c2.drop_last());
        assert((c1 + c2).last() == c2.last());
        lemma_lookup_append(c1, c2.drop_last(), q);
    }
}

proof fn lemma_lookup_same(c: Seq<(AuditQuery, AuditLookupResult)>, u: AuditQuery, q: AuditQuery)
    requires
        u.same_as(q),
    ensures
        lookup_audit(c, u) == lookup_audit(c, q),
    decreases c.len(),
{
    if c.len() > 0 {
        lemma_lookup_same(c.drop_last(), u, q);
    }
}

proof fn lemma_lookup_found(c: Seq<(AuditQuery, AuditLookupResult)>, q: AuditQuery)
    ensures
        lookup_audit(c, q) is Some <==> exists|i: int| 0 <= i < c.len() && (#[trigger] c[i]).0.same_as(q),
    decreases c.len(),
{
    if c.len() > 0 {
        lemma_lookup_found(c.drop_last(), q);
        if exists|i: int| 0 <= i < c.drop_last().len() && (#[trigger] c.drop_last()[i]).0.same_as(q) {
            let i = choose|i: int| 0 <= i < c.drop_last().len() && (#[trigger] c.drop_last()[i]).0.same_as(q);
            assert(c[i] == c.drop_last()[i]);
        }
        if exists|i: int| 0 <= i < c.len() && (#[trigger] c[i]).0.same_as(q) {
            let i = choose|i: int| 0 <= i < c.len() && (#[trigger] c[i]).0.same_as(q);
            if i < c.len() - 1 {
                assert(c.drop_last()[i] == c[i]);
            }
        }
    }
}

proof fn lemma_uncached_members(requested: Seq<AuditQuery>, cache: Seq<(AuditQuery, AuditLookupResult)>)
    ensures
        forall|i: int|
            0 <= i < uncached(requested, cache).len() ==> lookup_audit(cache, #[trigger] uncached(requested, cache)[i])
                is None,
        forall|k: int|
            0 <= k < requested.len() && lookup_audit(cache, requested[k]) is None ==> exists|i: int|
                0 <= i < uncached(requested, cache).len() && #[trigger] uncached(requested, cache)[i]
                    == #[trigger] requested[k],
    decreases requested.len(),
{
    if requested.len() > 0 {
        let init = requested.drop_last();
        lemma_uncached_members(init, cache);
        let h = uncached(init, cache);
        assert forall|k: int|
            0 <= k < requested.len() && lookup_audit(cache, requested[k]) is None implies exists|i: int|
                0 <= i < uncached(requested, cache).len() && #[trigger] uncached(requested, cache)[i]
                    == #[trigger] requested[k] by {
            if k < requested.len() - 1 {
                assert(init[k] == requested[k]);
                let i = choose|i: int| 0 <= i < h.len() && #[trigger] h[i] == #[trigger] init[k];
                assert(uncached(requested, cache)[i] == h[i]);
            } else {
                assert(uncached(requested, cache)[h.len() as int] == requested[k]);
            }
        }
    }
}

/// Answering the queries that have no answer yet answers every requested
/// query, and leaves each answer already held as it was: a package version
/// is never asked about twice.
pub proof fn law_refresh_answers_every_query(
    requested: Seq<AuditQuery>,
    cache: Seq<(AuditQuery, AuditLookupResult)>,
    answers: Seq<(AuditQuery, AuditLookupResult)>,
)
    requires
        answers.len() == uncached(requested, cache).len(),
        forall|i: int| 0 <= i < answers.len() ==> (#[trigger] answers[i]).0 == uncached(requested, cache)[i],
    ensures
        forall|k: int| 0 <= k < requested.len() ==> lookup_audit(cache + answers, #[trigger] requested[k]) is Some,
        forall|q: AuditQuery|
            lookup_audit(cache, q) is Some ==> #[trigger] lookup_audit(cache + answers, q) == lookup_audit(cache, q),
{
    let u = uncached(requested, cache);
    lemma_uncached_members(requested, cache);
    assert forall|k: int| 0 <= k < requested.len() implies lookup_audit(cache + answers, #[trigger] requested[k])
        is Some by {
        let q = requested[k];
        lemma_lookup_append(cache, answers, q);
        if lookup_audit(cache, q) is None {
            let i = choose|i: int| 0 <= i < u.len() && #[trigger] u[i] == #[trigger] requested[k];
            assert(answers[i].0 == q);
            lemma_lookup_found(answers, q);
        }
    }
    assert forall|q: AuditQuery| lookup_audit(cache, q) is Some implies #[trigger] lookup_audit(cache + answers, q)
        == lookup_audit(cache, q) by {
        lemma_lookup_append(cache, answers, q);
        lemma_lookup_found(answers, q);
        if lookup_audit(answers, q) is Some {
            let i = choose|i: int| 0 <= i < answers.len() && (#[trigger] answers[i]).0.same_as(q);
            assert(answers[i].0 == u[i]);
            lemma_lookup_same(cache, u[i], q);
            assert(lookup_audit(cache, u[i]) is None);
        }
    }
}

/// A whole query. The requested set names each package version asked about
/// once; the service sends only the chunks of requested queries it holds no
/// answer for (none at all when every one is answered, or nothing was
/// asked), and records each chunk's answers, a failed request answering its
/// queries with the failure. Afterwards every package version asked about
/// has an answer, every requested query is answered, asking again finds
/// nothing to send, and each answer held before is kept.
pub proof fn law_query_answers_every_query(
    queries: Seq<AuditQuery>,
    requested: Seq<AuditQuery>,
    cache: Seq<(AuditQuery, AuditLookupResult)>,
    chunks: Seq<Vec<AuditQuery>>,
    answers: Seq<Seq<(AuditQuery, AuditLookupResult)>>,
)
    requires
        forall|x: AuditQuery| #[trigger] has_query(requested, x) == has_query(queries, x),
        flat(chunks) == uncached(requested, cache),
        answers.len() == chunks.len(),
        forall|k: int| 0 <= k < chunks.len() ==> answers_chunk(#[trigger] answers[k], chunks[k]@),
    ensures
        forall|x: AuditQuery|
            has_query(queries, x) ==> #[trigger] lookup_audit(cache + flat_answers(answers), x) is Some,
        answered(requested, cache + flat_answers(answers)).len() == requested.len(),
        uncached(requested, cache + flat_answers(answers)).len() == 0,
        forall|q: AuditQuery|
            lookup_audit(cache, q) is Some ==> #[trigger] lookup_audit(cache + flat_answers(answers), q)
                == lookup_audit(cache, q),
{
    let all = flat_answers(answers);
    lemma_flat_answers(answers, chunks);
    law_refresh_answers_every_query(requested, cache, all);
    lemma_all_found(requested, cache + all);
    assert forall|x: AuditQuery| has_query(queries, x) implies #[trigger] lookup_audit(cache + all, x) is Some by {
        assert(has_query(requested, x));
        let i = choose|i: int| 0 <= i < requested.len() && #[trigger] requested[i].same_as(x);
        assert(lookup_audit(cache + all, requested[i]) is Some);
        lemma_lookup_same(cache + all, requested[i], x);
    }
}

proof fn lemma_answered_all(requested: Seq<AuditQuery>, cache: Seq<(AuditQuery, AuditLookupResult)>)
    requires
        forall|k: int| 0 <= k < requested.len() ==> lookup_audit(cache, #[trigger] requested[k]) is Some,
    ensures
        answered(requested, cache).len() == requested.len(),
        forall|k: int|
            0 <= k < requested.len() ==> #[trigger] answered(requested, cache)[k] == (
                requested[k],
                lookup_audit(cache, requested[k])->0,
            ),
    decreases requested.len(),
{
    if requested.len() > 0 {
        let init = requested.drop_last();
        assert forall|k: int| 0 <= k < init.len() implies lookup_audit(cache, #[trigger] init[k]) is Some by {
            assert(init[k] == requested[k]);
        }
        lemma_answered_all(init, cache);
        assert(lookup_audit(cache, requested[requested.len() - 1]) is Some);
        assert forall|k: int| 0 <= k < requested.len() implies #[trigger] answered(requested, cache)[k] == (
            requested[k],
            lookup_audit(cache, requested[k])->0,
        ) by {
            if k < init.len() {
                assert(init[k] == requested[k]);
            }
        }
    }
}

impl AuditService {
    /// Answers `queries`: each package version asked about once, asking OSV
    /// through `post` only for the chunks of queries that have no answer
    /// yet. A failed request answers its queries with the failure, so every
    /// query is answered. Answers held before are kept; when every query
    /// already has one, nothing is recorded.
    pub fn query<F: Fn(&Vec<AuditQuery>) -> Result<Vec<Vec<OsvVulnerability>>, AuditError>>(
        &mut self,
        queries: Vec<AuditQuery>,
        post: F,
    ) -> (r: AuditResults)
        requires
            old(self).chunk_size() > 0,
            forall|c: &Vec<AuditQuery>| #[trigger] post.requires((c,)),
        ensures
            forall|k: int|
                0 <= k < r.entries@.len() ==> has_query(queries@, (#[trigger] r.entries@[k]).0) && lookup_audit(
                    final(self).cached(),
                    r.entries@[k].0,
                ) == Some(r.entries@[k].1@),
            forall|x: AuditQuery|
                #[trigger] has_query(queries@, x) ==> exists|k: int|
                    0 <= k < r.entries@.len() && (#[trigger] r.entries@[k]).0.same_as(x),
            forall|x: AuditQuery| #[trigger] has_query(queries@, x) ==> lookup_audit(final(self).cached(), x) is Some,
            forall|q: AuditQuery|
                lookup_audit(old(self).cached(), q) is Some ==> #[trigger] lookup_audit(final(self).cached(), q)
                    == lookup_audit(old(self).cached(), q),
            (forall|x: AuditQuery| #[trigger] has_query(queries@, x) ==> lookup_audit(old(self).cached(), x) is Some)
                ==> final(self).cached() == old(self).cached(),
            final(self).base_url() == old(self).base_url(),
            final(self).concurrency() == old(self).concurrency(),
            final(self).chunk_size() == old(self).chunk_size(),
    {
        let ghost qs = queries@;
        let requested = AuditService::requested(queries);
        let ghost start = self.cached();
        let chunks = self.missing_chunks(&requested);
        let ghost all_chunks = chunks@;
        let mut rest = chunks;
        let total: usize = rest.len();
        let ghost mut answers: Seq<Seq<(AuditQuery, AuditLookupResult)>> = Seq::empty();
        let mut i: usize = 0;
        while rest.len() > 0
            invariant
                all_chunks.len() == total,
                i + rest@.len() == all_chunks.len(),
                rest@ == all_chunks.skip(i as int),
                answers.len() == i,
                forall|k: int| 0 <= k < i ==> answers_chunk(#[trigger] answers[k], all_chunks[k]@),
                self.cached() == start + flat_answers(answers),
                self.base_url() == old(self).base_url(),
                self.concurrency() == old(self).concurrency(),
                self.chunk_size() == old(self).chunk_size(),
                forall|c: &Vec<AuditQuery>| #[trigger] post.requires((c,)),
            decreases rest@.len(),
        {
            let ghost before = rest@;
            let chunk = rest.remove(0);
            assert(before[0] == all_chunks[i as int]);
            assert(rest@ =~= all_chunks.skip(i + 1));
            let outcome = post(&chunk);
            let ghost cv = chunk@;
            let got = chunk_answers(chunk, outcome);
            let ghost gv = got@;
            let ghost prev = answers;
            self.record(got);
            proof {
                answers = prev.push(gv);
                assert(answers.drop_last() =~= prev);
                assert(answers_chunk(gv, cv));
                assert forall|k: int| 0 <= k < i + 1 implies answers_chunk(#[trigger] answers[k], all_chunks[k]@) by {
                    if k < i {
                        assert(answers[k] == prev[k]);
                    }
                }
                assert(start + flat_answers(answers) =~= (start + flat_answers(prev)) + gv);
            }
            i = i + 1;
        }
        proof {
            law_query_answers_every_query(qs, requested@, start, all_chunks, answers);
        }
        let r = self.answers(&requested);
        proof {
            let fin = self.cached();
            assert forall|k: int| 0 <= k < requested@.len() implies lookup_audit(fin, #[trigger] requested@[k]) is Some by {
                assert(requested@[k].same_as(requested@[k]));
                assert(has_query(requested@, requested@[k]));
            }
            lemma_answered_all(requested@, fin);
            let av = answers_view(r.entries@);
            assert(av.len() == r.entries@.len());
            assert forall|k: int| 0 <= k < r.entries@.len() implies has_query(qs, (#[trigger] r.entries@[k]).0)
                && lookup_audit(fin, r.entries@[k].0) == Some(r.entries@[k].1@) by {
                assert(av[k] == answered(requested@, fin)[k]);
                assert(requested@[k].same_as(requested@[k]));
                assert(has_query(requested@, requested@[k]));
            }
            assert forall|x: AuditQuery| #[trigger] has_query(qs, x) implies exists|k: int|
                0 <= k < r.entries@.len() && (#[trigger] r.entries@[k]).0.same_as(x) by {
                assert(has_query(requested@, x));
                let k = choose|k: int| 0 <= k < requested@.len() && #[trigger] requested@[k].same_as(x);
                assert(av[k] == answered(requested@, fin)[k]);
            }
            if forall|x: AuditQuery| #[trigger] has_query(qs, x) ==> lookup_audit(start, x) is Some {
                assert forall|k: int| 0 <= k < requested@.len() implies lookup_audit(start, #[trigger] requested@[k])
                    is Some by {
                    assert(requested@[k].same_as(requested@[k]));
                    assert(has_query(requested@, requested@[k]));
                    assert(has_query(qs, requested@[k]));
                }
                lemma_all_found(requested@, start);
                assert(all_chunks.len() == 0);
                assert(answers =~= Seq::<Seq<(AuditQuery, AuditLookupResult)>>::empty());
                assert(start + flat_answers(answers) =~= start);
            }
        }
        r
    }
}

} // verus!
