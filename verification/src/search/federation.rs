//! Results of several web searches, merged and ranked.
//!
//! Each search ranks the pages it found. A page counts once for each search that found it, by its best
//! rank there. The ranks are kept; the score that they sum up to is given from outside, in the order
//! of the bits of a number that is not negative.
use crate::data;
use crate::text;
use vstd::prelude::*;

verus! {

/// How many pages are returned.
pub const MAX_RESULTS: usize = 15;

/// Why a search of the web failed.
#[derive(Debug)]
pub struct SearchError(pub String);

impl View for SearchError {
    type V = Seq<char>;

    open spec fn view(&self) -> Seq<char> {
        self.0@
    }
}

impl SearchError {
    /// The failure in words.
    pub fn message(&self) -> (r: String)
        ensures
            r@ == "web search failed: "@ + self@,
    {
        text::concat("web search failed: ", self.0.as_str())
    }
}

/// A page that was found.
#[derive(Debug)]
pub struct SearchHit {
    pub title: String,
    pub url: String,
    pub chunk: String,
    pub engines: Vec<String>,
    pub ranks: Vec<usize>,
}

#[verifier::ext_equal]
pub struct SearchHitView {
    pub title: Seq<char>,
    pub url: Seq<char>,
    pub chunk: Seq<char>,
    pub engines: Seq<Seq<char>>,
    pub ranks: Seq<usize>,
}

impl View for SearchHit {
    type V = SearchHitView;

    open spec fn view(&self) -> SearchHitView {
        SearchHitView {
            title: self.title@,
            url: self.url@,
            chunk: self.chunk@,
            engines: data::views(self.engines@),
            ranks: self.ranks@,
        }
    }
}

impl SearchHit {
    /// A page as a search found it.
    pub fn new(title: &str, url: &str, chunk: &str, engines: Vec<String>) -> (r: Self)
        ensures
            r@ == (SearchHitView {
                title: title@,
                url: url@,
                chunk: chunk@,
                engines: data::views(engines@),
                ranks: Seq::empty(),
            }),
    {
        SearchHit {
            title: title.to_owned(),
            url: url.to_owned(),
            chunk: chunk.to_owned(),
            engines,
            ranks: Vec::new(),
        }
    }
}

/// Position of the page with an address, or the length.
pub open spec fn hit_at(merged: Seq<SearchHitView>, url: Seq<char>) -> int
    decreases merged.len(),
{
    if merged.len() == 0 {
        0
    } else if merged[0].url == url {
        0
    } else {
        1 + hit_at(merged.drop_first(), url)
    }
}

/// A known page with what another search, or the same one again, found of it: a search counts once,
/// and the longer snippet stays.
pub open spec fn joined_hit(
    known: SearchHitView,
    engine: Seq<char>,
    rank: usize,
    found: SearchHitView,
) -> SearchHitView {
    let counted = known.engines.contains(engine);
    SearchHitView {
        engines: if counted {
            known.engines
        } else {
            known.engines.push(engine)
        },
        ranks: if counted {
            known.ranks
        } else {
            known.ranks.push(rank)
        },
        chunk: if text::utf8_len(found.chunk) > text::utf8_len(known.chunk) {
            found.chunk
        } else {
            known.chunk
        },
        ..known
    }
}

/// The pages with one that a search found at a rank.
pub open spec fn with_hit(
    merged: Seq<SearchHitView>,
    engine: Seq<char>,
    rank: usize,
    found: SearchHitView,
) -> Seq<SearchHitView> {
    let at = hit_at(merged, found.url);
    if at < merged.len() {
        merged.update(at, joined_hit(merged[at], engine, rank, found))
    } else {
        merged.push(SearchHitView { ranks: seq![rank], ..found })
    }
}

/// The pages with those that a search found, in their order.
pub open spec fn with_hits(
    merged: Seq<SearchHitView>,
    engine: Seq<char>,
    found: Seq<SearchHitView>,
) -> Seq<SearchHitView>
    decreases found.len(),
{
    if found.len() == 0 {
        merged
    } else {
        with_hit(
            with_hits(merged, engine, found.drop_last()),
            engine,
            (found.len() - 1) as usize,
            found.last(),
        )
    }
}

/// The position is that of the first page with the address.
pub proof fn lemma_hit_at(merged: Seq<SearchHitView>, url: Seq<char>, at: int)
    requires
        0 <= at <= merged.len(),
        forall|k: int| 0 <= k < at ==> (#[trigger] merged[k]).url != url,
        at < merged.len() ==> merged[at].url == url,
    ensures
        hit_at(merged, url) == at,
    decreases merged.len(),
{
    if at > 0 {
        assert(merged[0].url != url);
        let rest = merged.drop_first();
        assert forall|k: int| 0 <= k < at - 1 implies (#[trigger] rest[k]).url != url by {
            assert(rest[k] == merged[k + 1]);
        }
        if at < merged.len() {
            assert(rest[at - 1] == merged[at]);
        }
        lemma_hit_at(rest, url, at - 1);
    }
}

fn names_engine(engines: &Vec<String>, engine: &str) -> (r: bool)
    ensures
        r == data::views(engines@).contains(engine@),
{
    let ghost all = data::views(engines@);
    let mut i: usize = 0;
    while i < engines.len()
        invariant
            i <= engines@.len(),
            all == data::views(engines@),
            forall|k: int| 0 <= k < i ==> all[k] != engine@,
        decreases engines@.len() - i,
    {
        if text::same(engines[i].as_str(), engine) {
            assert(all[i as int] == engine@);
            return true;
        }
        i += 1;
    }
    false
}

fn add_hit(merged: &mut Vec<SearchHit>, engine: &str, rank: usize, found: SearchHit)
    ensures
        data::views(final(merged)@) == with_hit(
            data::views(old(merged)@),
            engine@,
            rank,
            found@,
        ),
{
    let ghost all = data::views(merged@);
    assert(all.len() == merged@.len());
    let ghost whole = found@;
    let mut i: usize = 0;
    while i < merged.len() && !text::same(merged[i].url.as_str(), found.url.as_str())
        invariant
            i <= merged@.len(),
            all == data::views(merged@),
            all.len() == merged@.len(),
            forall|k: int| 0 <= k < i ==> (#[trigger] all[k]).url != found@.url,
        decreases merged@.len() - i,
    {
        assert(all[i as int] == merged@[i as int]@);
        i += 1;
    }
    if i < merged.len() {
        assert(all[i as int] == merged@[i as int]@);
        proof {
            lemma_hit_at(all, whole.url, i as int);
        }
        let ghost known = merged@[i as int]@;
        let ghost engines = data::views(merged@[i as int].engines@);
        if !names_engine(&merged[i].engines, engine) {
            merged[i].engines.push(engine.to_owned());
            merged[i].ranks.push(rank);
            assert(data::views(merged@[i as int].engines@) =~= engines.push(engine@));
        }
        if text::byte_len(found.chunk.as_str()) > text::byte_len(merged[i].chunk.as_str()) {
            merged[i].chunk = found.chunk;
        }
        assert(merged@[i as int]@ == joined_hit(known, engine@, rank, whole));
        assert(data::views(merged@) =~= all.update(i as int, merged@[i as int]@));
    } else {
        proof {
            lemma_hit_at(all, whole.url, i as int);
        }
        let mut ranks: Vec<usize> = Vec::new();
        ranks.push(rank);
        assert(ranks@ =~= seq![rank]);
        let hit = SearchHit {
            title: found.title,
            url: found.url,
            chunk: found.chunk,
            engines: found.engines,
            ranks,
        };
        merged.push(hit);
        assert(data::views(merged@) =~= all.push(hit@));
    }
}

/// Adds the pages that a search found, in their order, to those that are known.
pub fn merge(merged: &mut Vec<SearchHit>, engine: &str, results: Vec<SearchHit>)
    ensures
        data::views(final(merged)@) == with_hits(
            data::views(old(merged)@),
            engine@,
            data::views(results@),
        ),
{
    let ghost start = data::views(merged@);
    let ghost found = data::views(results@);
    let count: usize = results.len();
    let mut rest = results;
    let mut backwards: Vec<SearchHit> = Vec::new();
    while rest.len() > 0
        invariant
            rest@ + backwards@.reverse() == results@,
        decreases rest@.len(),
    {
        let ghost before = rest@;
        let ghost turned = backwards@;
        match rest.pop() {
            Some(hit) => {
                backwards.push(hit);
                assert(backwards@.reverse() =~= seq![hit] + turned.reverse());
                assert(rest@ + backwards@.reverse() =~= before + turned.reverse());
            },
            None => {},
        }
    }
    assert(backwards@.reverse() =~= results@);
    let mut rank: usize = 0;
    assert(found.take(0) =~= Seq::empty());
    while backwards.len() > 0
        invariant
            found == data::views(results@),
            rank + backwards@.len() == count,
            count == results@.len(),
            backwards@.reverse() == results@.skip(rank as int),
            data::views(merged@) == with_hits(start, engine@, found.take(rank as int)),
        decreases backwards@.len(),
    {
        let ghost before = backwards@;
        match backwards.pop() {
            Some(hit) => {
                proof {
                    assert(before.reverse()[0] == hit);
                    assert(results@.skip(rank as int)[0] == results@[rank as int]);
                    assert(backwards@.reverse() =~= before.reverse().drop_first());
                    assert(results@.skip(rank as int).drop_first() =~= results@.skip(rank + 1));
                    assert(found.take(rank + 1).drop_last() =~= found.take(rank as int));
                    assert(found.take(rank + 1).last() == hit@);
                }
                add_hit(merged, engine, rank, hit);
                rank += 1;
            },
            None => {},
        }
    }
    assert(found.take(rank as int) =~= found);
}

/// Whether no two pages have the same address.
pub open spec fn addresses_differ(merged: Seq<SearchHitView>) -> bool {
    forall|i: int, j: int|
        0 <= i < j < merged.len() ==> (#[trigger] merged[i]).url != (#[trigger] merged[j]).url
}

proof fn lemma_hit_at_is_first(merged: Seq<SearchHitView>, url: Seq<char>)
    ensures
        0 <= hit_at(merged, url) <= merged.len(),
        hit_at(merged, url) < merged.len() ==> merged[hit_at(merged, url)].url == url,
        forall|k: int| 0 <= k < hit_at(merged, url) ==> (#[trigger] merged[k]).url != url,
    decreases merged.len(),
{
    if merged.len() > 0 && merged[0].url != url {
        let rest = merged.drop_first();
        lemma_hit_at_is_first(rest, url);
        assert forall|k: int| 0 <= k < hit_at(merged, url) implies (
        #[trigger] merged[k]).url != url by {
            if k > 0 {
                assert(rest[k - 1] == merged[k]);
            }
        }
    }
}

/// Adding what a search found keeps the addresses apart, and loses no address.
pub proof fn law_merging_keeps_addresses_apart(
    merged: Seq<SearchHitView>,
    engine: Seq<char>,
    found: Seq<SearchHitView>,
)
    requires
        addresses_differ(merged),
    ensures
        addresses_differ(with_hits(merged, engine, found)),
        merged.len() <= with_hits(merged, engine, found).len(),
        forall|i: int|
            0 <= i < merged.len() ==> (#[trigger] with_hits(merged, engine, found)[i]).url
                == merged[i].url,
        forall|k: int|
            0 <= k < found.len() ==> exists|i: int|
                0 <= i < with_hits(merged, engine, found).len() && (#[trigger] with_hits(
                    merged,
                    engine,
                    found,
                )[i]).url == (#[trigger] found[k]).url,
    decreases found.len(),
{
    if found.len() > 0 {
        let last = found.last();
        let earlier = found.drop_last();
        law_merging_keeps_addresses_apart(merged, engine, earlier);
        let before = with_hits(merged, engine, earlier);
        let out = with_hits(merged, engine, found);
        let at = hit_at(before, last.url);
        lemma_hit_at_is_first(before, last.url);
        assert forall|i: int| 0 <= i < before.len() implies (#[trigger] out[i]).url
            == before[i].url by {}
        assert forall|i: int, j: int| 0 <= i < j < out.len() implies (#[trigger] out[i]).url != (
        #[trigger] out[j]).url by {
            assert(out[i].url == before[i].url);
            if j < before.len() {
                assert(out[j].url == before[j].url);
            }
        }
        assert forall|k: int| 0 <= k < found.len() implies exists|i: int|
            0 <= i < out.len() && (#[trigger] out[i]).url == (#[trigger] found[k]).url by {
            if k < earlier.len() {
                assert(earlier[k] == found[k]);
                let i = choose|i: int|
                    0 <= i < before.len() && (#[trigger] before[i]).url == earlier[k].url;
                assert(out[i].url == before[i].url);
            } else {
                assert(out[at].url == last.url);
            }
        }
    }
}

/// What a search engine answered: its name, and the pages if it did answer.
#[derive(Debug)]
pub struct EngineResponse {
    pub engine: String,
    pub results: Option<Vec<SearchHit>>,
}

#[verifier::ext_equal]
pub struct EngineResponseView {
    pub engine: Seq<char>,
    pub results: Option<Seq<SearchHitView>>,
}

impl View for EngineResponse {
    type V = EngineResponseView;

    open spec fn view(&self) -> EngineResponseView {
        EngineResponseView {
            engine: self.engine@,
            results: match self.results {
                Some(hits) => Some(data::views(hits@)),
                None => None,
            },
        }
    }
}

/// The pages that were found, and the engines that found none.
#[verifier::ext_equal]
pub struct Collected {
    pub merged: Seq<SearchHitView>,
    pub failures: Seq<Seq<char>>,
}

/// The pages and failures with another answer.
pub open spec fn with_response(known: Collected, response: EngineResponseView) -> Collected {
    match response.results {
        Some(hits) => if hits.len() > 0 {
            Collected { merged: with_hits(known.merged, response.engine, hits), ..known }
        } else {
            Collected { failures: known.failures.push(response.engine), ..known }
        },
        None => Collected { failures: known.failures.push(response.engine), ..known },
    }
}

/// The pages and failures of some answers.
pub open spec fn collected(responses: Seq<EngineResponseView>) -> Collected
    decreases responses.len(),
{
    if responses.len() == 0 {
        Collected { merged: Seq::empty(), failures: Seq::empty() }
    } else {
        with_response(collected(responses.drop_last()), responses.last())
    }
}

/// The pages that all engines found together have addresses of their own: a page that several
/// engines found stands there once.
pub proof fn law_collected_addresses_differ(responses: Seq<EngineResponseView>)
    ensures
        addresses_differ(collected(responses).merged),
    decreases responses.len(),
{
    if responses.len() > 0 {
        law_collected_addresses_differ(responses.drop_last());
        if let Some(hits) = responses.last().results {
            law_merging_keeps_addresses_apart(
                collected(responses.drop_last()).merged,
                responses.last().engine,
                hits,
            );
        }
    }
}

/// The query that the engines are asked.
pub fn search_query(query: &str) -> (r: Result<String, SearchError>)
    ensures
        match r {
            Ok(q) => !text::blank(query@) && q@ == text::trimmed(query@),
            Err(e) => text::blank(query@) && e@ == "query is empty"@,
        },
{
    if text::is_blank(query) {
        Err(SearchError("query is empty".to_owned()))
    } else {
        Ok(text::trim(query))
    }
}

/// The pages that all engines found together, or an error that names the engines if none found any.
pub fn merge_responses(responses: Vec<EngineResponse>) -> (r: Result<Vec<SearchHit>, SearchError>)
    ensures
        ({
            let known = collected(data::views(responses@));
            match r {
                Ok(hits) => known.merged.len() > 0 && data::views(hits@) == known.merged,
                Err(e) => known.merged.len() == 0 && e@ == "no results from engines: "@
                    + text::joined(known.failures, ", "@),
            }
        }),
{
    let ghost all = data::views(responses@);
    let mut rest = responses;
    let mut backwards: Vec<EngineResponse> = Vec::new();
    while rest.len() > 0
        invariant
            rest@ + backwards@.reverse() == responses@,
        decreases rest@.len(),
    {
        let ghost before = rest@;
        let ghost turned = backwards@;
        match rest.pop() {
            Some(response) => {
                backwards.push(response);
                assert(backwards@.reverse() =~= seq![response] + turned.reverse());
                assert(rest@ + backwards@.reverse() =~= before + turned.reverse());
            },
            None => {},
        }
    }
    assert(backwards@.reverse() =~= responses@);
    let mut merged: Vec<SearchHit> = Vec::new();
    let mut failures: Vec<String> = Vec::new();
    let ghost mut done: int = 0;
    assert(all.take(0) =~= Seq::empty());
    assert(data::views(merged@) =~= Seq::empty());
    assert(data::views(failures@) =~= Seq::empty());
    while backwards.len() > 0
        invariant
            all == data::views(responses@),
            0 <= done,
            done + backwards@.len() == responses@.len(),
            backwards@.reverse() == responses@.skip(done),
            (Collected { merged: data::views(merged@), failures: data::views(failures@) })
                == collected(all.take(done)),
        decreases backwards@.len(),
    {
        let ghost before = backwards@;
        let ghost failed = data::views(failures@);
        match backwards.pop() {
            Some(response) => {
                proof {
                    assert(before.reverse()[0] == response);
                    assert(responses@.skip(done)[0] == responses@[done]);
                    assert(backwards@.reverse() =~= before.reverse().drop_first());
                    assert(responses@.skip(done).drop_first() =~= responses@.skip(done + 1));
                    assert(all.take(done + 1).drop_last() =~= all.take(done));
                    assert(all.take(done + 1).last() == response@);
                    done = done + 1;
                }
                let ghost engine = response.engine@;
                match response.results {
                    Some(hits) => {
                        assert(data::views(hits@).len() == hits@.len());
                        if hits.len() > 0 {
                            merge(&mut merged, response.engine.as_str(), hits);
                        } else {
                            failures.push(response.engine);
                            assert(data::views(failures@) =~= failed.push(engine));
                        }
                    },
                    None => {
                        failures.push(response.engine);
                        assert(data::views(failures@) =~= failed.push(engine));
                    },
                }
            },
            None => {},
        }
    }
    assert(all.take(done) =~= all);
    assert(data::views(merged@).len() == merged@.len());
    if merged.len() == 0 {
        let names = text::join(&failures, ", ");
        return Err(SearchError(text::concat("no results from engines: ", names.as_str())));
    }
    Ok(merged)
}

/// A page with its score.
#[derive(Debug)]
pub struct RankedHit {
    pub hit: SearchHit,
    pub score: u64,
}

#[verifier::ext_equal]
pub struct RankedHitView {
    pub hit: SearchHitView,
    pub score: u64,
}

impl View for RankedHit {
    type V = RankedHitView;

    open spec fn view(&self) -> RankedHitView {
        RankedHitView { hit: self.hit@, score: self.score }
    }
}

/// Whether a page stands before another: by a higher score, then by its address.
pub open spec fn stands_before(a: RankedHitView, b: RankedHitView) -> bool {
    a.score > b.score || (a.score == b.score && text::precedes(a.hit.url, b.hit.url))
}

/// The pages with another one, behind all that stand before it.
pub open spec fn placed(ranked: Seq<RankedHitView>, hit: RankedHitView) -> Seq<RankedHitView>
    decreases ranked.len(),
{
    if ranked.len() == 0 {
        seq![hit]
    } else if stands_before(hit, ranked.last()) {
        placed(ranked.drop_last(), hit).push(ranked.last())
    } else {
        ranked.push(hit)
    }
}

/// The pages in the order of their scores.
pub open spec fn in_order(hits: Seq<RankedHitView>) -> Seq<RankedHitView>
    decreases hits.len(),
{
    if hits.len() == 0 {
        Seq::empty()
    } else {
        placed(in_order(hits.drop_last()), hits.last())
    }
}

fn comes_before(a: &RankedHit, b: &RankedHit) -> (r: bool)
    ensures
        r == stands_before(a@, b@),
{
    a.score > b.score || (a.score == b.score && text::is_before(
        a.hit.url.as_str(),
        b.hit.url.as_str(),
    ))
}

fn place(ranked: &mut Vec<RankedHit>, hit: RankedHit)
    ensures
        data::views(final(ranked)@) == placed(data::views(old(ranked)@), hit@),
{
    let ghost all = data::views(ranked@);
    assert(all.len() == ranked@.len());
    let mut end: usize = ranked.len();
    assert(all.take(end as int) =~= all);
    assert(placed(all, hit@) =~= placed(all.take(end as int), hit@) + all.skip(end as int));
    while end > 0 && comes_before(&hit, &ranked[end - 1])
        invariant
            end <= ranked@.len(),
            all == data::views(ranked@),
            all.len() == ranked@.len(),
            placed(all, hit@) == placed(all.take(end as int), hit@) + all.skip(end as int),
        decreases end,
    {
        proof {
            let now = all.take(end as int);
            assert(now.last() == ranked@[end - 1]@);
            assert(now.drop_last() =~= all.take(end - 1));
            assert(placed(all.take(end - 1), hit@).push(now.last()) + all.skip(end as int)
                =~= placed(all.take(end - 1), hit@) + all.skip(end - 1));
        }
        end -= 1;
    }
    proof {
        let now = all.take(end as int);
        if end > 0 {
            assert(now.last() == ranked@[end - 1]@);
        } else {
            assert(now =~= Seq::empty());
        }
        assert(placed(now, hit@) =~= now.push(hit@));
    }
    ranked.insert(end, hit);
    assert(data::views(ranked@) =~= all.take(end as int).push(hit@) + all.skip(end as int));
}

/// The first pages in the order of their scores.
pub open spec fn best(hits: Seq<RankedHitView>) -> Seq<RankedHitView> {
    let ordered = in_order(hits);
    if ordered.len() > MAX_RESULTS {
        ordered.take(MAX_RESULTS as int)
    } else {
        ordered
    }
}

/// The pages with the highest scores, in their order.
pub fn rank_results(hits: Vec<RankedHit>) -> (r: Vec<RankedHit>)
    ensures
        data::views(r@) == best(data::views(hits@)),
{
    let ghost all = data::views(hits@);
    let mut rest = hits;
    let mut backwards: Vec<RankedHit> = Vec::new();
    while rest.len() > 0
        invariant
            rest@ + backwards@.reverse() == hits@,
        decreases rest@.len(),
    {
        let ghost before = rest@;
        let ghost turned = backwards@;
        match rest.pop() {
            Some(hit) => {
                backwards.push(hit);
                assert(backwards@.reverse() =~= seq![hit] + turned.reverse());
                assert(rest@ + backwards@.reverse() =~= before + turned.reverse());
            },
            None => {},
        }
    }
    assert(backwards@.reverse() =~= hits@);
    let mut ranked: Vec<RankedHit> = Vec::new();
    let ghost mut done: int = 0;
    assert(all.take(0) =~= Seq::empty());
    assert(data::views(ranked@) =~= Seq::empty());
    while backwards.len() > 0
        invariant
            all == data::views(hits@),
            0 <= done,
            done + backwards@.len() == hits@.len(),
            backwards@.reverse() == hits@.skip(done),
            data::views(ranked@) == in_order(all.take(done)),
        decreases backwards@.len(),
    {
        let ghost before = backwards@;
        match backwards.pop() {
            Some(hit) => {
                proof {
                    assert(before.reverse()[0] == hit);
                    assert(hits@.skip(done)[0] == hits@[done]);
                    assert(backwards@.reverse() =~= before.reverse().drop_first());
                    assert(hits@.skip(done).drop_first() =~= hits@.skip(done + 1));
                    assert(all.take(done + 1).drop_last() =~= all.take(done));
                    assert(all.take(done + 1).last() == hit@);
                    done = done + 1;
                }
                place(&mut ranked, hit);
            },
            None => {},
        }
    }
    assert(all.take(done) =~= all);
    let ghost ordered = data::views(ranked@);
    assert(ordered.len() == ranked@.len());
    ranked.truncate(MAX_RESULTS);
    assert(data::views(ranked@) =~= best(all));
    ranked
}

proof fn lemma_placed(ranked: Seq<RankedHitView>, hit: RankedHitView)
    requires
        forall|i: int, j: int|
            0 <= i < j < ranked.len() ==> !stands_before(
                #[trigger] ranked[j],
                #[trigger] ranked[i],
            ),
    ensures
        placed(ranked, hit).to_multiset() == ranked.to_multiset().insert(hit),
        placed(ranked, hit).len() == ranked.len() + 1,
        forall|i: int, j: int|
            0 <= i < j < placed(ranked, hit).len() ==> !stands_before(
                #[trigger] placed(ranked, hit)[j],
                #[trigger] placed(ranked, hit)[i],
            ),
        forall|i: int|
            0 <= i < placed(ranked, hit).len() ==> (#[trigger] placed(ranked, hit)[i]) == hit
                || exists|k: int| 0 <= k < ranked.len() && ranked[k] == placed(ranked, hit)[i],
    decreases ranked.len(),
{
    broadcast use vstd::seq_lib::group_to_multiset_ensures;

    let out = placed(ranked, hit);
    if ranked.len() == 0 {
        assert(out =~= ranked.push(hit));
    } else if stands_before(hit, ranked.last()) {
        let rest = ranked.drop_last();
        let last = ranked.last();
        lemma_placed(rest, hit);
        let inner = placed(rest, hit);
        assert(out =~= inner.push(last));
        assert(ranked =~= rest.push(last));
        assert(out.to_multiset() =~= ranked.to_multiset().insert(hit));
        assert forall|i: int, j: int| 0 <= i < j < out.len() implies !stands_before(
            #[trigger] out[j],
            #[trigger] out[i],
        ) by {
            assert(out[i] == inner[i]);
            if j < inner.len() {
                assert(out[j] == inner[j]);
            } else if inner[i] == hit {
                lemma_order(last, hit);
            } else {
                let k = choose|k: int| 0 <= k < rest.len() && rest[k] == inner[i];
                assert(ranked[k] == inner[i]);
                assert(ranked[ranked.len() - 1] == last);
            }
        }
        assert forall|i: int| 0 <= i < out.len() implies (#[trigger] out[i]) == hit || exists|k: int|
            0 <= k < ranked.len() && ranked[k] == out[i] by {
            if i < inner.len() {
                assert(out[i] == inner[i]);
                if inner[i] != hit {
                    let k = choose|k: int| 0 <= k < rest.len() && rest[k] == inner[i];
                    assert(ranked[k] == out[i]);
                }
            } else {
                assert(ranked[ranked.len() - 1] == out[i]);
            }
        }
    } else {
        assert(out =~= ranked.push(hit));
        assert forall|i: int, j: int| 0 <= i < j < out.len() implies !stands_before(
            #[trigger] out[j],
            #[trigger] out[i],
        ) by {
            if j == ranked.len() {
                if i < ranked.len() - 1 {
                    if stands_before(hit, ranked[i]) {
                        lemma_order_steps(hit, ranked[i], ranked.last());
                        assert(!stands_before(ranked[ranked.len() - 1], ranked[i]));
                    }
                }
            } else {
                assert(out[j] == ranked[j]);
                assert(out[i] == ranked[i]);
            }
        }
        assert forall|i: int| 0 <= i < out.len() implies (#[trigger] out[i]) == hit || exists|k: int|
            0 <= k < ranked.len() && ranked[k] == out[i] by {
            if i < ranked.len() {
                assert(ranked[i] == out[i]);
            }
        }
    }
}

proof fn lemma_order(a: RankedHitView, b: RankedHitView)
    ensures
        !(stands_before(a, b) && stands_before(b, a)),
{
    text::lemma_precedes_total(a.hit.url, b.hit.url);
    if text::precedes(a.hit.url, b.hit.url) && text::precedes(b.hit.url, a.hit.url) {
        text::lemma_precedes_transitive(a.hit.url, b.hit.url, a.hit.url);
        text::lemma_precedes_total(a.hit.url, a.hit.url);
    }
}

/// What stands before a page stands before every page that does not stand before that one.
proof fn lemma_order_steps(a: RankedHitView, b: RankedHitView, c: RankedHitView)
    requires
        stands_before(a, b),
        !stands_before(c, b),
    ensures
        stands_before(a, c),
{
    if a.score == b.score && b.score == c.score {
        text::lemma_precedes_total(b.hit.url, c.hit.url);
        if text::precedes(b.hit.url, c.hit.url) {
            text::lemma_precedes_transitive(a.hit.url, b.hit.url, c.hit.url);
        }
    }
}

/// Ranking keeps every page and puts none before one that stands before it.
pub proof fn law_ranking_orders_all(hits: Seq<RankedHitView>)
    ensures
        in_order(hits).to_multiset() == hits.to_multiset(),
        in_order(hits).len() == hits.len(),
        forall|i: int, j: int|
            0 <= i < j < in_order(hits).len() ==> !stands_before(
                #[trigger] in_order(hits)[j],
                #[trigger] in_order(hits)[i],
            ),
    decreases hits.len(),
{
    broadcast use vstd::seq_lib::group_to_multiset_ensures;

    if hits.len() > 0 {
        law_ranking_orders_all(hits.drop_last());
        lemma_placed(in_order(hits.drop_last()), hits.last());
        assert(hits =~= hits.drop_last().push(hits.last()));
    } else {
        assert(in_order(hits) =~= hits);
    }
}

/// The same engine that finds a page again adds no rank to it; another engine adds its own.
pub proof fn law_an_engine_counts_once(
    known: SearchHitView,
    engine: Seq<char>,
    rank: usize,
    found: SearchHitView,
    again: usize,
    found_again: SearchHitView,
)
    ensures
        ({
            let once = joined_hit(known, engine, rank, found);
            let twice = joined_hit(once, engine, again, found_again);
            twice.ranks == once.ranks && twice.engines == once.engines && once.engines.contains(
                engine,
            )
        }),
        !known.engines.contains(engine) ==> joined_hit(known, engine, rank, found).ranks
            == known.ranks.push(rank),
{
    let once = joined_hit(known, engine, rank, found);
    if !known.engines.contains(engine) {
        assert(once.engines[known.engines.len() as int] == engine);
    }
}

proof fn lemma_engines_only_grow(
    merged: Seq<SearchHitView>,
    engine: Seq<char>,
    found: Seq<SearchHitView>,
    i: int,
)
    requires
        addresses_differ(merged),
        0 <= i < merged.len(),
        merged[i].engines.contains(engine) || forall|j: int|
            0 <= j < found.len() ==> (#[trigger] found[j]).url != merged[i].url,
    ensures
        i < with_hits(merged, engine, found).len(),
        with_hits(merged, engine, found)[i].ranks == merged[i].ranks,
        with_hits(merged, engine, found)[i].engines == merged[i].engines,
        with_hits(merged, engine, found)[i].title == merged[i].title,
        with_hits(merged, engine, found)[i].url == merged[i].url,
        (forall|j: int| 0 <= j < found.len() ==> (#[trigger] found[j]).url != merged[i].url)
            ==> with_hits(merged, engine, found)[i] == merged[i],
    decreases found.len(),
{
    if found.len() > 0 {
        let earlier = found.drop_last();
        assert forall|j: int| 0 <= j < earlier.len() implies earlier[j] == #[trigger] found[j] by {}
        lemma_engines_only_grow(merged, engine, earlier, i);
        law_merging_keeps_addresses_apart(merged, engine, earlier);
        let before = with_hits(merged, engine, earlier);
        lemma_hit_at_is_first(before, found.last().url);
        assert(found[found.len() - 1] == found.last());
    }
}

/// What a search adds to a page depends on where the search lists it first, at `k`. A page that was
/// not known joins the others with that position as its only rank, and as it was found. A page that
/// was known from other searches gets that position as one more rank, and the name of the search with
/// it. A page that the search had already counted for gets neither.
pub proof fn law_a_page_is_ranked_by_its_first_place(
    merged: Seq<SearchHitView>,
    engine: Seq<char>,
    found: Seq<SearchHitView>,
    k: int,
)
    requires
        addresses_differ(merged),
        0 <= k < found.len() <= usize::MAX,
        found[k].engines.contains(engine),
        forall|j: int| 0 <= j < k ==> (#[trigger] found[j]).url != found[k].url,
    ensures
        (forall|i: int| 0 <= i < merged.len() ==> (#[trigger] merged[i]).url != found[k].url)
            ==> exists|at: int|
            merged.len() <= at < with_hits(merged, engine, found).len() && ({
                let page = #[trigger] with_hits(merged, engine, found)[at];
                &&& page.url == found[k].url
                &&& page.title == found[k].title
                &&& page.engines == found[k].engines
                &&& page.ranks == seq![k as usize]
            }),
        forall|i: int|
            0 <= i < merged.len() && (#[trigger] merged[i]).url == found[k].url ==> ({
                let page = with_hits(merged, engine, found)[i];
                &&& page.url == merged[i].url
                &&& page.title == merged[i].title
                &&& !merged[i].engines.contains(engine) ==> page.ranks == merged[i].ranks.push(
                    k as usize,
                ) && page.engines == merged[i].engines.push(engine)
                &&& merged[i].engines.contains(engine) ==> page.ranks == merged[i].ranks
                    && page.engines == merged[i].engines
            }),
    decreases found.len(),
{
    let earlier = found.drop_last();
    let out = with_hits(merged, engine, found);
    let before = with_hits(merged, engine, earlier);
    law_merging_keeps_addresses_apart(merged, engine, earlier);
    law_merging_keeps_addresses_apart(merged, engine, found);
    lemma_hit_at_is_first(before, found.last().url);
    if k < found.len() - 1 {
        assert(earlier[k] == found[k]);
        assert forall|j: int| 0 <= j < k implies (#[trigger] earlier[j]).url != earlier[k].url by {
            assert(earlier[j] == found[j]);
        }
        law_a_page_is_ranked_by_its_first_place(merged, engine, earlier, k);
        if forall|i: int| 0 <= i < merged.len() ==> (#[trigger] merged[i]).url != found[k].url {
            let at = choose|at: int|
                merged.len() <= at < before.len() && ({
                    let page = #[trigger] before[at];
                    &&& page.url == found[k].url
                    &&& page.title == found[k].title
                    &&& page.engines == found[k].engines
                    &&& page.ranks == seq![k as usize]
                });
            assert(before[at].engines.contains(engine));
            assert(out[at].url == found[k].url);
            assert(out[at].ranks == seq![k as usize]);
        }
        assert forall|i: int|
            0 <= i < merged.len() && (#[trigger] merged[i]).url == found[k].url implies ({
            let page = out[i];
            &&& page.url == merged[i].url
            &&& page.title == merged[i].title
            &&& !merged[i].engines.contains(engine) ==> page.ranks == merged[i].ranks.push(
                k as usize,
            ) && page.engines == merged[i].engines.push(engine)
            &&& merged[i].engines.contains(engine) ==> page.ranks == merged[i].ranks
                && page.engines == merged[i].engines
        }) by {
            assert(merged[i].engines.push(engine).last() == engine);
            assert(before[i].engines.contains(engine));
        }
    } else {
        assert(found.last() == found[k]);
        assert forall|j: int| 0 <= j < earlier.len() implies (#[trigger] earlier[j]).url
            != found[k].url by {
            assert(earlier[j] == found[j]);
        }
        if forall|i: int| 0 <= i < merged.len() ==> (#[trigger] merged[i]).url != found[k].url {
            lemma_addresses_come_from_somewhere(merged, engine, earlier);
            assert(out[before.len() as int].ranks == seq![k as usize]);
        }
        assert forall|i: int|
            0 <= i < merged.len() && (#[trigger] merged[i]).url == found[k].url implies ({
            let page = out[i];
            &&& page.url == merged[i].url
            &&& page.title == merged[i].title
            &&& !merged[i].engines.contains(engine) ==> page.ranks == merged[i].ranks.push(
                k as usize,
            ) && page.engines == merged[i].engines.push(engine)
            &&& merged[i].engines.contains(engine) ==> page.ranks == merged[i].ranks
                && page.engines == merged[i].engines
        }) by {
            lemma_engines_only_grow(merged, engine, earlier, i);
            assert(before[i].url == found[k].url);
            assert(hit_at(before, found[k].url) == i);
        }
    }
}

/// Whether one of the pages has this address.
spec fn lists_address(pages: Seq<SearchHitView>, url: Seq<char>) -> bool {
    exists|j: int| 0 <= j < pages.len() && (#[trigger] pages[j]).url == url
}

proof fn lemma_addresses_come_from_somewhere(
    merged: Seq<SearchHitView>,
    engine: Seq<char>,
    found: Seq<SearchHitView>,
)
    ensures
        forall|i: int|
            0 <= i < with_hits(merged, engine, found).len() ==> lists_address(
                merged,
                (#[trigger] with_hits(merged, engine, found)[i]).url,
            ) || lists_address(found, with_hits(merged, engine, found)[i].url),
    decreases found.len(),
{
    let out = with_hits(merged, engine, found);
    assert forall|i: int| 0 <= i < out.len() implies lists_address(merged, (#[trigger] out[i]).url)
        || lists_address(found, out[i].url) by {
        if found.len() == 0 {
            assert(merged[i].url == out[i].url);
        } else {
            let earlier = found.drop_last();
            let before = with_hits(merged, engine, earlier);
            lemma_addresses_come_from_somewhere(merged, engine, earlier);
            lemma_hit_at_is_first(before, found.last().url);
            if i < before.len() {
                assert(out[i].url == before[i].url);
                if !lists_address(merged, out[i].url) {
                    let j = choose|j: int|
                        0 <= j < earlier.len() && (#[trigger] earlier[j]).url == before[i].url;
                    assert(found[j] == earlier[j]);
                }
            } else {
                assert(found[found.len() - 1].url == out[i].url);
            }
        }
    }
}

/// Pages with addresses of their own that one search found are kept as they are, in the order of the
/// search, each with its position as its rank.
pub proof fn law_one_search_keeps_its_order(engine: Seq<char>, found: Seq<SearchHitView>)
    requires
        addresses_differ(found),
        found.len() <= usize::MAX,
    ensures
        with_hits(Seq::empty(), engine, found).len() == found.len(),
        forall|k: int|
            0 <= k < found.len() ==> {
                let page = #[trigger] with_hits(Seq::empty(), engine, found)[k];
                &&& page.url == found[k].url
                &&& page.title == found[k].title
                &&& page.chunk == found[k].chunk
                &&& page.engines == found[k].engines
                &&& page.ranks == seq![k as usize]
            },
    decreases found.len(),
{
    if found.len() > 0 {
        let earlier = found.drop_last();
        assert forall|i: int, j: int| 0 <= i < j < earlier.len() implies (
        #[trigger] earlier[i]).url != (#[trigger] earlier[j]).url by {
            assert(earlier[i] == found[i] && earlier[j] == found[j]);
        }
        law_one_search_keeps_its_order(engine, earlier);
        let before = with_hits(Seq::empty(), engine, earlier);
        assert forall|k: int| 0 <= k < before.len() implies (#[trigger] before[k]).url
            != found.last().url by {
            assert(earlier[k] == found[k]);
            assert(found.last() == found[found.len() - 1]);
        }
        lemma_hit_at(before, found.last().url, before.len() as int);
        let out = with_hits(Seq::empty(), engine, found);
        assert(out.len() == found.len());
        assert forall|k: int| 0 <= k < found.len() implies ({
            let page = #[trigger] out[k];
            &&& page.url == found[k].url
            &&& page.title == found[k].title
            &&& page.chunk == found[k].chunk
            &&& page.engines == found[k].engines
            &&& page.ranks == seq![k as usize]
        }) by {
            if k < earlier.len() {
                assert(out[k] == before[k]);
                assert(earlier[k] == found[k]);
            }
        }
    }
}

/// A page that a search does not list stays as it was.
pub proof fn law_other_pages_are_left_alone(
    merged: Seq<SearchHitView>,
    engine: Seq<char>,
    found: Seq<SearchHitView>,
    i: int,
)
    requires
        addresses_differ(merged),
        0 <= i < merged.len(),
        forall|j: int| 0 <= j < found.len() ==> (#[trigger] found[j]).url != merged[i].url,
    ensures
        with_hits(merged, engine, found)[i] == merged[i],
{
    lemma_engines_only_grow(merged, engine, found, i);
}

/// The snippet of a page is the longest one that was found of it.
pub proof fn law_longest_snippet_stays(
    merged: Seq<SearchHitView>,
    engine: Seq<char>,
    found: Seq<SearchHitView>,
    i: int,
)
    requires
        addresses_differ(merged),
        0 <= i < merged.len(),
    ensures
        ({
            let kept = with_hits(merged, engine, found)[i].chunk;
            &&& text::utf8_len(kept) >= text::utf8_len(merged[i].chunk)
            &&& forall|j: int|
                0 <= j < found.len() && (#[trigger] found[j]).url == merged[i].url
                    ==> text::utf8_len(kept) >= text::utf8_len(found[j].chunk)
            &&& kept == merged[i].chunk || exists|j: int|
                0 <= j < found.len() && (#[trigger] found[j]).url == merged[i].url && kept
                    == found[j].chunk
        }),
    decreases found.len(),
{
    if found.len() > 0 {
        let earlier = found.drop_last();
        let before = with_hits(merged, engine, earlier);
        law_longest_snippet_stays(merged, engine, earlier, i);
        law_merging_keeps_addresses_apart(merged, engine, earlier);
        lemma_hit_at_is_first(before, found.last().url);
        let out = with_hits(merged, engine, found);
        let kept = out[i].chunk;
        assert(found[found.len() - 1] == found.last());
        assert forall|j: int|
            0 <= j < found.len() && (#[trigger] found[j]).url
                == merged[i].url implies text::utf8_len(kept) >= text::utf8_len(found[j].chunk) by {
            if j < earlier.len() {
                assert(earlier[j] == found[j]);
            }
        }
        if kept != merged[i].chunk {
            if kept == before[i].chunk {
                let j = choose|j: int|
                    0 <= j < earlier.len() && (#[trigger] earlier[j]).url == merged[i].url
                        && before[i].chunk == earlier[j].chunk;
                assert(found[j] == earlier[j]);
            } else {
                assert(found[found.len() - 1].url == merged[i].url);
            }
        }
    }
}

/// Each engine that found nothing is named among the failures, in the order of the answers, and no
/// other engine is; pages come only from the others.
pub proof fn law_engines_without_pages_are_named(
    responses: Seq<EngineResponseView>,
    response: EngineResponseView,
)
    ensures
        ({
            let before = collected(responses);
            let after = collected(responses.push(response));
            if response.results matches Some(hits) && hits.len() > 0 {
                &&& after.failures == before.failures
                &&& after.merged.len() > 0
            } else {
                &&& after.failures == before.failures.push(response.engine)
                &&& after.merged == before.merged
            }
        }),
{
    assert(responses.push(response).drop_last() =~= responses);
    assert(responses.push(response).last() == response);
    if let Some(hits) = response.results {
        if hits.len() > 0 {
            let known = collected(responses).merged;
            lemma_hit_at_is_first(
                with_hits(known, response.engine, hits.drop_last()),
                hits.last().url,
            );
        }
    }
}

/// Where an answer lists a page first, at `k`, the page bears the name of the engine and, at the same
/// place, the rank `k`, whatever the other engines answered.
pub proof fn law_each_answer_counts_by_its_order(
    responses: Seq<EngineResponseView>,
    n: int,
    k: int,
)
    requires
        0 <= n < responses.len(),
        forall|i: int|
            0 <= i < responses.len() ==> ((#[trigger] responses[i]).results matches Some(hits)
                ==> hits.len() <= usize::MAX && forall|j: int|
                0 <= j < hits.len() ==> (#[trigger] hits[j]).engines == seq![responses[i].engine]),
        forall|i: int, j: int|
            0 <= i < j < responses.len() ==> (#[trigger] responses[i]).engine != (
            #[trigger] responses[j]).engine,
        responses[n].results is Some,
        0 <= k < responses[n].results->0.len(),
        forall|j: int|
            0 <= j < k ==> (#[trigger] responses[n].results->0[j]).url
                != responses[n].results->0[k].url,
    ensures
        exists|at: int, e: int|
            #![trigger collected(responses).merged[at].engines[e]]
            0 <= at < collected(responses).merged.len() && ({
                let page = collected(responses).merged[at];
                &&& page.url == responses[n].results->0[k].url
                &&& page.engines.len() == page.ranks.len()
                &&& 0 <= e < page.engines.len()
                &&& page.engines[e] == responses[n].engine
                &&& page.ranks[e] == k
            }),
    decreases responses.len(),
{
    let earlier = responses.drop_last();
    let known = collected(earlier).merged;
    let last = responses.last();
    let url = responses[n].results->0[k].url;
    let out = collected(responses).merged;
    assert forall|i: int| 0 <= i < earlier.len() implies (#[trigger] earlier[i]) == responses[i] by {}
    law_collected_addresses_differ(earlier);
    lemma_ranks_go_with_engines(earlier);
    assert(responses[responses.len() - 1] == last);
    if n < responses.len() - 1 {
        assert(earlier[n] == responses[n]);
        law_each_answer_counts_by_its_order(earlier, n, k);
        let (at, e) = choose|at: int, e: int|
            #![trigger known[at].engines[e]]
            0 <= at < known.len() && ({
                let page = known[at];
                &&& page.url == url
                &&& page.engines.len() == page.ranks.len()
                &&& 0 <= e < page.engines.len()
                &&& page.engines[e] == responses[n].engine
                &&& page.ranks[e] == k
            });
        if let Some(hits) = last.results {
            if hits.len() > 0 {
                lemma_page_after_search(known, last.engine, hits, at);
                assert(out[at].engines[e] == responses[n].engine);
            } else {
                assert(out[at].engines[e] == responses[n].engine);
            }
        } else {
            assert(out[at].engines[e] == responses[n].engine);
        }
    } else {
        let hits = last.results->0;
        assert(hits[k].engines[0] == last.engine);
        law_a_page_is_ranked_by_its_first_place(known, last.engine, hits, k);
        if forall|i: int| 0 <= i < known.len() ==> (#[trigger] known[i]).url != url {
            let at = choose|at: int|
                known.len() <= at < out.len() && ({
                    let page = #[trigger] out[at];
                    &&& page.url == hits[k].url
                    &&& page.title == hits[k].title
                    &&& page.engines == hits[k].engines
                    &&& page.ranks == seq![k as usize]
                });
            assert(out[at].engines[0] == last.engine);
        } else {
            let at = choose|i: int| 0 <= i < known.len() && (#[trigger] known[i]).url == url;
            assert forall|e: int| 0 <= e < known[at].engines.len() implies known[at].engines[e]
                != last.engine by {
                let m = choose|m: int|
                    0 <= m < earlier.len() && (#[trigger] earlier[m]).engine
                        == known[at].engines[e];
                assert(responses[m].engine == known[at].engines[e]);
            }
            assert(!known[at].engines.contains(last.engine));
            law_merging_keeps_addresses_apart(known, last.engine, hits);
            let e = known[at].engines.len() as int;
            assert(out[at].engines[e] == last.engine);
        }
    }
}

/// A page that was known keeps its engines and ranks, and gets at most one more of each.
proof fn lemma_page_after_search(
    merged: Seq<SearchHitView>,
    engine: Seq<char>,
    found: Seq<SearchHitView>,
    at: int,
)
    requires
        addresses_differ(merged),
        0 <= at < merged.len(),
        merged[at].engines.len() == merged[at].ranks.len(),
    ensures
        ({
            let out = with_hits(merged, engine, found);
            &&& at < out.len()
            &&& out[at].url == merged[at].url
            &&& out[at].engines.len() == out[at].ranks.len()
            &&& merged[at].engines.is_prefix_of(out[at].engines)
            &&& merged[at].ranks.is_prefix_of(out[at].ranks)
        }),
    decreases found.len(),
{
    if found.len() > 0 {
        let earlier = found.drop_last();
        lemma_page_after_search(merged, engine, earlier, at);
        law_merging_keeps_addresses_apart(merged, engine, earlier);
        lemma_hit_at_is_first(with_hits(merged, engine, earlier), found.last().url);
    }
}

proof fn lemma_ranks_go_with_engines(responses: Seq<EngineResponseView>)
    requires
        forall|i: int|
            0 <= i < responses.len() ==> ((#[trigger] responses[i]).results matches Some(hits)
                ==> forall|j: int|
                0 <= j < hits.len() ==> (#[trigger] hits[j]).engines == seq![responses[i].engine]),
    ensures
        forall|at: int|
            0 <= at < collected(responses).merged.len() ==> (#[trigger] collected(
                responses,
            ).merged[at]).engines.len() == collected(responses).merged[at].ranks.len(),
        forall|at: int, e: int|
            #![trigger collected(responses).merged[at].engines[e]]
            0 <= at < collected(responses).merged.len() && 0 <= e < collected(
                responses,
            ).merged[at].engines.len() ==> exists|m: int|
                0 <= m < responses.len() && (#[trigger] responses[m]).engine == collected(
                    responses,
                ).merged[at].engines[e],
    decreases responses.len(),
{
    if responses.len() > 0 {
        let earlier = responses.drop_last();
        let last = responses.last();
        assert forall|i: int| 0 <= i < earlier.len() implies (#[trigger] earlier[i])
            == responses[i] by {}
        lemma_ranks_go_with_engines(earlier);
        let known = collected(earlier).merged;
        let out = collected(responses).merged;
        assert(responses[responses.len() - 1] == last);
        assert forall|at: int, e: int|
            #![trigger known[at].engines[e]]
            0 <= at < known.len() && 0 <= e < known[at].engines.len() implies exists|m: int|
            0 <= m < responses.len() && (#[trigger] responses[m]).engine == known[at].engines[e] by {
            let m = choose|m: int|
                0 <= m < earlier.len() && (#[trigger] earlier[m]).engine == known[at].engines[e];
            assert(responses[m].engine == known[at].engines[e]);
        }
        if let Some(hits) = last.results {
            if hits.len() > 0 {
                lemma_search_keeps_pairs(known, last.engine, hits);
                assert forall|at: int, e: int|
                    #![trigger out[at].engines[e]]
                    0 <= at < out.len() && 0 <= e < out[at].engines.len() implies exists|m: int|
                    0 <= m < responses.len() && (#[trigger] responses[m]).engine
                        == out[at].engines[e] by {
                    if out[at].engines[e] != last.engine {
                        let (a, f) = choose|a: int, f: int|
                            #![trigger known[a].engines[f]]
                            0 <= a < known.len() && 0 <= f < known[a].engines.len()
                                && known[a].engines[f] == out[at].engines[e];
                        assert(known[a].engines[f] == out[at].engines[e]);
                    }
                }
            }
        }
    }
}

proof fn lemma_search_keeps_pairs(
    merged: Seq<SearchHitView>,
    engine: Seq<char>,
    found: Seq<SearchHitView>,
)
    requires
        forall|at: int|
            0 <= at < merged.len() ==> (#[trigger] merged[at]).engines.len()
                == merged[at].ranks.len(),
        forall|j: int| 0 <= j < found.len() ==> (#[trigger] found[j]).engines == seq![engine],
    ensures
        forall|at: int|
            0 <= at < with_hits(merged, engine, found).len() ==> (#[trigger] with_hits(
                merged,
                engine,
                found,
            )[at]).engines.len() == with_hits(merged, engine, found)[at].ranks.len(),
        forall|at: int, e: int|
            #![trigger with_hits(merged, engine, found)[at].engines[e]]
            0 <= at < with_hits(merged, engine, found).len() && 0 <= e < with_hits(
                merged,
                engine,
                found,
            )[at].engines.len() ==> with_hits(merged, engine, found)[at].engines[e] == engine
                || exists|a: int, f: int|
                #![trigger merged[a].engines[f]]
                0 <= a < merged.len() && 0 <= f < merged[a].engines.len() && merged[a].engines[f]
                    == with_hits(merged, engine, found)[at].engines[e],
    decreases found.len(),
{
    if found.len() > 0 {
        let earlier = found.drop_last();
        assert forall|j: int| 0 <= j < earlier.len() implies (#[trigger] earlier[j])
            == found[j] by {}
        lemma_search_keeps_pairs(merged, engine, earlier);
        let before = with_hits(merged, engine, earlier);
        let out = with_hits(merged, engine, found);
        assert(found[found.len() - 1] == found.last());
        lemma_hit_at_is_first(before, found.last().url);
        assert forall|at: int, e: int|
            #![trigger out[at].engines[e]]
            0 <= at < out.len() && 0 <= e < out[at].engines.len() implies out[at].engines[e]
            == engine || exists|a: int, f: int|
            #![trigger merged[a].engines[f]]
            0 <= a < merged.len() && 0 <= f < merged[a].engines.len() && merged[a].engines[f]
                == out[at].engines[e] by {
            if at < before.len() && e < before[at].engines.len() {
                assert(before[at].engines[e] == out[at].engines[e]);
            }
        }
    }
}

/// The pages that are returned are the best of all: none that is left out has a higher score, the
/// scores do not rise from one to the next, and pages with the same score stand in the order of their
/// addresses. There are fifteen of them unless there are fewer pages.
pub proof fn law_best_pages_come_first(hits: Seq<RankedHitView>)
    ensures
        best(hits).len() == (if hits.len() > 15 {
            15
        } else {
            hits.len() as int
        }),
        forall|i: int, j: int|
            0 <= i < j < best(hits).len() ==> {
                let first = #[trigger] best(hits)[i];
                let second = #[trigger] best(hits)[j];
                &&& first.score >= second.score
                &&& first.score == second.score ==> first.hit.url == second.hit.url
                    || text::precedes(first.hit.url, second.hit.url)
            },
        exists|rest: Seq<RankedHitView>|
            {
                &&& #[trigger] (best(hits) + rest).to_multiset() == hits.to_multiset()
                &&& forall|i: int, j: int|
                    0 <= i < best(hits).len() && 0 <= j < rest.len() ==> (
                    #[trigger] best(hits)[i]).score >= (#[trigger] rest[j]).score
            },
{
    law_ranking_orders_all(hits);
    let ordered = in_order(hits);
    let top = best(hits);
    let rest = ordered.skip(top.len() as int);
    assert(top + rest =~= ordered);
    assert forall|i: int, j: int| 0 <= i < j < top.len() implies {
        let first = #[trigger] top[i];
        let second = #[trigger] top[j];
        &&& first.score >= second.score
        &&& first.score == second.score ==> first.hit.url == second.hit.url || text::precedes(
            first.hit.url,
            second.hit.url,
        )
    } by {
        assert(!stands_before(ordered[j], ordered[i]));
        text::lemma_precedes_total(top[i].hit.url, top[j].hit.url);
    }
    assert forall|i: int, j: int| 0 <= i < top.len() && 0 <= j < rest.len() implies (
    #[trigger] top[i]).score >= (#[trigger] rest[j]).score by {
        assert(!stands_before(ordered[top.len() + j], ordered[i]));
    }
    assert((top + rest).to_multiset() == hits.to_multiset());
}

} // verus!
