//! Context assembly from similarity-search results.
//!
//! Results arrive from the store in descending-score order and are trusted as
//! ordered; they are folded into a context string in the order received. A
//! result's fragment is included only if its score strictly exceeds the
//! relevance threshold and its exact text is not already present as a
//! substring of the context accumulated so far, so near-duplicates that are
//! substrings of already-included text are excluded too.
//!
//! Scores are carried as integers in ten-thousandths of the provider's unit
//! score, so the threshold of three quarters is the integer 7500.

use vstd::prelude::*;
use vstd::string::StrSliceExecFns;
use vstd::string::StringExecFns;

use crate::errors::StoreError;

verus! {

/// One unit of score equals this many scaled score steps.
pub const SCORE_SCALE: u32 = 10000;

/// A fragment is relevant when its scaled score strictly exceeds this
/// threshold: three quarters of one score unit.
pub const RELEVANCE_THRESHOLD: u32 = 7500;

/// The fixed instructional preamble every assembled context starts with.
pub const CONTEXT_PREAMBLE: &'static str = "Use the following pieces of context to answer the question.\n";

/// One similarity-search result: the fragment's score in ten-thousandths of
/// the provider's unit score, and its payload text.
#[derive(Debug, Clone, PartialEq, Eq)]
pub struct SearchHit {
    pub score: u32,
    pub text: String,
}

/// The mathematical model of a `SearchHit`.
pub struct HitModel {
    pub score: u32,
    pub text: Seq<char>,
}

impl View for SearchHit {
    type V = HitModel;

    open spec fn view(&self) -> HitModel {
        HitModel { score: self.score, text: self.text@ }
    }
}

/// `needle` occurs in `hay` starting at position `i`.
pub open spec fn contains_at(hay: Seq<char>, needle: Seq<char>, i: int) -> bool {
    0 <= i && i + needle.len() <= hay.len() && hay.subrange(i, i + needle.len() as int) == needle
}

/// `needle` occurs somewhere in `hay`.
pub open spec fn contains_frag(hay: Seq<char>, needle: Seq<char>) -> bool {
    exists|i: int| contains_at(hay, needle, i)
}

fn match_at(hay: &str, needle: &str, i: usize) -> (r: bool)
    requires
        i + needle@.len() <= hay@.len() <= usize::MAX,
    ensures
        r == contains_at(hay@, needle@, i as int),
{
    let m = needle.unicode_len();
    let mut j: usize = 0;
    while j < m
        invariant
            m == needle@.len(),
            i + m <= hay@.len() <= usize::MAX,
            0 <= j <= m,
            forall|t: int| 0 <= t < j ==> hay@[i + t] == needle@[t],
        decreases m - j,
    {
        if hay.get_char(i + j) != needle.get_char(j) {
            proof {
                let sub = hay@.subrange(i as int, i as int + m);
                assert(sub[j as int] == hay@[i + j]);
                if sub == needle@ {
                    assert(sub[j as int] == needle@[j as int]);
                }
            }
            return false;
        }
        j = j + 1;
    }
    proof {
        assert(hay@.subrange(i as int, i as int + m) =~= needle@);
    }
    true
}

/// Whether `needle`'s text occurs as a substring of `hay`.
pub fn contains_substring(hay: &str, needle: &str) -> (r: bool)
    ensures
        r == contains_frag(hay@, needle@),
{
    let n = hay.unicode_len();
    let m = needle.unicode_len();
    if m == 0 {
        proof {
            assert(hay@.subrange(0, 0) =~= needle@);
            assert(contains_at(hay@, needle@, 0));
        }
        return true;
    }
    if m > n {
        return false;
    }
    let mut i: usize = 0;
    while i <= n - m
        invariant
            n == hay@.len(),
            m == needle@.len(),
            1 <= m <= n,
            0 <= i <= n - m + 1,
            forall|k: int| 0 <= k < i ==> !contains_at(hay@, needle@, k),
        decreases n - m + 1 - i,
    {
        if match_at(hay, needle, i) {
            return true;
        }
        i = i + 1;
    }
    false
}

/// A fragment occurring in `a` still occurs after anything is appended.
pub proof fn lemma_contains_extend(a: Seq<char>, b: Seq<char>, t: Seq<char>)
    requires
        contains_frag(a, t),
    ensures
        contains_frag(a + b, t),
{
    let i = choose|i: int| contains_at(a, t, i);
    assert((a + b).subrange(i, i + t.len() as int) =~= a.subrange(i, i + t.len() as int));
    assert(contains_at(a + b, t, i));
}

/// Occurrence is transitive: what occurs in an occurring fragment occurs in
/// the whole.
pub proof fn lemma_contains_trans(big: Seq<char>, mid: Seq<char>, small: Seq<char>)
    requires
        contains_frag(big, mid),
        contains_frag(mid, small),
    ensures
        contains_frag(big, small),
{
    let i = choose|i: int| contains_at(big, mid, i);
    let j = choose|j: int| contains_at(mid, small, j);
    assert forall|k: int| 0 <= k < small.len() implies big[i + j + k] == small[k] by {
        assert(mid.subrange(j, j + small.len() as int)[k] == small[k]);
        assert(big.subrange(i, i + mid.len() as int)[j + k] == mid[j + k]);
    }
    assert(big.subrange(i + j, i + j + small.len() as int) =~= small);
    assert(contains_at(big, small, i + j));
}

/// The separator appended after each included fragment.
pub open spec fn newline() -> Seq<char> {
    seq!['\n']
}

/// Whether a result's fragment is included, given the context so far.
pub open spec fn admit_hit(acc: Seq<char>, h: HitModel) -> bool {
    h.score > RELEVANCE_THRESHOLD && !contains_frag(acc, h.text)
}

/// The context after folding the hits, in order, over the context so far.
pub open spec fn assembled(acc: Seq<char>, hits: Seq<HitModel>) -> Seq<char>
    decreases hits.len(),
{
    if hits.len() == 0 {
        acc
    } else {
        let h = hits.first();
        let acc2 = if admit_hit(acc, h) {
            acc + h.text + newline()
        } else {
            acc
        };
        assembled(acc2, hits.drop_first())
    }
}

/// The subsequence of hits whose fragments the fold includes.
pub open spec fn admitted(acc: Seq<char>, hits: Seq<HitModel>) -> Seq<HitModel>
    decreases hits.len(),
{
    if hits.len() == 0 {
        Seq::empty()
    } else {
        let h = hits.first();
        if admit_hit(acc, h) {
            seq![h] + admitted(acc + h.text + newline(), hits.drop_first())
        } else {
            admitted(acc, hits.drop_first())
        }
    }
}

/// The included fragments, each followed by the separator.
pub open spec fn joined_fragments(frags: Seq<HitModel>) -> Seq<char>
    decreases frags.len(),
{
    if frags.len() == 0 {
        Seq::empty()
    } else {
        frags.first().text + newline() + joined_fragments(frags.drop_first())
    }
}

/// The assembled context is exactly the context so far followed by the
/// included fragments, in order, each followed by the separator.
pub proof fn lemma_assembled_joins_admitted(acc: Seq<char>, hits: Seq<HitModel>)
    ensures
        assembled(acc, hits) == acc + joined_fragments(admitted(acc, hits)),
    decreases hits.len(),
{
    if hits.len() == 0 {
        assert(acc + joined_fragments(Seq::empty()) =~= acc);
    } else {
        let h = hits.first();
        let rest = hits.drop_first();
        if admit_hit(acc, h) {
            let acc2 = acc + h.text + newline();
            lemma_assembled_joins_admitted(acc2, rest);
            let adm2 = admitted(acc2, rest);
            assert((seq![h] + adm2).first() == h);
            assert((seq![h] + adm2).drop_first() =~= adm2);
            assert(acc2 + joined_fragments(adm2) =~= acc + joined_fragments(seq![h] + adm2));
        } else {
            lemma_assembled_joins_admitted(acc, rest);
        }
    }
}

/// Every included fragment's score strictly exceeds the relevance threshold.
pub proof fn lemma_admitted_above_threshold(acc: Seq<char>, hits: Seq<HitModel>)
    ensures
        forall|k: int|
            0 <= k < admitted(acc, hits).len() ==> #[trigger] admitted(acc, hits)[k].score
                > RELEVANCE_THRESHOLD,
    decreases hits.len(),
{
    if hits.len() == 0 {
        assert(admitted(acc, hits) =~= Seq::<HitModel>::empty());
    } else {
        let h = hits.first();
        let rest = hits.drop_first();
        if admit_hit(acc, h) {
            let acc2 = acc + h.text + newline();
            lemma_admitted_above_threshold(acc2, rest);
            let adm = admitted(acc, hits);
            let adm2 = admitted(acc2, rest);
            assert(adm == seq![h] + adm2);
            assert forall|k: int|
                0 <= k < adm.len() implies #[trigger] adm[k].score > RELEVANCE_THRESHOLD by {
                if k == 0 {
                    assert((seq![h] + adm2)[0] == h);
                } else {
                    assert((seq![h] + adm2)[k] == adm2[k - 1]);
                    assert(adm2[k - 1].score > RELEVANCE_THRESHOLD);
                }
            }
            assert(forall|k: int|
                0 <= k < admitted(acc, hits).len() ==> #[trigger] admitted(acc, hits)[k].score
                    > RELEVANCE_THRESHOLD);
        } else {
            lemma_admitted_above_threshold(acc, rest);
            assert(admitted(acc, hits) == admitted(acc, rest));
            assert(forall|k: int|
                0 <= k < admitted(acc, hits).len() ==> #[trigger] admitted(acc, hits)[k].score
                    > RELEVANCE_THRESHOLD);
        }
    }
}

/// No included fragment was already present in the context the fold started
/// from.
pub proof fn lemma_admitted_fresh(acc: Seq<char>, hits: Seq<HitModel>)
    ensures
        forall|k: int|
            0 <= k < admitted(acc, hits).len() ==> !contains_frag(
                acc,
                #[trigger] admitted(acc, hits)[k].text,
            ),
    decreases hits.len(),
{
    if hits.len() == 0 {
        assert(admitted(acc, hits) =~= Seq::<HitModel>::empty());
    } else {
        let h = hits.first();
        let rest = hits.drop_first();
        if admit_hit(acc, h) {
            let acc2 = acc + h.text + newline();
            lemma_admitted_fresh(acc2, rest);
            let adm = admitted(acc, hits);
            let adm2 = admitted(acc2, rest);
            assert(adm == seq![h] + adm2);
            assert forall|k: int| 0 <= k < adm.len() implies !contains_frag(acc, adm[k].text) by {
                if k == 0 {
                    assert((seq![h] + adm2)[0] == h);
                } else {
                    assert((seq![h] + adm2)[k] == adm2[k - 1]);
                    assert(!contains_frag(acc2, adm2[k - 1].text));
                    if contains_frag(acc, adm2[k - 1].text) {
                        lemma_contains_extend(acc, h.text + newline(), adm2[k - 1].text);
                        assert(acc + (h.text + newline()) =~= acc2);
                        assert(contains_frag(acc2, adm2[k - 1].text));
                    }
                }
            }
            assert(forall|k: int|
                0 <= k < admitted(acc, hits).len() ==> !contains_frag(
                    acc,
                    #[trigger] admitted(acc, hits)[k].text,
                ));
        } else {
            lemma_admitted_fresh(acc, rest);
            assert(admitted(acc, hits) == admitted(acc, rest));
            assert(forall|k: int|
                0 <= k < admitted(acc, hits).len() ==> !contains_frag(
                    acc,
                    #[trigger] admitted(acc, hits)[k].text,
                ));
        }
    }
}

/// The assembled context never includes two fragments where one fully
/// duplicates — occurs as a substring of — an earlier one's text.
pub proof fn lemma_no_duplicate_fragments(acc: Seq<char>, hits: Seq<HitModel>)
    ensures
        forall|j: int, k: int|
            0 <= j < k < admitted(acc, hits).len() ==> !#[trigger] contains_frag(
                admitted(acc, hits)[j].text,
                admitted(acc, hits)[k].text,
            ),
    decreases hits.len(),
{
    if hits.len() == 0 {
        assert(admitted(acc, hits) =~= Seq::<HitModel>::empty());
    } else {
        let h = hits.first();
        let rest = hits.drop_first();
        if admit_hit(acc, h) {
            let acc2 = acc + h.text + newline();
            lemma_no_duplicate_fragments(acc2, rest);
            lemma_admitted_fresh(acc2, rest);
            let adm = admitted(acc, hits);
            let adm2 = admitted(acc2, rest);
            assert(adm == seq![h] + adm2);
            assert forall|j: int, k: int| 0 <= j < k < adm.len() implies !contains_frag(
                adm[j].text,
                adm[k].text,
            ) by {
                assert((seq![h] + adm2)[k] == adm2[k - 1]);
                assert(!contains_frag(acc2, adm2[k - 1].text));
                if j == 0 {
                    assert((seq![h] + adm2)[0] == h);
                    if contains_frag(h.text, adm2[k - 1].text) {
                        assert forall|t: int| 0 <= t < h.text.len() implies acc2[acc.len() + t]
                            == h.text[t] by {
                            assert((acc + h.text)[acc.len() + t] == h.text[t]);
                        }
                        assert(acc2.subrange(
                            acc.len() as int,
                            acc.len() + h.text.len() as int,
                        ) =~= h.text);
                        assert(contains_at(acc2, h.text, acc.len() as int));
                        lemma_contains_trans(acc2, h.text, adm2[k - 1].text);
                    }
                } else {
                    assert((seq![h] + adm2)[j] == adm2[j - 1]);
                    assert(!contains_frag(adm2[j - 1].text, adm2[k - 1].text));
                }
            }
            assert(forall|j: int, k: int|
                0 <= j < k < admitted(acc, hits).len() ==> !#[trigger] contains_frag(
                    admitted(acc, hits)[j].text,
                    admitted(acc, hits)[k].text,
                ));
        } else {
            lemma_no_duplicate_fragments(acc, rest);
            assert(admitted(acc, hits) == admitted(acc, rest));
            assert(forall|j: int, k: int|
                0 <= j < k < admitted(acc, hits).len() ==> !#[trigger] contains_frag(
                    admitted(acc, hits)[j].text,
                    admitted(acc, hits)[k].text,
                ));
        }
    }
}

/// Folds the search results, in the order received, into a context string:
/// starting from the preamble, each result whose score strictly exceeds the
/// relevance threshold and whose text is not already a substring of the
/// context accumulated so far is appended, followed by a newline.
pub fn assemble_context(preamble: &str, hits: &Vec<SearchHit>) -> (r: String)
    ensures
        r@ == assembled(preamble@, hits@.map_values(|h: SearchHit| h@)),
{
    let ghost models = hits@.map_values(|h: SearchHit| h@);
    let mut acc: String = preamble.to_owned();
    let mut i: usize = 0;
    proof {
        assert(models.skip(0) =~= models);
    }
    while i < hits.len()
        invariant
            models == hits@.map_values(|h: SearchHit| h@),
            models.len() == hits@.len(),
            0 <= i <= hits@.len(),
            assembled(acc@, models.skip(i as int)) == assembled(preamble@, models),
        decreases hits@.len() - i,
    {
        let ghost before = acc@;
        let ghost rest = models.skip(i as int);
        proof {
            assert(rest.first() == models[i as int]);
            assert(rest.drop_first() =~= models.skip(i as int + 1));
        }
        let hit = &hits[i];
        if hit.score > RELEVANCE_THRESHOLD && !contains_substring(acc.as_str(), hit.text.as_str()) {
            acc.append(hit.text.as_str());
            acc.append("\n");
            proof {
                reveal_strlit("\n");
                assert("\n"@ =~= newline());
                assert(acc@ =~= before + models[i as int].text + newline());
            }
        }
        i = i + 1;
    }
    proof {
        assert(models.skip(models.len() as int) =~= Seq::<HitModel>::empty());
    }
    acc
}

/// Builds the answer context from the search call's result: the folded
/// results on success; on a search failure the run degrades to the preamble
/// alone rather than aborting.
pub fn context_from_search(search: Result<Vec<SearchHit>, StoreError>) -> (r: String)
    ensures
        match search {
            Ok(hits) => r@ == assembled(CONTEXT_PREAMBLE@, hits@.map_values(|h: SearchHit| h@)),
            Err(_) => r@ == CONTEXT_PREAMBLE@,
        },
{
    match search {
        Ok(hits) => assemble_context(CONTEXT_PREAMBLE, &hits),
        Err(_) => CONTEXT_PREAMBLE.to_owned(),
    }
}

} // verus!
