//! Bot roster logic: deterministic ordering of the active set, least-used
//! selection for single-chunk uploads, round-robin chunk assignment, and the
//! in-memory token cache.

use vstd::prelude::*;
use vstd::multiset::Multiset;
use vstd::seq_lib::lemma_multiset_commutative;
use crate::errors::TgCloudError;
use crate::models::Bot;
use crate::strutil::{lemma_lex_refl, lemma_lex_total, lemma_lex_trans, lex_le, str_eq, str_lex_le};
use vstd::string::StringExecFns;

verus! {

/// Bots ordered by `bot_id` in the lexicographic order.
pub open spec fn sorted_by_id(s: Seq<Bot>) -> bool {
    forall|i: int, j: int|
        0 <= i < j < s.len() ==> lex_le(#[trigger] s[i].bot_id@, #[trigger] s[j].bot_id@)
}

/// The index at which `b` slots into the sorted vector `v`: everything
/// before it sorts at or before `b`, and the element at the index (if any)
/// sorts strictly after `b`.
fn insertion_point(v: &Vec<Bot>, b: &Bot) -> (idx: usize)
    ensures
        idx <= v@.len(),
        forall|j: int| 0 <= j < idx ==> lex_le(#[trigger] v@[j].bot_id@, b.bot_id@),
        idx < v@.len() ==> !lex_le(v@[idx as int].bot_id@, b.bot_id@),
{
    let mut idx: usize = 0;
    let n = v.len();
    while idx < n
        invariant
            0 <= idx <= n,
            n == v@.len(),
            forall|j: int| 0 <= j < idx ==> lex_le(#[trigger] v@[j].bot_id@, b.bot_id@),
        decreases n - idx,
    {
        if !str_lex_le(v[idx].bot_id.as_str(), b.bot_id.as_str()) {
            return idx;
        }
        idx = idx + 1;
    }
    n
}

/// Insert `b` into the sorted vector `v`, keeping it sorted; the contents
/// grow by exactly `b`.
fn insert_sorted(v: &mut Vec<Bot>, b: Bot)
    requires
        sorted_by_id(old(v)@),
    ensures
        sorted_by_id(final(v)@),
        final(v)@.to_multiset() == old(v)@.to_multiset().insert(b),
        final(v)@.len() == old(v)@.len() + 1,
{
    let ghost orig = v@;
    let idx = insertion_point(v, &b);
    v.insert(idx, b);
    proof {
        let n = orig.len() as int;
        let i = idx as int;
        assert(v@ =~= orig.subrange(0, i).push(b) + orig.subrange(i, n));
        assert forall|p: int, q: int| 0 <= p < q < v@.len() implies lex_le(
            #[trigger] v@[p].bot_id@,
            #[trigger] v@[q].bot_id@,
        ) by {
            if p < i && q == i {
                // v[p] comes from the prefix, v[q] is b itself.
            } else if p == i && q > i {
                // b sorts before orig[i] and, by transitivity, before the rest.
                lemma_lex_total(orig[i].bot_id@, b.bot_id@);
                if q > i + 1 {
                    lemma_lex_trans(b.bot_id@, orig[i].bot_id@, orig[q - 1].bot_id@);
                }
            }
            // p < i && q > i follows from the sortedness of orig alone.
        }
        assert(v@.to_multiset() =~= orig.to_multiset().insert(b)) by {
            broadcast use vstd::seq_lib::group_to_multiset_ensures;

            lemma_multiset_commutative(orig.subrange(0, i).push(b), orig.subrange(i, n));
            lemma_multiset_commutative(orig.subrange(0, i), orig.subrange(i, n));
            assert(orig =~= orig.subrange(0, i) + orig.subrange(i, n));
        }
    }
}

/// The active subset of the roster, sorted deterministically by `bot_id`:
/// the bot set used by multi-chunk uploads.
pub fn active_bots_sorted(bots: &Vec<Bot>) -> (r: Vec<Bot>)
    ensures
        sorted_by_id(r@),
        r@.to_multiset() == bots@.filter(|b: Bot| b.active).to_multiset(),
{
    let mut r: Vec<Bot> = Vec::new();
    let n = bots.len();
    let mut i: usize = 0;
    proof {
        assert(bots@.subrange(0, 0).filter(|b: Bot| b.active) =~= Seq::<Bot>::empty());
        assert(r@.to_multiset() =~= Seq::<Bot>::empty().to_multiset());
    }
    while i < n
        invariant
            0 <= i <= n,
            n == bots@.len(),
            sorted_by_id(r@),
            r@.to_multiset() == bots@.subrange(0, i as int).filter(|b: Bot| b.active).to_multiset(),
        decreases n - i,
    {
        let ghost prefix = bots@.subrange(0, i as int);
        if bots[i].active {
            let b = bots[i].clone();
            insert_sorted(&mut r, b);
            proof {
                broadcast use vstd::seq_lib::group_to_multiset_ensures;

                reveal_with_fuel(Seq::filter, 3);
                assert(bots@.subrange(0, i + 1) =~= prefix + seq![bots@[i as int]]);
                Seq::<Bot>::filter_distributes_over_add(
                    prefix,
                    seq![bots@[i as int]],
                    |b: Bot| b.active,
                );
                assert(seq![bots@[i as int]].drop_last() =~= Seq::<Bot>::empty());
                assert(seq![bots@[i as int]].filter(|b: Bot| b.active) =~= Seq::<Bot>::empty().push(
                    bots@[i as int],
                ));
                lemma_multiset_commutative(
                    prefix.filter(|b: Bot| b.active),
                    seq![bots@[i as int]].filter(|b: Bot| b.active),
                );
                assert(Seq::<Bot>::empty().push(bots@[i as int]).to_multiset() =~= Multiset::<
                    Bot,
                >::empty().insert(bots@[i as int]));
                assert(r@.to_multiset() =~= bots@.subrange(0, i + 1).filter(
                    |b: Bot| b.active,
                ).to_multiset());
            }
        } else {
            proof {
                reveal_with_fuel(Seq::filter, 3);
                assert(bots@.subrange(0, i + 1) =~= prefix + seq![bots@[i as int]]);
                Seq::<Bot>::filter_distributes_over_add(
                    prefix,
                    seq![bots@[i as int]],
                    |b: Bot| b.active,
                );
                assert(seq![bots@[i as int]].drop_last() =~= Seq::<Bot>::empty());
                assert(seq![bots@[i as int]].filter(|b: Bot| b.active) =~= Seq::<Bot>::empty());
                assert(prefix.filter(|b: Bot| b.active) + Seq::<Bot>::empty() =~= prefix.filter(
                    |b: Bot| b.active,
                ));
            }
        }
        i = i + 1;
    }
    proof {
        assert(bots@.subrange(0, n as int) =~= bots@);
    }
    r
}

/// A `bot_id -> token` map held as unique-keyed pairs.
#[derive(Debug)]
pub struct TokenMap {
    pub entries: Vec<(String, String)>,
}

/// Some pair carries this bot id.
pub open spec fn map_has_id(s: Seq<(String, String)>, id: Seq<char>) -> bool {
    exists|i: int| 0 <= i < s.len() && (#[trigger] s[i]).0@ == id
}

impl TokenMap {
    /// Keys are unique.
    pub open spec fn wf(&self) -> bool {
        forall|i: int, j: int|
            0 <= i < j < self.entries@.len() ==> (#[trigger] self.entries@[i]).0@ != (
            #[trigger] self.entries@[j]).0@
    }

    /// An empty map.
    pub fn new() -> (r: TokenMap)
        ensures
            r.wf(),
            r.entries@.len() == 0,
    {
        TokenMap { entries: Vec::new() }
    }

    /// The token of `bot_id`, if cached: `Some` exactly when the id is a
    /// key, and then the token paired with it.
    pub fn get(&self, bot_id: &str) -> (r: Option<&String>)
        ensures
            (r is Some) == map_has_id(self.entries@, bot_id@),
            r matches Some(t) ==> exists|i: int|
                0 <= i < self.entries@.len() && (#[trigger] self.entries@[i]).0@ == bot_id@
                    && self.entries@[i].1@ == t@,
    {
        let n = self.entries.len();
        let mut i: usize = 0;
        while i < n
            invariant
                0 <= i <= n,
                n == self.entries@.len(),
                forall|j: int| 0 <= j < i ==> (#[trigger] self.entries@[j]).0@ != bot_id@,
            decreases n - i,
        {
            if str_eq(self.entries[i].0.as_str(), bot_id) {
                return Some(&self.entries[i].1);
            }
            i = i + 1;
        }
        None
    }
}

/// The in-memory bot-token cache. A lookup miss is answered by one full
/// refresh from the roster; a second miss is terminal.
#[derive(Debug)]
pub struct BotManager {
    pub cache: TokenMap,
}

impl BotManager {
    /// A manager with an empty cache.
    pub fn new() -> (r: BotManager)
        ensures
            r.cache.wf(),
            r.cache.entries@.len() == 0,
    {
        BotManager { cache: TokenMap::new() }
    }

    /// Rebuild the cache from the roster: one pair per bot, in roster order.
    pub fn refresh_cache(&mut self, bots: &Vec<Bot>)
        requires
            forall|i: int, j: int|
                0 <= i < j < bots@.len() ==> (#[trigger] bots@[i]).bot_id@ != (
                #[trigger] bots@[j]).bot_id@,
        ensures
            final(self).cache.wf(),
            final(self).cache.entries@.len() == bots@.len(),
            forall|i: int|
                0 <= i < bots@.len() ==> (#[trigger] final(self).cache.entries@[i]).0@ == bots@[
                    i
                ].bot_id@ && final(self).cache.entries@[i].1@ == bots@[i].token@,
    {
        let mut entries: Vec<(String, String)> = Vec::new();
        let n = bots.len();
        let mut i: usize = 0;
        while i < n
            invariant
                0 <= i <= n,
                n == bots@.len(),
                entries@.len() == i,
                forall|j: int|
                    0 <= j < i ==> (#[trigger] entries@[j]).0@ == bots@[j].bot_id@ && entries@[
                        j
                    ].1@ == bots@[j].token@,
            decreases n - i,
        {
            entries.push((bots[i].bot_id.clone(), bots[i].token.clone()));
            i = i + 1;
        }
        self.cache = TokenMap { entries };
        proof {
            assert forall|i: int, j: int| 0 <= i < j < self.cache.entries@.len() implies (
            #[trigger] self.cache.entries@[i]).0@ != (#[trigger] self.cache.entries@[j]).0@ by {
                assert(bots@[i].bot_id@ != bots@[j].bot_id@);
            }
        }
    }

    /// The cached token of `bot_id`, cloned out.
    pub fn get_bot_token(&self, bot_id: &str) -> (r: Option<String>)
        ensures
            (r is Some) == map_has_id(self.cache.entries@, bot_id@),
            r matches Some(t) ==> exists|i: int|
                0 <= i < self.cache.entries@.len() && (#[trigger] self.cache.entries@[i]).0@
                    == bot_id@ && self.cache.entries@[i].1@ == t@,
    {
        match self.cache.get(bot_id) {
            Some(t) => Some(t.clone()),
            None => None,
        }
    }

    /// The tokens of all the given ids, or `BotManagerError` naming the
    /// first id the cache does not hold.
    pub fn get_token_map(&self, bot_ids: &Vec<String>) -> (r: Result<TokenMap, TgCloudError>)
        requires
            forall|i: int, j: int|
                0 <= i < j < bot_ids@.len() ==> (#[trigger] bot_ids@[i])@ != (
                #[trigger] bot_ids@[j])@,
        ensures
            r matches Ok(m) ==> m.wf() && m.entries@.len() == bot_ids@.len() && forall|i: int|
                0 <= i < bot_ids@.len() ==> (#[trigger] m.entries@[i]).0@ == bot_ids@[i]@
                    && map_has_id(self.cache.entries@, bot_ids@[i]@) && exists|j: int|
                    0 <= j < self.cache.entries@.len() && (#[trigger] self.cache.entries@[j]).0@
                        == bot_ids@[i]@ && self.cache.entries@[j].1@ == m.entries@[i].1@,
            r matches Err(e) ==> (e matches TgCloudError::BotManagerError(msg) && exists|i: int|
                0 <= i < bot_ids@.len() && !map_has_id(
                    self.cache.entries@,
                    (#[trigger] bot_ids@[i])@,
                ) && msg@ == "Bot "@ + bot_ids@[i]@ + " not found"@),
    {
        let mut entries: Vec<(String, String)> = Vec::new();
        let n = bot_ids.len();
        let mut i: usize = 0;
        while i < n
            invariant
                0 <= i <= n,
                n == bot_ids@.len(),
                entries@.len() == i,
                forall|j: int|
                    0 <= j < i ==> (#[trigger] entries@[j]).0@ == bot_ids@[j]@ && map_has_id(
                        self.cache.entries@,
                        bot_ids@[j]@,
                    ) && exists|k: int|
                        0 <= k < self.cache.entries@.len() && (#[trigger] self.cache.entries@[k]).0@
                            == bot_ids@[j]@ && self.cache.entries@[k].1@ == entries@[j].1@,
            decreases n - i,
        {
            match self.cache.get(bot_ids[i].as_str()) {
                Some(t) => {
                    entries.push((bot_ids[i].clone(), t.clone()));
                },
                None => {
                    return Err(
                        TgCloudError::BotManagerError(
                            String::from_str("Bot ").concat(bot_ids[i].as_str()).concat(
                                " not found",
                            ),
                        ),
                    );
                },
            }
            i = i + 1;
        }
        let m = TokenMap { entries };
        proof {
            assert forall|p: int, q: int| 0 <= p < q < m.entries@.len() implies (
            #[trigger] m.entries@[p]).0@ != (#[trigger] m.entries@[q]).0@ by {
                assert(bot_ids@[p]@ != bot_ids@[q]@);
            }
            assert forall|p: int| 0 <= p < bot_ids@.len() implies (#[trigger] m.entries@[p]).0@
                == bot_ids@[p]@ && map_has_id(self.cache.entries@, bot_ids@[p]@) by {
                assert(entries@[p].0@ == bot_ids@[p]@);
            }
        }
        Ok(m)
    }
}

/// `ids` are exactly the distinct bot ids of the first `upto` chunks: no id
/// twice, every chunk's bot covered, nothing from outside the chunk list.
pub open spec fn ids_cover(ids: Seq<String>, chunks: Seq<crate::models::FileChunk>, upto: int) -> bool {
    &&& forall|i: int, j: int|
        0 <= i < j < ids.len() ==> (#[trigger] ids[i])@ != (#[trigger] ids[j])@
    &&& forall|k: int|
        0 <= k < upto ==> exists|i: int|
            0 <= i < ids.len() && (#[trigger] ids[i])@ == (#[trigger] chunks[k]).bot_id@
    &&& forall|i: int|
        0 <= i < ids.len() ==> exists|k: int|
            0 <= k < chunks.len() && (#[trigger] chunks[k]).bot_id@ == (#[trigger] ids[i])@
}

/// The distinct bot ids recorded in a chunk list, in order of first
/// appearance: downloads and deletes build their token map and gates from
/// these.
pub fn unique_bot_ids(chunks: &Vec<crate::models::FileChunk>) -> (r: Vec<String>)
    ensures
        ids_cover(r@, chunks@, chunks@.len() as int),
{
    let mut r: Vec<String> = Vec::new();
    let n = chunks.len();
    let mut k: usize = 0;
    while k < n
        invariant
            0 <= k <= n,
            n == chunks@.len(),
            ids_cover(r@, chunks@, k as int),
        decreases n - k,
    {
        let mut seen = false;
        let m = r.len();
        let mut i: usize = 0;
        while i < m
            invariant
                0 <= i <= m,
                m == r@.len(),
                k < n,
                n == chunks@.len(),
                seen ==> exists|p: int|
                    0 <= p < r@.len() && (#[trigger] r@[p])@ == chunks@[k as int].bot_id@,
                !seen ==> forall|p: int| 0 <= p < i ==> (#[trigger] r@[p])@ != chunks@[k as int].bot_id@,
            decreases m - i,
        {
            if str_eq(r[i].as_str(), chunks[k].bot_id.as_str()) {
                seen = true;
                proof {
                    assert(r@[i as int]@ == chunks@[k as int].bot_id@);
                }
                i = m;
            } else {
                i = i + 1;
            }
        }
        let ghost r_before = r@;
        if !seen {
            r.push(chunks[k].bot_id.clone());
        }
        proof {
            assert forall|kk: int| 0 <= kk < k + 1 implies exists|i: int|
                0 <= i < r@.len() && (#[trigger] r@[i])@ == (#[trigger] chunks@[kk]).bot_id@ by {
                if kk < k {
                    let i = choose|i: int|
                        0 <= i < r_before.len() && (#[trigger] r_before[i])@ == chunks@[
                            kk
                        ].bot_id@;
                    assert(r@[i]@ == chunks@[kk].bot_id@);
                } else {
                    if seen {
                        let p = choose|p: int|
                            0 <= p < r_before.len() && (#[trigger] r_before[p])@ == chunks@[
                                k as int
                            ].bot_id@;
                        assert(r@[p]@ == chunks@[k as int].bot_id@);
                    } else {
                        assert(r@[r@.len() - 1]@ == chunks@[k as int].bot_id@);
                    }
                }
            }
            assert forall|i: int| 0 <= i < r@.len() implies exists|kk: int|
                0 <= kk < chunks@.len() && (#[trigger] chunks@[kk]).bot_id@ == (
            #[trigger] r@[i])@ by {
                if i < r_before.len() {
                    let kk = choose|kk: int|
                        0 <= kk < chunks@.len() && (#[trigger] chunks@[kk]).bot_id@ == r_before[
                            i
                        ]@;
                    assert(chunks@[kk].bot_id@ == r@[i]@);
                } else {
                    assert(chunks@[k as int].bot_id@ == r@[i]@);
                }
            }
        }
        k = k + 1;
    }
    r
}

/// `a` selects at or before `b` for single-chunk uploads: fewer uploads
/// handled wins, ties broken by `bot_id` order.
pub open spec fn selects_before(a: &Bot, b: &Bot) -> bool {
    a.upload_count < b.upload_count || (a.upload_count == b.upload_count && lex_le(
        a.bot_id@,
        b.bot_id@,
    ))
}

/// Pick the upload bot for the single-chunk path: the active bot with the
/// lowest `upload_count`, ties broken by `bot_id` order. With no active bot
/// the roster is unusable and an error is returned.
pub fn get_upload_bot(bots: &Vec<Bot>) -> (r: Result<Bot, TgCloudError>)
    ensures
        (r is Ok) == exists|i: int| 0 <= i < bots@.len() && (#[trigger] bots@[i]).active,
        r matches Ok(b) ==> b.active && bots@.contains(b) && forall|i: int|
            0 <= i < bots@.len() && (#[trigger] bots@[i]).active ==> selects_before(&b, &bots@[i]),
        r matches Err(e) ==> (e matches TgCloudError::BotManagerError(m) && m@
            == "No active bots found"@),
{
    let n = bots.len();
    let mut best: Option<usize> = None;
    let mut i: usize = 0;
    while i < n
        invariant
            0 <= i <= n,
            n == bots@.len(),
            best matches Some(k) ==> k < i && bots@[k as int].active && forall|j: int|
                0 <= j < i && (#[trigger] bots@[j]).active ==> selects_before(
                    &bots@[k as int],
                    &bots@[j],
                ),
            best is None ==> forall|j: int| 0 <= j < i ==> !(#[trigger] bots@[j]).active,
        decreases n - i,
    {
        if bots[i].active {
            match best {
                None => {
                    proof {
                        lemma_lex_refl(bots@[i as int].bot_id@);
                    }
                    best = Some(i);
                },
                Some(k) => {
                    let better = if bots[i].upload_count < bots[k].upload_count {
                        true
                    } else if bots[i].upload_count == bots[k].upload_count {
                        str_lex_le(bots[i].bot_id.as_str(), bots[k].bot_id.as_str())
                            && !str_eq(bots[i].bot_id.as_str(), bots[k].bot_id.as_str())
                    } else {
                        false
                    };
                    if better {
                        proof {
                            assert forall|j: int|
                                0 <= j < i + 1 && (#[trigger] bots@[j]).active implies
                                selects_before(&bots@[i as int], &bots@[j]) by {
                                if j == i {
                                    lemma_lex_refl(bots@[i as int].bot_id@);
                                } else {
                                    assert(selects_before(&bots@[k as int], &bots@[j]));
                                    if bots@[i as int].upload_count == bots@[k as int].upload_count
                                        && bots@[k as int].upload_count == bots@[j].upload_count {
                                        lemma_lex_trans(
                                            bots@[i as int].bot_id@,
                                            bots@[k as int].bot_id@,
                                            bots@[j].bot_id@,
                                        );
                                    }
                                }
                            }
                        }
                        best = Some(i);
                    } else {
                        proof {
                            if bots@[i as int].upload_count == bots@[k as int].upload_count {
                                lemma_lex_total(bots@[i as int].bot_id@, bots@[k as int].bot_id@);
                                lemma_lex_refl(bots@[k as int].bot_id@);
                            }
                        }
                    }
                },
            }
        }
        i = i + 1;
    }
    match best {
        Some(k) => Ok(bots[k].clone()),
        None => Err(TgCloudError::BotManagerError(String::from_str("No active bots found"))),
    }
}

} // verus!
