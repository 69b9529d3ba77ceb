//! The candidate scorer and ranker, candidate-pool merging, and the
//! composition of the whole recommendation pipeline: encode the rated
//! games, build the preference profile, score every candidate row against
//! it and produce a total order — strictly descending by score, with equal
//! scores kept in input order.

use vstd::prelude::*;

use crate::cb_filtering::{calc_profile_mat, create_feature_mat, degenerate, profile_weight,
    row_spec, total_weight, FeatureMatrix, Profile, RatedGame, MAX_RATED, WEIGHT_BOUND};
use crate::igdb::Game;
use crate::numeric::{dot_bool, frac_ge, frac_gt, lemma_frac_cmp};
use crate::vocab::{Vocabulary, MAX_COLS};
use crate::RecError;

verus! {

/// A candidate together with its computed score, the exact rational
/// `score_num / score_den`, and the candidate's position in the input
/// order (the tie-breaking key of the ranking).
#[derive(Debug, PartialEq)]
pub struct ScoredGame {
    pub game: Game,
    pub score_num: i128,
    pub score_den: i128,
    pub index: usize,
}

/// The score numerator of `game` over the first `n` columns: the sum of
/// the profile weights of the columns the game carries.
pub open spec fn candidate_score_upto(
    vocab: Vocabulary,
    rated: Seq<RatedGame>,
    game: Game,
    n: int,
) -> int
    decreases n,
{
    if n <= 0 {
        0
    } else {
        candidate_score_upto(vocab, rated, game, n - 1) + if vocab.game_hit(game, n - 1) {
            profile_weight(vocab, rated, n - 1)
        } else {
            0
        }
    }
}

/// The score numerator of `game` against the profile of `rated`: its full
/// score is this over the denominator `total_weight(vocab, rated)`.
pub open spec fn candidate_score(vocab: Vocabulary, rated: Seq<RatedGame>, game: Game) -> int {
    candidate_score_upto(vocab, rated, game, vocab.spec_len())
}

/// Compares two scores over the shared non-zero denominator `den`.
fn score_gt(a: i128, b: i128, den: i128) -> (r: bool)
    requires
        den != 0,
    ensures
        r == frac_gt(a as int, b as int, den as int),
{
    proof {
        lemma_frac_cmp(a as int, b as int, den as int);
    }
    if den > 0 {
        a > b
    } else {
        a < b
    }
}

/// Multiplies each candidate row of `mat` with the profile's weight
/// vector: one exact score numerator per row, all over the shared
/// denominator `profile.total`. Fails with `DimensionMismatch` when the
/// matrix and the profile disagree on the column count.
pub fn score_rows(mat: &FeatureMatrix, profile: &Profile) -> (r: Result<Vec<i128>, RecError>)
    requires
        mat.wf(),
        profile.wf(),
    ensures
        match r {
            Ok(nums) => {
                &&& mat.cols == profile.weights@.len()
                &&& nums@.len() == mat.rows@.len()
                &&& forall|i: int|
                    0 <= i < nums@.len() ==> #[trigger] nums@[i] as int == dot_bool(
                        mat.rows@[i]@,
                        profile.weights_int(),
                    )
            },
            Err(e) => {
                &&& e == RecError::DimensionMismatch
                &&& mat.cols != profile.weights@.len()
            },
        },
{
    if mat.cols != profile.weights.len() {
        return Err(RecError::DimensionMismatch);
    }
    let cols = mat.cols;
    let ghost wsi = profile.weights_int();
    let mut nums: Vec<i128> = Vec::new();
    let mut i: usize = 0;
    while i < mat.rows.len()
        invariant
            i <= mat.rows@.len(),
            mat.wf(),
            profile.wf(),
            cols == mat.cols,
            cols == profile.weights@.len(),
            cols <= MAX_COLS,
            wsi == profile.weights_int(),
            nums@.len() == i,
            forall|k: int|
                0 <= k < i ==> #[trigger] nums@[k] as int == dot_bool(mat.rows@[k]@, wsi),
        decreases mat.rows@.len() - i,
    {
        let row = &mat.rows[i];
        let mut acc: i128 = 0;
        let mut c: usize = 0;
        while c < cols
            invariant
                c <= cols,
                i < mat.rows@.len(),
                mat.wf(),
                profile.wf(),
                cols == mat.cols,
                cols == profile.weights@.len(),
                cols <= MAX_COLS,
                wsi == profile.weights_int(),
                row@ == mat.rows@[i as int]@,
                row@.len() == cols,
                acc as int == dot_bool(row@.take(c as int), wsi.take(c as int)),
                -(c as int * WEIGHT_BOUND) <= acc as int <= c as int * WEIGHT_BOUND,
            decreases cols - c,
        {
            proof {
                assert(row@.take(c + 1 as int).drop_last() =~= row@.take(c as int));
                assert(wsi.take(c + 1 as int).drop_last() =~= wsi.take(c as int));
                assert(wsi[c as int] == profile.weights@[c as int] as int);
                assert(c as int + 1 <= MAX_COLS as int);
                assert((c as int + 1) * WEIGHT_BOUND <= MAX_COLS as int * WEIGHT_BOUND);
            }
            if row[c] {
                acc = acc + profile.weights[c];
            }
            c = c + 1;
        }
        proof {
            assert(row@.take(cols as int) =~= row@);
            assert(wsi.take(cols as int) =~= wsi);
        }
        nums.push(acc);
        i = i + 1;
    }
    Ok(nums)
}

/// Ranks candidates by score. The result lists every input candidate
/// exactly once, ordered by strictly descending score; candidates with
/// equal scores keep their input order. Scores are the exact rationals
/// `nums[k] / den` over the shared non-zero denominator `den`.
pub fn rank_games(games: Vec<Game>, nums: Vec<i128>, den: i128) -> (r: Vec<ScoredGame>)
    requires
        nums@.len() == games@.len(),
        den != 0,
    ensures
        r@.len() == games@.len(),
        forall|k: int|
            0 <= k < r@.len() ==> {
                &&& (#[trigger] r@[k]).index < games@.len()
                &&& r@[k].game == games@[r@[k].index as int]
                &&& r@[k].score_num == nums@[r@[k].index as int]
                &&& r@[k].score_den == den
            },
        forall|k1: int, k2: int| 0 <= k1 < k2 < r@.len() ==> r@[k1].index != r@[k2].index,
        forall|k1: int, k2: int|
            0 <= k1 < k2 < r@.len() ==> frac_ge(
                r@[k1].score_num as int,
                r@[k2].score_num as int,
                den as int,
            ),
        forall|k1: int, k2: int|
            0 <= k1 < k2 < r@.len() && r@[k1].score_num == r@[k2].score_num ==> r@[k1].index
                < r@[k2].index,
{
    let ghost g0 = games@;
    let ghost n0 = nums@;
    let mut games = games;
    let mut nums = nums;
    let mut out: Vec<ScoredGame> = Vec::new();
    while games.len() > 0
        invariant
            nums@.len() == games@.len(),
            games@ == g0.take(games@.len() as int),
            nums@ == n0.take(games@.len() as int),
            n0.len() == g0.len(),
            den != 0,
            out@.len() == g0.len() - games@.len(),
            forall|k: int|
                0 <= k < out@.len() ==> {
                    &&& games@.len() <= (#[trigger] out@[k]).index < g0.len()
                    &&& out@[k].game == g0[out@[k].index as int]
                    &&& out@[k].score_num == n0[out@[k].index as int]
                    &&& out@[k].score_den == den
                },
            forall|k1: int, k2: int| 0 <= k1 < k2 < out@.len() ==> out@[k1].index != out@[k2].index,
            forall|k1: int, k2: int|
                0 <= k1 < k2 < out@.len() ==> frac_ge(
                    out@[k1].score_num as int,
                    out@[k2].score_num as int,
                    den as int,
                ),
            forall|k1: int, k2: int|
                0 <= k1 < k2 < out@.len() && out@[k1].score_num == out@[k2].score_num ==> out@[
                    k1
                ].index < out@[k2].index,
        decreases games@.len(),
    {
        let i = games.len() - 1;
        proof {
            assert(games@.last() == g0[i as int]);
            assert(nums@.last() == n0[i as int]);
            assert(games@.subrange(0, i as int) =~= g0.take(i as int));
            assert(nums@.subrange(0, i as int) =~= n0.take(i as int));
        }
        let game = games.pop().unwrap();
        let num = nums.pop().unwrap();
        let entry = ScoredGame { game, score_num: num, score_den: den, index: i };
        let mut j: usize = 0;
        while j < out.len() && score_gt(out[j].score_num, num, den)
            invariant
                j <= out@.len(),
                den != 0,
                forall|k: int|
                    0 <= k < j ==> frac_gt(
                        (#[trigger] out@[k]).score_num as int,
                        num as int,
                        den as int,
                    ),
                forall|k1: int, k2: int|
                    0 <= k1 < k2 < out@.len() ==> frac_ge(
                        out@[k1].score_num as int,
                        out@[k2].score_num as int,
                        den as int,
                    ),
            decreases out@.len() - j,
        {
            j = j + 1;
        }
        let ghost ob = out@;
        let ghost jj = j as int;
        out.insert(j, entry);
        proof {
            ob.insert_ensures(jj, entry);
            let o = out@;
            assert(o == ob.insert(jj, entry));
            assert forall|k: int| 0 <= k < o.len() implies {
                &&& games@.len() <= (#[trigger] o[k]).index < g0.len()
                &&& o[k].game == g0[o[k].index as int]
                &&& o[k].score_num == n0[o[k].index as int]
                &&& o[k].score_den == den
            } by {
                if k < jj {
                    assert(o[k] == ob[k]);
                } else if k == jj {
                    assert(o[k] == entry);
                } else {
                    assert(o[k] == ob[k - 1]);
                }
            }
            assert forall|k1: int, k2: int| 0 <= k1 < k2 < o.len() implies {
                &&& frac_ge(o[k1].score_num as int, o[k2].score_num as int, den as int)
                &&& o[k1].index != o[k2].index
                &&& (o[k1].score_num == o[k2].score_num ==> o[k1].index < o[k2].index)
            } by {
                if k1 < jj && k2 < jj {
                    assert(o[k1] == ob[k1]);
                    assert(o[k2] == ob[k2]);
                } else if k1 < jj && k2 == jj {
                    assert(o[k1] == ob[k1]);
                    assert(o[k2] == entry);
                    assert(frac_gt(ob[k1].score_num as int, num as int, den as int));
                } else if k1 < jj && k2 > jj {
                    assert(o[k1] == ob[k1]);
                    assert(o[k2] == ob[k2 - 1]);
                } else if k1 == jj {
                    assert(o[k1] == entry);
                    assert(o[k2] == ob[k2 - 1]);
                    assert(!frac_gt(ob[jj].score_num as int, num as int, den as int));
                    if k2 - 1 > jj {
                        assert(frac_ge(
                            ob[jj].score_num as int,
                            ob[k2 - 1].score_num as int,
                            den as int,
                        ));
                    }
                } else {
                    assert(o[k1] == ob[k1 - 1]);
                    assert(o[k2] == ob[k2 - 1]);
                }
            }
        }
    }
    proof {
        assert(out@.len() == g0.len());
    }
    out
}

/// Whether some game of `s` has the identifier `id`.
pub open spec fn has_id(s: Seq<Game>, id: u64) -> bool {
    exists|i: int| 0 <= i < s.len() && s[i].id == id
}

/// `s` with every game whose identifier already occurred dropped; the
/// first occurrence wins.
pub open spec fn dedup_games(s: Seq<Game>) -> Seq<Game>
    decreases s.len(),
{
    if s.len() == 0 {
        Seq::<Game>::empty()
    } else if has_id(s.drop_last(), s.last().id) {
        dedup_games(s.drop_last())
    } else {
        dedup_games(s.drop_last()).push(s.last())
    }
}

/// Identifier-deduplication keeps every game of the input exactly once per
/// identifier: the result's identifiers are pairwise distinct, an
/// identifier occurs in the result exactly when it occurs in the input,
/// and every entry of the result is an entry of the input.
pub proof fn lemma_dedup_games_props(s: Seq<Game>)
    ensures
        forall|k1: int, k2: int|
            0 <= k1 < k2 < dedup_games(s).len() ==> dedup_games(s)[k1].id != dedup_games(s)[k2].id,
        forall|id: u64| #[trigger] has_id(dedup_games(s), id) <==> has_id(s, id),
        forall|k: int| 0 <= k < dedup_games(s).len() ==> s.contains(#[trigger] dedup_games(s)[k]),
    decreases s.len(),
{
    broadcast use vstd::seq_lib::group_seq_properties;

    if s.len() > 0 {
        lemma_dedup_games_props(s.drop_last());
        let pre = s.drop_last();
        let v = s.last();
        let d = dedup_games(pre);
        assert forall|x: Game| #[trigger] pre.contains(x) implies s.contains(x) by {
            let i = choose|i: int| 0 <= i < pre.len() && pre[i] == x;
            assert(s[i] == x);
        }
        assert(s[s.len() - 1] == v);
        assert(s.contains(v));
        assert forall|id: u64| #[trigger] has_id(s, id) implies has_id(pre, id) || v.id == id by {
            let i = choose|i: int| 0 <= i < s.len() && s[i].id == id;
            if i < s.len() - 1 {
                assert(pre[i].id == id);
            }
        }
        assert forall|id: u64| has_id(pre, id) implies #[trigger] has_id(s, id) by {
            let i = choose|i: int| 0 <= i < pre.len() && pre[i].id == id;
            assert(s[i].id == id);
        }
        if !has_id(pre, v.id) {
            assert forall|id: u64| #[trigger] has_id(d.push(v), id) implies has_id(d, id) || v.id
                == id by {
                let i = choose|i: int| 0 <= i < d.push(v).len() && d.push(v)[i].id == id;
                if i < d.len() {
                    assert(d[i].id == id);
                }
            }
            assert(d.push(v)[d.len() as int] == v);
            assert(has_id(d.push(v), v.id));
            assert forall|id: u64| has_id(d, id) implies #[trigger] has_id(d.push(v), id) by {
                let i = choose|i: int| 0 <= i < d.len() && d[i].id == id;
                assert(d.push(v)[i].id == id);
            }
            assert forall|k1: int, k2: int| 0 <= k1 < k2 < d.push(v).len() implies d.push(v)[k1].id
                != d.push(v)[k2].id by {
                if k2 < d.len() {
                    assert(d[k1].id != d[k2].id);
                } else {
                    assert(d.push(v)[k1] == d[k1]);
                    assert(d[k1].id == d.push(v)[k1].id);
                    assert(has_id(d, d[k1].id));
                }
            }
        }
    }
}

/// Whether `v` lists a game with identifier `id`.
pub fn contains_game_id(v: &Vec<Game>, id: u64) -> (r: bool)
    ensures
        r == has_id(v@, id),
{
    let mut i: usize = 0;
    while i < v.len()
        invariant
            i <= v@.len(),
            forall|k: int| 0 <= k < i ==> v@[k].id != id,
        decreases v@.len() - i,
    {
        if v[i].id == id {
            return true;
        }
        i = i + 1;
    }
    false
}

/// Appends `src` to the deduplicated pool `out`, skipping every game
/// whose identifier is already present; first occurrence wins.
fn extend_dedup(out: &mut Vec<Game>, src: Vec<Game>, Ghost(prefix): Ghost<Seq<Game>>)
    requires
        old(out)@ == dedup_games(prefix),
    ensures
        final(out)@ == dedup_games(prefix + src@),
{
    let ghost s0 = src@;
    let mut src = src;
    while src.len() > 0
        invariant
            src@.len() <= s0.len(),
            src@ == s0.skip(s0.len() - src@.len()),
            out@ == dedup_games(prefix + s0.take(s0.len() - src@.len())),
        decreases src@.len(),
    {
        let ghost done = s0.len() - src@.len();
        let g = src.remove(0);
        proof {
            assert(s0.skip(done as int)[0] == s0[done as int]);
            assert(g == s0[done as int]);
            assert(s0.skip(done as int).remove(0) =~= s0.skip(done + 1));
            let t = prefix + s0.take(done as int);
            let t1 = prefix + s0.take(done + 1);
            assert(t1.drop_last() =~= t);
            assert(t1.last() == g);
            lemma_dedup_games_props(t);
        }
        if !contains_game_id(out, g.id) {
            out.push(g);
        }
    }
    proof {
        assert(s0.take(s0.len() as int) =~= s0);
    }
}

/// Merges a pool of additional candidates (for instance a "similar games"
/// pool) into a main candidate pool, deduplicating by identifier: a game
/// whose id is already present is not added twice, and the first
/// occurrence — in main-pool-then-similar-pool order — wins.
pub fn merge_candidates(main: Vec<Game>, similar: Vec<Game>) -> (r: Vec<Game>)
    ensures
        r@ == dedup_games(main@ + similar@),
        forall|k1: int, k2: int| 0 <= k1 < k2 < r@.len() ==> r@[k1].id != r@[k2].id,
        forall|id: u64| #[trigger] has_id(r@, id) <==> has_id(main@ + similar@, id),
        forall|k: int| 0 <= k < r@.len() ==> (main@ + similar@).contains(#[trigger] r@[k]),
{
    let ghost m0 = main@;
    let ghost s0 = similar@;
    let mut out: Vec<Game> = Vec::new();
    proof {
        assert(out@ == dedup_games(Seq::<Game>::empty()));
    }
    extend_dedup(&mut out, main, Ghost(Seq::<Game>::empty()));
    proof {
        assert(Seq::<Game>::empty() + m0 =~= m0);
    }
    extend_dedup(&mut out, similar, Ghost(m0));
    proof {
        lemma_dedup_games_props(m0 + s0);
    }
    out
}

/// The concatenation of the `similar_games` pools of `queries`, in order.
pub open spec fn flatten_similar(queries: Seq<Game>) -> Seq<Game>
    decreases queries.len(),
{
    if queries.len() == 0 {
        Seq::<Game>::empty()
    } else {
        flatten_similar(queries.drop_last()) + queries.last().similar_games@
    }
}

/// Collects the related-games pools of a list of queried games into one
/// pool, deduplicated by identifier; the first occurrence wins.
pub fn collect_similar_games(queries: Vec<Game>) -> (r: Vec<Game>)
    ensures
        r@ == dedup_games(flatten_similar(queries@)),
        forall|k1: int, k2: int| 0 <= k1 < k2 < r@.len() ==> r@[k1].id != r@[k2].id,
        forall|id: u64| #[trigger] has_id(r@, id) <==> has_id(flatten_similar(queries@), id),
{
    let ghost q0 = queries@;
    let mut queries = queries;
    let mut out: Vec<Game> = Vec::new();
    proof {
        assert(out@ == dedup_games(Seq::<Game>::empty()));
        assert(flatten_similar(q0.take(0)) =~= Seq::<Game>::empty());
    }
    while queries.len() > 0
        invariant
            queries@.len() <= q0.len(),
            queries@ == q0.skip(q0.len() - queries@.len()),
            out@ == dedup_games(flatten_similar(q0.take(q0.len() - queries@.len()))),
        decreases queries@.len(),
    {
        let ghost done = q0.len() - queries@.len();
        let q = queries.remove(0);
        proof {
            assert(q0.skip(done as int)[0] == q0[done as int]);
            assert(q == q0[done as int]);
            assert(q0.skip(done as int).remove(0) =~= q0.skip(done + 1));
            assert(q0.take(done + 1).drop_last() =~= q0.take(done as int));
            assert(q0.take(done + 1).last() == q);
            assert(flatten_similar(q0.take(done + 1)) =~= flatten_similar(q0.take(done as int))
                + q.similar_games@);
        }
        let sims = q.similar_games;
        extend_dedup(&mut out, sims, Ghost(flatten_similar(q0.take(done as int))));
    }
    proof {
        assert(q0.take(q0.len() as int) =~= q0);
        lemma_dedup_games_props(flatten_similar(q0));
    }
    out
}

/// Whether `ratings` carries a rating for the identifier `id`.
pub open spec fn has_rating(ratings: Seq<(u64, i64)>, id: u64) -> bool {
    exists|k: int| 0 <= k < ratings.len() && ratings[k].0 == id
}

/// The first rating listed for `id`, or zero when none is.
pub open spec fn rating_of(ratings: Seq<(u64, i64)>, id: u64) -> i64
    decreases ratings.len(),
{
    if ratings.len() == 0 {
        0
    } else if ratings.first().0 == id {
        ratings.first().1
    } else {
        rating_of(ratings.drop_first(), id)
    }
}

proof fn lemma_rating_of_hit(ratings: Seq<(u64, i64)>, id: u64, j: int)
    requires
        0 <= j < ratings.len(),
        ratings[j].0 == id,
        forall|k: int| 0 <= k < j ==> ratings[k].0 != id,
    ensures
        rating_of(ratings, id) == ratings[j].1,
    decreases j,
{
    if j > 0 {
        lemma_rating_of_hit(ratings.drop_first(), id, j - 1);
    }
}

/// The first rating listed for `id` in `ratings`.
fn lookup_rating(ratings: &Vec<(u64, i64)>, id: u64) -> (r: i64)
    requires
        has_rating(ratings@, id),
    ensures
        r == rating_of(ratings@, id),
{
    let mut j: usize = 0;
    while j < ratings.len()
        invariant
            j <= ratings@.len(),
            has_rating(ratings@, id),
            forall|k: int| 0 <= k < j ==> ratings@[k].0 != id,
        decreases ratings@.len() - j,
    {
        if ratings[j].0 == id {
            proof {
                lemma_rating_of_hit(ratings@, id, j as int);
            }
            return ratings[j].1;
        }
        j = j + 1;
    }
    proof {
        assert(false);
    }
    0
}

/// Pairs each game with the caller's rating of its identifier; every game
/// must be rated. When an identifier is rated more than once, the first
/// listed rating wins.
pub fn pair_ratings(games: Vec<Game>, ratings: &Vec<(u64, i64)>) -> (r: Vec<RatedGame>)
    requires
        forall|i: int| 0 <= i < games@.len() ==> has_rating(ratings@, (#[trigger] games@[i]).id),
    ensures
        r@.len() == games@.len(),
        forall|i: int|
            0 <= i < r@.len() ==> {
                &&& (#[trigger] r@[i]).game == games@[i]
                &&& r@[i].rating == rating_of(ratings@, games@[i].id)
            },
{
    let ghost g0 = games@;
    let mut games = games;
    let mut out: Vec<RatedGame> = Vec::new();
    while games.len() > 0
        invariant
            games@.len() <= g0.len(),
            games@ == g0.skip(g0.len() - games@.len()),
            out@.len() == g0.len() - games@.len(),
            forall|i: int| 0 <= i < g0.len() ==> has_rating(ratings@, (#[trigger] g0[i]).id),
            forall|i: int|
                0 <= i < out@.len() ==> {
                    &&& (#[trigger] out@[i]).game == g0[i]
                    &&& out@[i].rating == rating_of(ratings@, g0[i].id)
                },
        decreases games@.len(),
    {
        let ghost done = g0.len() - games@.len();
        let g = games.remove(0);
        proof {
            assert(g0.skip(done as int)[0] == g0[done as int]);
            assert(g == g0[done as int]);
            assert(g0.skip(done as int).remove(0) =~= g0.skip(done + 1));
        }
        let rating = lookup_rating(ratings, g.id);
        out.push(RatedGame { game: g, rating });
    }
    out
}

/// A candidate row's weighted sum against the profile's weights equals
/// its column-wise score against the rated list the profile was built
/// from.
proof fn lemma_dot_matches_score(
    vocab: Vocabulary,
    rated: Seq<RatedGame>,
    game: Game,
    w: Seq<int>,
    n: int,
)
    requires
        0 <= n <= vocab.spec_len(),
        w.len() == n,
        forall|c: int| 0 <= c < n ==> #[trigger] w[c] == profile_weight(vocab, rated, c),
    ensures
        dot_bool(row_spec(vocab, game).take(n), w) == candidate_score_upto(vocab, rated, game, n),
    decreases n,
{
    if n > 0 {
        let row = row_spec(vocab, game);
        assert(row.take(n).drop_last() =~= row.take(n - 1));
        assert(row.take(n).last() == vocab.game_hit(game, n - 1));
        assert(w.drop_last().len() == n - 1);
        lemma_dot_matches_score(vocab, rated, game, w.drop_last(), n - 1);
    }
}

/// Scoring monotonicity: two candidates with identical attributes except
/// that `a` carries one extra recognized feature (column `c`) rank in
/// that order whenever the preference profile is non-negative — `a`'s
/// score numerator is at least `b`'s, and over the positive total the
/// same holds for the rational scores.
pub proof fn lemma_score_monotonic(
    vocab: Vocabulary,
    rated: Seq<RatedGame>,
    a: Game,
    b: Game,
    c: int,
)
    requires
        0 <= c < vocab.spec_len(),
        vocab.game_hit(a, c),
        !vocab.game_hit(b, c),
        forall|j: int|
            0 <= j < vocab.spec_len() && j != c ==> vocab.game_hit(a, j) == vocab.game_hit(b, j),
        forall|j: int| 0 <= j < vocab.spec_len() ==> profile_weight(vocab, rated, j) >= 0,
        total_weight(vocab, rated) > 0,
    ensures
        candidate_score(vocab, rated, a) >= candidate_score(vocab, rated, b),
        frac_ge(
            candidate_score(vocab, rated, a),
            candidate_score(vocab, rated, b),
            total_weight(vocab, rated),
        ),
{
    let n = vocab.spec_len();
    let w = Seq::new(n as nat, |j: int| profile_weight(vocab, rated, j));
    let ra = row_spec(vocab, a);
    let rb = row_spec(vocab, b);
    assert(ra.take(n) =~= ra);
    assert(rb.take(n) =~= rb);
    lemma_dot_matches_score(vocab, rated, a, w, n);
    lemma_dot_matches_score(vocab, rated, b, w, n);
    crate::numeric::lemma_scoring_monotonic(ra, rb, w, c, total_weight(vocab, rated));
}

/// Scores and ranks a candidate pool against an existing preference
/// profile: encodes the candidates over `vocab`, takes each row's dot
/// product with the profile's weights and ranks by strictly descending
/// score, equal scores in input order. Zero candidates yield an empty
/// ranking (not an error); a profile whose dimension disagrees with the
/// vocabulary yields `DimensionMismatch`.
pub fn score_candidates(vocab: &Vocabulary, profile: &Profile, candidates: Vec<Game>) -> (r:
    Result<Vec<ScoredGame>, RecError>)
    requires
        vocab.spec_len() <= usize::MAX,
        profile.wf(),
    ensures
        match r {
            Ok(out) => {
                &&& vocab.spec_len() == profile.weights@.len()
                &&& out@.len() == candidates@.len()
                &&& forall|k: int|
                    0 <= k < out@.len() ==> {
                        &&& (#[trigger] out@[k]).index < candidates@.len()
                        &&& out@[k].game == candidates@[out@[k].index as int]
                        &&& out@[k].score_num as int == dot_bool(
                            row_spec(*vocab, candidates@[out@[k].index as int]),
                            profile.weights_int(),
                        )
                        &&& out@[k].score_den == profile.total
                    }
                &&& forall|k1: int, k2: int|
                    0 <= k1 < k2 < out@.len() ==> out@[k1].index != out@[k2].index
                &&& forall|k1: int, k2: int|
                    0 <= k1 < k2 < out@.len() ==> frac_ge(
                        out@[k1].score_num as int,
                        out@[k2].score_num as int,
                        profile.total as int,
                    )
                &&& forall|k1: int, k2: int|
                    0 <= k1 < k2 < out@.len() && out@[k1].score_num == out@[k2].score_num ==> out@[
                        k1
                    ].index < out@[k2].index
            },
            Err(e) => {
                &&& e == RecError::DimensionMismatch
                &&& vocab.spec_len() != profile.weights@.len()
            },
        },
{
    let mat = create_feature_mat(vocab, &candidates);
    let nums = match score_rows(&mat, profile) {
        Ok(nums) => nums,
        Err(e) => {
            return Err(e);
        },
    };
    let ranked = rank_games(candidates, nums, profile.total);
    Ok(ranked)
}

/// The whole pipeline on plain values: builds the preference profile of
/// `rated_games`, encodes `candidates`, scores every candidate against
/// the profile and ranks them by strictly descending score, equal scores
/// in input order. A candidate's score is the exact rational
/// `score_num / score_den` with the shared denominator
/// `total_weight(vocab, rated_games)`. Zero candidates yield an empty
/// ranking; a degenerate rated list yields `UnderdeterminedProfile`.
pub fn recommend(vocab: &Vocabulary, rated_games: &Vec<RatedGame>, candidates: Vec<Game>) -> (r:
    Result<Vec<ScoredGame>, RecError>)
    requires
        vocab.wf(),
        rated_games@.len() <= MAX_RATED,
    ensures
        match r {
            Ok(out) => {
                &&& !degenerate(*vocab, rated_games@)
                &&& out@.len() == candidates@.len()
                &&& forall|k: int|
                    0 <= k < out@.len() ==> {
                        &&& (#[trigger] out@[k]).index < candidates@.len()
                        &&& out@[k].game == candidates@[out@[k].index as int]
                        &&& out@[k].score_num as int == candidate_score(
                            *vocab,
                            rated_games@,
                            candidates@[out@[k].index as int],
                        )
                        &&& out@[k].score_den as int == total_weight(*vocab, rated_games@)
                    }
                &&& forall|k1: int, k2: int|
                    0 <= k1 < k2 < out@.len() ==> out@[k1].index != out@[k2].index
                &&& forall|k1: int, k2: int|
                    0 <= k1 < k2 < out@.len() ==> frac_ge(
                        out@[k1].score_num as int,
                        out@[k2].score_num as int,
                        total_weight(*vocab, rated_games@),
                    )
                &&& forall|k1: int, k2: int|
                    0 <= k1 < k2 < out@.len() && out@[k1].score_num == out@[k2].score_num ==> out@[
                        k1
                    ].index < out@[k2].index
            },
            Err(e) => {
                &&& e == RecError::UnderdeterminedProfile
                &&& degenerate(*vocab, rated_games@)
            },
        },
{
    let profile = match calc_profile_mat(vocab, rated_games) {
        Ok(p) => p,
        Err(e) => {
            return Err(e);
        },
    };
    let ghost cands = candidates@;
    let ranked = match score_candidates(vocab, &profile, candidates) {
        Ok(out) => out,
        Err(e) => {
            proof {
                assert(false);
            }
            return Err(e);
        },
    };
    proof {
        let wsi = profile.weights_int();
        assert forall|k: int| 0 <= k < ranked@.len() implies #[trigger] ranked@[k].score_num as int
            == candidate_score(*vocab, rated_games@, cands[ranked@[k].index as int]) by {
            let game = cands[ranked@[k].index as int];
            lemma_dot_matches_score(*vocab, rated_games@, game, wsi, vocab.spec_len());
            assert(row_spec(*vocab, game).take(vocab.spec_len()) =~= row_spec(*vocab, game));
        }
    }
    Ok(ranked)
}

} // verus!
