//! Content-based filtering: the feature encoder, the profile builder and
//! the feature-set extractor. Items are encoded as indicator rows over a
//! feature vocabulary; a user's rated items combine into an exactly
//! normalized preference profile over the same columns.
//!
//! Ratings are integers on a caller-chosen scale; only their relative
//! magnitudes and signs matter. All weighted sums are exact, so the
//! profile entry of column `c` is the rational
//! `weights[c] / total`, and the entries sum to exactly one whenever the
//! profile exists.

use vstd::prelude::*;

use crate::igdb::Game;
use crate::numeric::{count_true, rat_eq, sum_int};
use crate::vocab::{distinct_seq, Family, Vocabulary, MAX_COLS};
use crate::RecError;

verus! {

/// The most rated games one profile may be built from.
pub const MAX_RATED: usize = 0x4000_0000;

/// Magnitude bound on a single column weight: `MAX_RATED` ratings of the
/// largest magnitude.
pub const WEIGHT_BOUND: i128 = 0x2000_0000_0000_0000_0000_0000;

/// A game together with the caller's rating of it. The scale of the
/// rating is the caller's; negative ratings signal aversion.
#[derive(Debug, PartialEq)]
pub struct RatedGame {
    pub game: Game,
    pub rating: i64,
}

/// The distinct attribute ids of each family over a set of games, in
/// first-occurrence order.
#[derive(Debug, PartialEq)]
pub struct FeatureSet {
    pub genres: Vec<u64>,
    pub themes: Vec<u64>,
    pub perspectives: Vec<u64>,
}

/// A binary indicator matrix: one row per encoded item, one column per
/// vocabulary entry.
#[derive(Debug, PartialEq)]
pub struct FeatureMatrix {
    pub rows: Vec<Vec<bool>>,
    pub cols: usize,
}

impl FeatureMatrix {
    /// Every row spans exactly the matrix's columns.
    pub open spec fn wf(&self) -> bool {
        forall|i: int| 0 <= i < self.rows@.len() ==> (#[trigger] self.rows@[i])@.len() == self.cols
    }
}

/// The indicator row of `game` over `vocab`: entry `j` is set exactly when
/// the game carries the attribute of column `j`.
pub open spec fn row_spec(vocab: Vocabulary, game: Game) -> Seq<bool> {
    Seq::new(vocab.spec_len() as nat, |j: int| vocab.game_hit(game, j))
}

/// Whether `v` lists `x`.
pub fn contains_u64(v: &Vec<u64>, x: u64) -> (r: bool)
    ensures
        r == v@.contains(x),
{
    let mut i: usize = 0;
    while i < v.len()
        invariant
            i <= v@.len(),
            forall|k: int| 0 <= k < i ==> v@[k] != x,
        decreases v@.len() - i,
    {
        if v[i] == x {
            return true;
        }
        i = i + 1;
    }
    false
}

/// Encodes one game as its indicator row over `vocab`. Attribute ids the
/// vocabulary does not list are ignored; they set no entry and raise no
/// error.
pub fn encode_game_row(vocab: &Vocabulary, game: &Game) -> (r: Vec<bool>)
    requires
        vocab.spec_len() <= usize::MAX,
    ensures
        r@ == row_spec(*vocab, *game),
{
    let mut row: Vec<bool> = Vec::new();
    let mut j: usize = 0;
    while j < vocab.genres.len()
        invariant
            j <= vocab.genres@.len(),
            vocab.spec_len() <= usize::MAX,
            row@.len() == j,
            forall|k: int| 0 <= k < j ==> row@[k] == vocab.game_hit(*game, k),
        decreases vocab.genres@.len() - j,
    {
        row.push(contains_u64(&game.genres, vocab.genres[j]));
        j = j + 1;
    }
    let mut j: usize = 0;
    while j < vocab.themes.len()
        invariant
            j <= vocab.themes@.len(),
            vocab.spec_len() <= usize::MAX,
            row@.len() == vocab.genres@.len() + j,
            forall|k: int| 0 <= k < row@.len() ==> row@[k] == vocab.game_hit(*game, k),
        decreases vocab.themes@.len() - j,
    {
        row.push(contains_u64(&game.themes, vocab.themes[j]));
        j = j + 1;
    }
    let mut j: usize = 0;
    while j < vocab.perspectives.len()
        invariant
            j <= vocab.perspectives@.len(),
            vocab.spec_len() <= usize::MAX,
            row@.len() == vocab.genres@.len() + vocab.themes@.len() + j,
            forall|k: int| 0 <= k < row@.len() ==> row@[k] == vocab.game_hit(*game, k),
        decreases vocab.perspectives@.len() - j,
    {
        row.push(contains_u64(&game.player_perspectives, vocab.perspectives[j]));
        j = j + 1;
    }
    proof {
        assert(row@ =~= row_spec(*vocab, *game));
    }
    row
}

/// Encodes an ordered list of games into an indicator matrix: one row per
/// game in input order, one column per vocabulary entry, entries set by
/// attribute membership. Unrecognized attribute ids are ignored.
pub fn create_feature_mat(vocab: &Vocabulary, games: &Vec<Game>) -> (m: FeatureMatrix)
    requires
        vocab.spec_len() <= usize::MAX,
    ensures
        m.wf(),
        m.cols == vocab.spec_len(),
        m.rows@.len() == games@.len(),
        forall|i: int| 0 <= i < games@.len() ==> (#[trigger] m.rows@[i])@ == row_spec(
            *vocab,
            games@[i],
        ),
{
    let cols = vocab.len();
    let mut rows: Vec<Vec<bool>> = Vec::new();
    let mut i: usize = 0;
    while i < games.len()
        invariant
            i <= games@.len(),
            vocab.spec_len() <= usize::MAX,
            cols == vocab.spec_len(),
            rows@.len() == i,
            forall|k: int| 0 <= k < i ==> (#[trigger] rows@[k])@ == row_spec(*vocab, games@[k]),
        decreases games@.len() - i,
    {
        rows.push(encode_game_row(vocab, &games[i]));
        i = i + 1;
    }
    FeatureMatrix { rows, cols }
}

/// Encoding totality: the number of set entries of a game's indicator row
/// is exactly the number of the game's distinct attribute ids that the
/// vocabulary recognizes — per family, the cardinality of the intersection
/// of the game's id set with the family's vocabulary ids. Ids outside the
/// vocabulary contribute nothing.
pub proof fn lemma_encoding_totality(vocab: Vocabulary, game: Game)
    requires
        vocab.wf(),
    ensures
        count_true(row_spec(vocab, game)) == game.genres@.to_set().intersect(
            vocab.genres@.to_set(),
        ).len() + game.themes@.to_set().intersect(vocab.themes@.to_set()).len()
            + game.player_perspectives@.to_set().intersect(vocab.perspectives@.to_set()).len(),
{
    let row = row_spec(vocab, game);
    let ga = hits_row(game.genres@, vocab.genres@);
    let gb = hits_row(game.themes@, vocab.themes@);
    let gc = hits_row(game.player_perspectives@, vocab.perspectives@);
    assert(row =~= ga + gb + gc);
    lemma_count_true_concat(ga + gb, gc);
    lemma_count_true_concat(ga, gb);
    lemma_hits_intersect(game.genres@, vocab.genres@);
    lemma_hits_intersect(game.themes@, vocab.themes@);
    lemma_hits_intersect(game.player_perspectives@, vocab.perspectives@);
}

/// The indicator row of one family: entry `j` marks whether `ids` lists
/// the `j`-th vocabulary id.
spec fn hits_row(ids: Seq<u64>, vocab_ids: Seq<u64>) -> Seq<bool> {
    Seq::new(vocab_ids.len(), |j: int| ids.contains(vocab_ids[j]))
}

proof fn lemma_count_true_concat(a: Seq<bool>, b: Seq<bool>)
    ensures
        count_true(a + b) == count_true(a) + count_true(b),
    decreases b.len(),
{
    if b.len() == 0 {
        assert(a + b =~= a);
    } else {
        assert((a + b).drop_last() =~= a + b.drop_last());
        lemma_count_true_concat(a, b.drop_last());
    }
}

/// Over a duplicate-free vocabulary list, the number of hits equals the
/// cardinality of the intersection of the id sets.
proof fn lemma_hits_intersect(ids: Seq<u64>, vocab_ids: Seq<u64>)
    requires
        distinct_seq(vocab_ids),
    ensures
        count_true(hits_row(ids, vocab_ids)) == ids.to_set().intersect(vocab_ids.to_set()).len(),
    decreases vocab_ids.len(),
{
    if vocab_ids.len() == 0 {
        assert(vocab_ids.to_set() =~= Set::<u64>::empty());
        assert(ids.to_set().intersect(vocab_ids.to_set()) =~= Set::<u64>::empty());
    } else {
        let pre = vocab_ids.drop_last();
        let v = vocab_ids.last();
        lemma_hits_intersect(ids, pre);
        assert(hits_row(ids, vocab_ids).drop_last() =~= hits_row(ids, pre));
        assert forall|x: u64| #[trigger] vocab_ids.contains(x) implies pre.contains(x) || x == v by {
            let i = choose|i: int| 0 <= i < vocab_ids.len() && vocab_ids[i] == x;
            if i < vocab_ids.len() - 1 {
                assert(pre[i] == x);
            }
        }
        assert forall|x: u64| #[trigger] pre.contains(x) implies vocab_ids.contains(x) by {
            let i = choose|i: int| 0 <= i < pre.len() && pre[i] == x;
            assert(vocab_ids[i] == x);
        }
        assert(vocab_ids[vocab_ids.len() - 1] == v);
        assert(vocab_ids.contains(v));
        assert(vocab_ids.to_set() =~= pre.to_set().insert(v));
        assert(!pre.contains(v));
        assert(!pre.to_set().contains(v));
        let with = ids.to_set().intersect(vocab_ids.to_set());
        let without = ids.to_set().intersect(pre.to_set());
        if ids.contains(v) {
            assert(with =~= without.insert(v));
            assert(!without.contains(v));
            vstd::seq_lib::seq_to_set_is_finite::<u64>(ids);
            vstd::seq_lib::seq_to_set_is_finite::<u64>(pre);
            vstd::set::axiom_set_intersect_finite::<u64>(ids.to_set(), pre.to_set());
            vstd::set::axiom_set_insert_len::<u64>(without, v);
        } else {
            assert(with =~= without);
        }
    }
}

/// The weighted sum of column `c` over a rated-game list: the sum of the
/// ratings of the games that carry the attribute of column `c`.
pub open spec fn profile_weight(vocab: Vocabulary, rated: Seq<RatedGame>, c: int) -> int
    decreases rated.len(),
{
    if rated.len() == 0 {
        0
    } else {
        profile_weight(vocab, rated.drop_last(), c) + if vocab.game_hit(rated.last().game, c) {
            rated.last().rating as int
        } else {
            0
        }
    }
}

/// The sum of the column weights of the first `n` columns.
pub open spec fn total_weight_upto(vocab: Vocabulary, rated: Seq<RatedGame>, n: int) -> int
    decreases n,
{
    if n <= 0 {
        0
    } else {
        total_weight_upto(vocab, rated, n - 1) + profile_weight(vocab, rated, n - 1)
    }
}

/// The total signal of a rated-game list: the sum of all column weights.
pub open spec fn total_weight(vocab: Vocabulary, rated: Seq<RatedGame>) -> int {
    total_weight_upto(vocab, rated, vocab.spec_len())
}

/// A rated-game list is degenerate when it carries no usable signal: it is
/// empty, or its weighted feature sums cancel to zero (for instance when
/// every rating is zero, or no rated game carries a recognized feature).
pub open spec fn degenerate(vocab: Vocabulary, rated: Seq<RatedGame>) -> bool {
    rated.len() == 0 || total_weight(vocab, rated) == 0
}

/// A user's preference profile over a vocabulary's columns. The entry of
/// column `c` is the exact rational `weights[c] / total`; `total` is the
/// sum of all entries' numerators, so the entries sum to exactly one.
#[derive(Debug, PartialEq)]
pub struct Profile {
    pub weights: Vec<i128>,
    pub total: i128,
}

impl Profile {
    /// The column weights as mathematical integers.
    pub open spec fn weights_int(&self) -> Seq<int> {
        self.weights@.map_values(|w: i128| w as int)
    }

    /// A well-formed profile: bounded column weights whose sum is the
    /// non-zero total.
    pub open spec fn wf(&self) -> bool {
        &&& self.weights@.len() <= MAX_COLS
        &&& forall|c: int|
            0 <= c < self.weights@.len() ==> -WEIGHT_BOUND <= #[trigger] self.weights@[c]
                <= WEIGHT_BOUND
        &&& self.total as int == sum_int(self.weights_int())
        &&& self.total != 0
    }
}

/// Builds the preference profile of a rated-game list: encodes the games,
/// weights each feature column by the sum of the ratings of the games
/// carrying it, and normalizes by the (signed) total. A degenerate input —
/// empty, or with a zero total — yields `UnderdeterminedProfile` instead
/// of an undefined division.
pub fn calc_profile_mat(vocab: &Vocabulary, rated_games: &Vec<RatedGame>) -> (r: Result<
    Profile,
    RecError,
>)
    requires
        vocab.wf(),
        rated_games@.len() <= MAX_RATED,
    ensures
        match r {
            Ok(p) => {
                &&& !degenerate(*vocab, rated_games@)
                &&& p.wf()
                &&& p.weights@.len() == vocab.spec_len()
                &&& forall|c: int|
                    0 <= c < vocab.spec_len() ==> #[trigger] p.weights_int()[c] == profile_weight(
                        *vocab,
                        rated_games@,
                        c,
                    )
                &&& p.total as int == total_weight(*vocab, rated_games@)
            },
            Err(e) => {
                &&& e == RecError::UnderdeterminedProfile
                &&& degenerate(*vocab, rated_games@)
            },
        },
{
    let n = rated_games.len();
    if n == 0 {
        return Err(RecError::UnderdeterminedProfile);
    }
    let cols = vocab.len();
    let mut rows: Vec<Vec<bool>> = Vec::new();
    let mut i: usize = 0;
    while i < n
        invariant
            i <= n,
            n == rated_games@.len(),
            vocab.spec_len() <= usize::MAX,
            rows@.len() == i,
            forall|k: int| 0 <= k < i ==> (#[trigger] rows@[k])@ == row_spec(
                *vocab,
                rated_games@[k].game,
            ),
        decreases n - i,
    {
        rows.push(encode_game_row(vocab, &rated_games[i].game));
        i = i + 1;
    }
    let mut weights: Vec<i128> = Vec::new();
    let mut c: usize = 0;
    while c < cols
        invariant
            c <= cols,
            n == rated_games@.len(),
            n <= MAX_RATED,
            cols == vocab.spec_len(),
            rows@.len() == n,
            forall|k: int| 0 <= k < n ==> (#[trigger] rows@[k])@ == row_spec(
                *vocab,
                rated_games@[k].game,
            ),
            weights@.len() == c,
            forall|k: int| 0 <= k < c ==> #[trigger] weights@[k] as int == profile_weight(
                *vocab,
                rated_games@,
                k,
            ),
            forall|k: int| 0 <= k < c ==> -WEIGHT_BOUND <= #[trigger] weights@[k] <= WEIGHT_BOUND,
        decreases cols - c,
    {
        let mut acc: i128 = 0;
        let mut i: usize = 0;
        while i < n
            invariant
                i <= n,
                n == rated_games@.len(),
                n <= MAX_RATED,
                c < cols,
                cols == vocab.spec_len(),
                rows@.len() == n,
                forall|k: int| 0 <= k < n ==> (#[trigger] rows@[k])@ == row_spec(
                    *vocab,
                    rated_games@[k].game,
                ),
                acc as int == profile_weight(*vocab, rated_games@.take(i as int), c as int),
                -(i as int * 0x8000_0000_0000_0000) <= acc as int <= i as int
                    * 0x8000_0000_0000_0000,
            decreases n - i,
        {
            proof {
                assert(rated_games@.take(i + 1 as int).drop_last() =~= rated_games@.take(i as int));
                assert(rows@[i as int]@[c as int] == vocab.game_hit(rated_games@[i as int].game, c as int));
            }
            if rows[i][c] {
                acc = acc + rated_games[i].rating as i128;
            }
            i = i + 1;
        }
        proof {
            assert(rated_games@.take(n as int) =~= rated_games@);
            assert(n as int * 0x8000_0000_0000_0000 <= MAX_RATED as int * 0x8000_0000_0000_0000);
        }
        weights.push(acc);
        c = c + 1;
    }
    let ghost wsi = weights@.map_values(|w: i128| w as int);
    let mut total: i128 = 0;
    let mut c: usize = 0;
    while c < cols
        invariant
            c <= cols,
            cols == vocab.spec_len(),
            cols <= MAX_COLS,
            weights@.len() == cols,
            wsi == weights@.map_values(|w: i128| w as int),
            forall|k: int| 0 <= k < cols ==> #[trigger] weights@[k] as int == profile_weight(
                *vocab,
                rated_games@,
                k,
            ),
            forall|k: int| 0 <= k < cols ==> -WEIGHT_BOUND <= #[trigger] weights@[k] <= WEIGHT_BOUND,
            total as int == total_weight_upto(*vocab, rated_games@, c as int),
            total as int == sum_int(wsi.take(c as int)),
            -(c as int * WEIGHT_BOUND) <= total as int <= c as int * WEIGHT_BOUND,
        decreases cols - c,
    {
        proof {
            assert(wsi.take(c + 1 as int).drop_last() =~= wsi.take(c as int));
            assert(wsi[c as int] == weights@[c as int] as int);
            assert(c as int + 1 <= MAX_COLS as int);
            assert((c as int + 1) * WEIGHT_BOUND <= MAX_COLS as int * WEIGHT_BOUND);
        }
        total = total + weights[c];
        c = c + 1;
    }
    if total == 0 {
        return Err(RecError::UnderdeterminedProfile);
    }
    proof {
        assert(wsi.take(cols as int) =~= wsi);
    }
    Ok(Profile { weights, total })
}

/// Profile normalization: the entries of a well-formed profile — the
/// rationals `weights[c] / total` — sum to exactly one, because their
/// numerators sum to the (non-zero) shared denominator.
pub proof fn lemma_profile_normalized(p: Profile)
    requires
        p.wf(),
    ensures
        p.total != 0,
        sum_int(p.weights_int()) == p.total as int,
        rat_eq(sum_int(p.weights_int()), p.total as int, 1, 1),
{
}

/// The attribute ids of `game` in family `f`.
pub open spec fn family_of_game(game: Game, f: Family) -> Seq<u64> {
    match f {
        Family::Genre => game.genres@,
        Family::Theme => game.themes@,
        Family::Perspective => game.player_perspectives@,
    }
}

/// The concatenation of the family-`f` id lists of `games`, in input order.
pub open spec fn concat_family(games: Seq<Game>, f: Family) -> Seq<u64>
    decreases games.len(),
{
    if games.len() == 0 {
        Seq::<u64>::empty()
    } else {
        concat_family(games.drop_last(), f) + family_of_game(games.last(), f)
    }
}

/// `s` with every repeated value dropped; the first occurrence wins.
pub open spec fn dedup_u64(s: Seq<u64>) -> Seq<u64>
    decreases s.len(),
{
    if s.len() == 0 {
        Seq::<u64>::empty()
    } else if s.drop_last().contains(s.last()) {
        dedup_u64(s.drop_last())
    } else {
        dedup_u64(s.drop_last()).push(s.last())
    }
}

/// Deduplication keeps exactly the values of the input, each once.
pub proof fn lemma_dedup_u64_props(s: Seq<u64>)
    ensures
        distinct_seq(dedup_u64(s)),
        forall|x: u64| #[trigger] dedup_u64(s).contains(x) <==> s.contains(x),
    decreases s.len(),
{
    broadcast use vstd::seq_lib::group_seq_properties;

    if s.len() > 0 {
        lemma_dedup_u64_props(s.drop_last());
        let pre = s.drop_last();
        let v = s.last();
        assert forall|x: u64| #[trigger] s.contains(x) implies pre.contains(x) || x == v by {
            let i = choose|i: int| 0 <= i < s.len() && s[i] == x;
            if i < s.len() - 1 {
                assert(pre[i] == x);
            }
        }
        assert(s[s.len() - 1] == v);
        assert(s.contains(v));
        if !pre.contains(v) {
            let d = dedup_u64(pre);
            assert forall|x: u64| #[trigger] d.push(v).contains(x) implies d.contains(x) || x == v by {
                let i = choose|i: int| 0 <= i < d.push(v).len() && d.push(v)[i] == x;
                if i < d.len() {
                    assert(d[i] == x);
                }
            }
            assert(d.push(v)[d.len() as int] == v);
            assert forall|i: int, j: int| 0 <= i < j < d.push(v).len() implies d.push(v)[i]
                != d.push(v)[j] by {
                if j < d.len() {
                    assert(d[i] != d[j]);
                } else {
                    assert(d[i] == d.push(v)[i]);
                    assert(d.contains(d[i]));
                }
            }
        }
    }
}

/// The distinct family-`f` ids over `games`, in first-occurrence order.
fn union_ids(games: &Vec<Game>, f: Family) -> (r: Vec<u64>)
    ensures
        r@ == dedup_u64(concat_family(games@, f)),
{
    let mut out: Vec<u64> = Vec::new();
    let mut i: usize = 0;
    while i < games.len()
        invariant
            i <= games@.len(),
            out@ == dedup_u64(concat_family(games@.take(i as int), f)),
        decreases games@.len() - i,
    {
        let ids: &Vec<u64> = match f {
            Family::Genre => &games[i].genres,
            Family::Theme => &games[i].themes,
            Family::Perspective => &games[i].player_perspectives,
        };
        proof {
            assert(ids@ == family_of_game(games@[i as int], f));
        }
        let mut j: usize = 0;
        while j < ids.len()
            invariant
                j <= ids@.len(),
                i < games@.len(),
                ids@ == family_of_game(games@[i as int], f),
                out@ == dedup_u64(concat_family(games@.take(i as int), f) + ids@.take(j as int)),
            decreases ids@.len() - j,
        {
            let x = ids[j];
            let ghost s = concat_family(games@.take(i as int), f) + ids@.take(j as int);
            proof {
                lemma_dedup_u64_props(s);
                assert((concat_family(games@.take(i as int), f) + ids@.take(j + 1 as int)).drop_last()
                    =~= s);
                assert((concat_family(games@.take(i as int), f) + ids@.take(j + 1 as int)).last()
                    == x);
            }
            if !contains_u64(&out, x) {
                out.push(x);
            }
            j = j + 1;
        }
        proof {
            assert(games@.take(i + 1 as int).drop_last() =~= games@.take(i as int));
            assert(concat_family(games@.take(i + 1 as int), f) =~= concat_family(
                games@.take(i as int),
                f,
            ) + ids@.take(ids@.len() as int));
        }
        i = i + 1;
    }
    proof {
        assert(games@.take(games@.len() as int) =~= games@);
    }
    out
}

/// Extracts, per attribute family, the distinct ids over `games`, in
/// first-occurrence order: the pure set union that parameterizes candidate
/// retrieval and exclusion lists.
pub fn create_feature_set(games: &Vec<Game>) -> (r: FeatureSet)
    ensures
        r.genres@ == dedup_u64(concat_family(games@, Family::Genre)),
        r.themes@ == dedup_u64(concat_family(games@, Family::Theme)),
        r.perspectives@ == dedup_u64(concat_family(games@, Family::Perspective)),
        distinct_seq(r.genres@),
        distinct_seq(r.themes@),
        distinct_seq(r.perspectives@),
        forall|x: u64| #[trigger] r.genres@.contains(x) <==> concat_family(
            games@,
            Family::Genre,
        ).contains(x),
        forall|x: u64| #[trigger] r.themes@.contains(x) <==> concat_family(
            games@,
            Family::Theme,
        ).contains(x),
        forall|x: u64| #[trigger] r.perspectives@.contains(x) <==> concat_family(
            games@,
            Family::Perspective,
        ).contains(x),
{
    proof {
        lemma_dedup_u64_props(concat_family(games@, Family::Genre));
        lemma_dedup_u64_props(concat_family(games@, Family::Theme));
        lemma_dedup_u64_props(concat_family(games@, Family::Perspective));
    }
    FeatureSet {
        genres: union_ids(games, Family::Genre),
        themes: union_ids(games, Family::Theme),
        perspectives: union_ids(games, Family::Perspective),
    }
}

} // verus!
