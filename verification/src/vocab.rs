//! The feature vocabulary: the fixed, ordered enumeration of recognized
//! attribute ids across the three families. The concatenation of the three
//! family lists defines a flat column index space; the column of an id is
//! its family's offset plus its position within the family. Ids outside
//! the vocabulary have no column and are ignored by the encoder.

use vstd::prelude::*;

use crate::enums::{genre_id_seq, genre_ids, perspective_id_seq, perspective_ids, theme_id_seq,
    theme_ids};
use crate::igdb::Game;

verus! {

/// The most feature columns a vocabulary may define; keeps every weighted
/// sum of the engine far inside the range of its integer types.
pub const MAX_COLS: usize = 65536;

/// Whether the values of `s` are pairwise distinct.
pub open spec fn distinct_seq(s: Seq<u64>) -> bool {
    forall|i: int, j: int| 0 <= i < j < s.len() ==> s[i] != s[j]
}

/// The index of the first occurrence of `x` in `s`, or `-1` when absent.
pub open spec fn first_idx(s: Seq<u64>, x: u64) -> int
    decreases s.len(),
{
    if s.len() == 0 {
        -1
    } else if s.first() == x {
        0
    } else if first_idx(s.drop_first(), x) < 0 {
        -1
    } else {
        1 + first_idx(s.drop_first(), x)
    }
}

/// One of the three attribute families.
#[derive(Debug, Clone, Copy, PartialEq, Eq, Structural)]
pub enum Family {
    Genre,
    Theme,
    Perspective,
}

/// An ordered enumeration of attribute ids, one list per family. The
/// engine is parameterized by a vocabulary value; [`Vocabulary::igdb`]
/// builds the process-wide default from the catalog's attribute enums.
#[derive(Debug, PartialEq)]
pub struct Vocabulary {
    pub genres: Vec<u64>,
    pub themes: Vec<u64>,
    pub perspectives: Vec<u64>,
}

impl Vocabulary {
    /// The total number of feature columns.
    pub open spec fn spec_len(&self) -> int {
        self.genres@.len() + self.themes@.len() + self.perspectives@.len() as int
    }

    /// A well-formed vocabulary: ids are distinct within each family, and
    /// the column space is not unreasonably large.
    pub open spec fn wf(&self) -> bool {
        &&& distinct_seq(self.genres@)
        &&& distinct_seq(self.themes@)
        &&& distinct_seq(self.perspectives@)
        &&& self.spec_len() <= MAX_COLS
    }

    /// The id list of the given family.
    pub open spec fn family_ids(&self, f: Family) -> Seq<u64> {
        match f {
            Family::Genre => self.genres@,
            Family::Theme => self.themes@,
            Family::Perspective => self.perspectives@,
        }
    }

    /// The column offset of the given family.
    pub open spec fn family_offset(&self, f: Family) -> int {
        match f {
            Family::Genre => 0,
            Family::Theme => self.genres@.len() as int,
            Family::Perspective => self.genres@.len() + self.themes@.len() as int,
        }
    }

    /// The attribute id of column `j`.
    pub open spec fn col_id(&self, j: int) -> u64 {
        if j < self.genres@.len() {
            self.genres@[j]
        } else if j < self.genres@.len() + self.themes@.len() {
            self.themes@[j - self.genres@.len()]
        } else {
            self.perspectives@[j - self.genres@.len() - self.themes@.len()]
        }
    }

    /// Whether `game` carries the attribute of column `j`: the id of that
    /// column is listed in the game's set of the column's family.
    pub open spec fn game_hit(&self, game: Game, j: int) -> bool {
        if j < self.genres@.len() {
            game.genres@.contains(self.genres@[j])
        } else if j < self.genres@.len() + self.themes@.len() {
            game.themes@.contains(self.themes@[j - self.genres@.len()])
        } else {
            game.player_perspectives@.contains(
                self.perspectives@[j - self.genres@.len() - self.themes@.len()],
            )
        }
    }

    /// The column of `id` within family `f`, or `None` when the family
    /// does not recognize the id.
    pub open spec fn spec_column_of(&self, f: Family, id: u64) -> Option<int> {
        if first_idx(self.family_ids(f), id) < 0 {
            None
        } else {
            Some(self.family_offset(f) + first_idx(self.family_ids(f), id))
        }
    }

    /// The total number of feature columns.
    pub fn len(&self) -> (r: usize)
        requires
            self.spec_len() <= usize::MAX,
        ensures
            r == self.spec_len(),
    {
        self.genres.len() + self.themes.len() + self.perspectives.len()
    }

    /// The stable column index of attribute `id` of family `f`:
    /// the family's offset plus the id's position within the family, or
    /// `None` when the id is not in the vocabulary.
    pub fn column_of(&self, f: Family, id: u64) -> (r: Option<usize>)
        requires
            self.spec_len() <= usize::MAX,
        ensures
            match r {
                Some(k) => self.spec_column_of(f, id) == Some(k as int),
                None => self.spec_column_of(f, id) is None,
            },
    {
        let ids: &Vec<u64> = match f {
            Family::Genre => &self.genres,
            Family::Theme => &self.themes,
            Family::Perspective => &self.perspectives,
        };
        let offset: usize = match f {
            Family::Genre => 0,
            Family::Theme => self.genres.len(),
            Family::Perspective => self.genres.len() + self.themes.len(),
        };
        let mut i: usize = 0;
        while i < ids.len()
            invariant
                i <= ids@.len(),
                ids@ == self.family_ids(f),
                offset == self.family_offset(f),
                offset + ids@.len() <= usize::MAX,
                forall|k: int| 0 <= k < i ==> ids@[k] != id,
            decreases ids@.len() - i,
        {
            if ids[i] == id {
                proof {
                    lemma_first_idx_hit(ids@, id, i as int);
                }
                return Some(offset + i);
            }
            i = i + 1;
        }
        proof {
            assert(!ids@.contains(id));
            lemma_first_idx_miss(ids@, id);
        }
        None
    }

    /// The default vocabulary: all genres, themes and player perspectives
    /// of the catalog, in declaration order.
    pub fn igdb() -> (r: Vocabulary)
        ensures
            r.genres@ == genre_id_seq(),
            r.themes@ == theme_id_seq(),
            r.perspectives@ == perspective_id_seq(),
            r.wf(),
            r.spec_len() == 52,
    {
        let r = Vocabulary { genres: genre_ids(), themes: theme_ids(), perspectives: perspective_ids() };
        proof {
            lemma_increasing_distinct(r.genres@);
            lemma_increasing_distinct(r.themes@);
            lemma_increasing_distinct(r.perspectives@);
        }
        r
    }
}

/// A strictly increasing id list has pairwise distinct values.
proof fn lemma_increasing_distinct(s: Seq<u64>)
    requires
        forall|k: int| 0 <= k < s.len() - 1 ==> #[trigger] s[k] < s[k + 1],
    ensures
        distinct_seq(s),
{
    assert forall|i: int, j: int| 0 <= i < j < s.len() implies s[i] != s[j] by {
        lemma_increasing_pair(s, i, j);
    }
}

proof fn lemma_increasing_pair(s: Seq<u64>, i: int, j: int)
    requires
        forall|k: int| 0 <= k < s.len() - 1 ==> #[trigger] s[k] < s[k + 1],
        0 <= i < j < s.len(),
    ensures
        s[i] < s[j],
    decreases j - i,
{
    if i + 1 < j {
        lemma_increasing_pair(s, i, j - 1);
    }
}

/// If `x` first appears at position `i` of `s`, `first_idx` finds it there.
proof fn lemma_first_idx_hit(s: Seq<u64>, x: u64, i: int)
    requires
        0 <= i < s.len(),
        s[i] == x,
        forall|k: int| 0 <= k < i ==> s[k] != x,
    ensures
        first_idx(s, x) == i,
    decreases i,
{
    if i > 0 {
        lemma_first_idx_hit(s.drop_first(), x, i - 1);
    }
}

/// If `s` does not contain `x`, `first_idx` reports it absent.
proof fn lemma_first_idx_miss(s: Seq<u64>, x: u64)
    requires
        !s.contains(x),
    ensures
        first_idx(s, x) == -1,
    decreases s.len(),
{
    if s.len() > 0 {
        assert(s.drop_first() =~= s.subrange(1, s.len() as int));
        assert(forall|k: int| 0 <= k < s.drop_first().len() ==> s.drop_first()[k] == s[k + 1]);
        assert(!s.drop_first().contains(x));
        lemma_first_idx_miss(s.drop_first(), x);
    }
}

} // verus!
