//! The high-score table: at most five runs, best first, and the text file
//! it is kept in.

use vstd::prelude::*;
use vstd::multiset::Multiset;
use vstd::relations::{sorted_by, total_ordering};
use vstd::seq_lib::{lemma_sorted_unique, to_multiset_build, to_multiset_insert};

verus! {

/// The number of runs the table keeps.
pub const TABLE_SIZE: usize = 5;

/// One finished run: its score and the length the snake had.
#[derive(Clone, Copy, Debug, PartialEq, Eq, Structural)]
pub struct HighScoreEntry {
    pub score: u32,
    pub length: usize,
}

/// Whether `a` may stand before `b` in the table: a higher score first,
/// and on equal scores the longer snake first.
pub open spec fn ranks_before(a: HighScoreEntry, b: HighScoreEntry) -> bool {
    a.score > b.score || (a.score == b.score && a.length >= b.length)
}

/// The table order as a relation.
pub open spec fn table_order() -> spec_fn(HighScoreEntry, HighScoreEntry) -> bool {
    |a: HighScoreEntry, b: HighScoreEntry| ranks_before(a, b)
}

/// The table that a pool of runs gives: the runs sorted best first, cut to
/// the first five.
pub open spec fn top_scores(pool: Seq<HighScoreEntry>) -> Seq<HighScoreEntry> {
    let sorted = pool.sort_by(table_order());
    if sorted.len() <= TABLE_SIZE {
        sorted
    } else {
        sorted.take(TABLE_SIZE as int)
    }
}

/// A table as the game keeps it: best first, at most five runs.
pub open spec fn is_valid_table(table: Seq<HighScoreEntry>) -> bool {
    &&& sorted_by(table, table_order())
    &&& table.len() <= TABLE_SIZE
}

/// The table order is a total order.
pub proof fn lemma_table_order_total()
    ensures
        total_ordering(table_order()),
{
}

/// Sorting a pool best first gives the one sequence that is sorted and has
/// the same runs.
proof fn lemma_is_sort(pool: Seq<HighScoreEntry>, s: Seq<HighScoreEntry>)
    requires
        sorted_by(s, table_order()),
        s.to_multiset() == pool.to_multiset(),
    ensures
        pool.sort_by(table_order()) == s,
{
    lemma_table_order_total();
    pool.lemma_sort_by_ensures(table_order());
    lemma_sorted_unique(pool.sort_by(table_order()), s, table_order());
}

/// The top of a pool is a valid table, and its length is that of the pool,
/// up to five.
pub proof fn lemma_top_scores_valid(pool: Seq<HighScoreEntry>)
    ensures
        is_valid_table(top_scores(pool)),
        top_scores(pool).len() == if pool.len() <= TABLE_SIZE { pool.len() } else { TABLE_SIZE as nat },
{
    lemma_table_order_total();
    pool.lemma_sort_by_ensures(table_order());
    vstd::seq_lib::to_multiset_len(pool);
    vstd::seq_lib::to_multiset_len(pool.sort_by(table_order()));
}

/// A valid table is its own top.
pub proof fn lemma_valid_table_is_own_top(table: Seq<HighScoreEntry>)
    requires
        is_valid_table(table),
    ensures
        top_scores(table) == table,
{
    lemma_is_sort(table, table);
}

/// Puts `x` into the sorted `v` after every run that ranks before it.
fn insert_ranked(v: &mut Vec<HighScoreEntry>, x: HighScoreEntry)
    requires
        sorted_by(old(v)@, table_order()),
    ensures
        sorted_by(final(v)@, table_order()),
        final(v)@.to_multiset() == old(v)@.to_multiset().insert(x),
{
    let mut p: usize = 0;
    while p < v.len() && (v[p].score > x.score || (v[p].score == x.score && v[p].length >= x.length))
        invariant
            0 <= p <= v@.len(),
            v@ == old(v)@,
            forall|k: int| 0 <= k < p ==> ranks_before(#[trigger] v@[k], x),
        decreases v@.len() - p,
    {
        p = p + 1;
    }
    let ghost before = v@;
    proof {
        if p < before.len() {
            assert(!ranks_before(before[p as int], x));
            assert forall|k: int| p <= k < before.len() implies ranks_before(x, #[trigger] before[k]) by {
                if k > p {
                    assert(table_order()(before[p as int], before[k]));
                }
            }
        }
        to_multiset_insert(before, p as int, x);
    }
    v.insert(p, x);
    assert forall|i: int, j: int| 0 <= i < j < v@.len() implies #[trigger] table_order()(v@[i], v@[j]) by {
        if i < p && j == p {
        } else if i < p && j > p {
            assert(table_order()(before[i], before[j - 1]));
        } else if i == p {
        } else if i > p {
            assert(table_order()(before[i - 1], before[j - 1]));
        } else {
            assert(table_order()(before[i], before[j]));
        }
    }
}

/// Ranks a pool of runs best first and keeps the first five.
pub fn rank_top_scores(pool: &Vec<HighScoreEntry>) -> (table: Vec<HighScoreEntry>)
    ensures
        table@ == top_scores(pool@),
{
    let mut sorted: Vec<HighScoreEntry> = Vec::new();
    let mut i: usize = 0;
    let n = pool.len();
    proof {
        broadcast use vstd::seq_lib::group_to_multiset_ensures;
        assert(pool@.take(0) =~= Seq::<HighScoreEntry>::empty());
        assert(sorted@ =~= Seq::<HighScoreEntry>::empty());
    }
    while i < n
        invariant
            n == pool@.len(),
            0 <= i <= n,
            sorted_by(sorted@, table_order()),
            sorted@.to_multiset() == pool@.take(i as int).to_multiset(),
        decreases n - i,
    {
        let x = pool[i];
        proof {
            assert(pool@.take(i + 1) =~= pool@.take(i as int).push(x));
            to_multiset_build(pool@.take(i as int), x);
        }
        insert_ranked(&mut sorted, x);
        i = i + 1;
    }
    proof {
        assert(pool@.take(n as int) =~= pool@);
        lemma_is_sort(pool@, sorted@);
    }
    sorted.truncate(TABLE_SIZE);
    proof {
        if pool@.sort_by(table_order()).len() > TABLE_SIZE {
            assert(sorted@ =~= pool@.sort_by(table_order()).take(TABLE_SIZE as int));
        }
    }
    sorted
}

/// Adds a finished run to the table and keeps the five best, best first.
pub fn register_high_score(entries: &mut Vec<HighScoreEntry>, new_entry: HighScoreEntry)
    ensures
        final(entries)@ == top_scores(old(entries)@.push(new_entry)),
{
    entries.push(new_entry);
    let table = rank_top_scores(entries);
    *entries = table;
}

/// After a run is registered the table is valid, and the first entry holds
/// the best score of the old table and the new run.
pub proof fn lemma_register_keeps_table(table: Seq<HighScoreEntry>, run: HighScoreEntry)
    ensures
        is_valid_table(top_scores(table.push(run))),
        top_scores(table.push(run)).len() > 0,
        forall|i: int| 0 <= i < table.len() ==> top_scores(table.push(run))[0].score >= #[trigger] table[i].score,
        top_scores(table.push(run))[0].score >= run.score,
{
    let pool = table.push(run);
    lemma_top_scores_valid(pool);
    lemma_table_order_total();
    pool.lemma_sort_by_ensures(table_order());
    let s = pool.sort_by(table_order());
    vstd::seq_lib::to_multiset_len(pool);
    vstd::seq_lib::to_multiset_len(s);
    assert forall|e: HighScoreEntry| pool.contains(e) implies s[0].score >= e.score by {
        broadcast use vstd::seq_lib::group_to_multiset_ensures;
        assert(pool.to_multiset().count(e) > 0);
        assert(s.to_multiset().count(e) > 0);
        assert(s.contains(e));
        let k = choose|k: int| 0 <= k < s.len() && s[k] == e;
        if k > 0 {
            assert(table_order()(s[0], s[k]));
        }
    }
    assert forall|i: int| 0 <= i < table.len() implies top_scores(pool)[0].score >= #[trigger] table[i].score by {
        assert(pool[i] == table[i]);
        assert(pool.contains(table[i]));
    }
    assert(pool[table.len() as int] == run);
    assert(pool.contains(run));
}

} // verus!
