use vstd::prelude::*;
use vstd::relations::sorted_by;
use vstd::relations::total_ordering;

use crate::catalog::Character;
use crate::catalog::ROSTER_SIZE;
use crate::identity::Id;
use crate::identity::identity_matches;
use crate::identity::spec_identity_matches;
use crate::replay::Match;
use crate::replay::get_winner;
use crate::replay::spec_winner;
use crate::text::append_dec;
use crate::text::dec_digits;
use crate::text::lemma_lex_lt_asymmetric;
use crate::text::lemma_lex_lt_connected;
use crate::text::lemma_lex_lt_transitive;
use crate::text::lex_lt;
use crate::text::lex_lt_str;

verus! {

broadcast use {vstd::seq_lib::group_to_multiset_ensures, vstd::seq_lib::to_multiset_insert};

/// Requested ordering of a per-character win report.
#[derive(Clone, Copy, PartialEq, Eq, Structural)]
pub enum Sort {
    AlphabeticalAsc,
    AlphabeticalDesc,
    CountAsc,
    CountDesc,
}

/// Whether the match has a recorded winner whose identity matches the query.
pub open spec fn spec_win_for(m: Match, q: Id) -> bool {
    match spec_winner(m) {
        None => false,
        Some(p) => spec_identity_matches(p, q),
    }
}

/// Character the winner of the match played; meaningful only when the match
/// has a winner.
pub open spec fn spec_win_char(m: Match) -> Character {
    match spec_winner(m) {
        Some(p) => Character::spec_from_id(p.character),
        None => Character::Unknown,
    }
}

/// Sum of a per-element weight over a sequence.
pub open spec fn seq_weight<T>(s: Seq<T>, w: spec_fn(T) -> nat) -> nat
    decreases s.len(),
{
    if s.len() == 0 {
        0
    } else {
        seq_weight(s.drop_last(), w) + w(s.last())
    }
}

pub proof fn lemma_seq_weight_le_len<T>(s: Seq<T>, w: spec_fn(T) -> nat)
    requires
        forall|x: T| #[trigger] w(x) <= 1,
    ensures
        seq_weight(s, w) <= s.len(),
    decreases s.len(),
{
    if s.len() > 0 {
        lemma_seq_weight_le_len(s.drop_last(), w);
    }
}

pub proof fn lemma_seq_weight_concat<T>(a: Seq<T>, b: Seq<T>, w: spec_fn(T) -> nat)
    ensures
        seq_weight(a + b, w) == seq_weight(a, w) + seq_weight(b, w),
    decreases b.len(),
{
    if b.len() == 0 {
        assert(a + b =~= a);
    } else {
        assert((a + b).drop_last() =~= a + b.drop_last());
        assert((a + b).last() == b.last());
        lemma_seq_weight_concat(a, b.drop_last(), w);
    }
}

pub proof fn lemma_seq_weight_remove<T>(s: Seq<T>, w: spec_fn(T) -> nat, i: int)
    requires
        0 <= i < s.len(),
    ensures
        seq_weight(s, w) == seq_weight(s.remove(i), w) + w(s[i]),
    decreases s.len(),
{
    if i == s.len() - 1 {
        assert(s.remove(i) =~= s.drop_last());
    } else {
        assert(s.remove(i).drop_last() =~= s.drop_last().remove(i));
        assert(s.remove(i).last() == s.last());
        lemma_seq_weight_remove(s.drop_last(), w, i);
        assert(s.drop_last()[i] == s[i]);
    }
}

/// A weighted sum is insensitive to processing order: two sequences holding
/// the same elements, however arranged, have the same total weight.
pub proof fn lemma_seq_weight_permutation<T>(s1: Seq<T>, s2: Seq<T>, w: spec_fn(T) -> nat)
    requires
        s1.to_multiset() == s2.to_multiset(),
    ensures
        seq_weight(s1, w) == seq_weight(s2, w),
    decreases s1.len(),
{

    s1.to_multiset_ensures();
    s2.to_multiset_ensures();
    if s1.len() == 0 {
        assert(s2.len() == 0);
    } else {
        let x = s1.last();
        assert(s1.contains(x));
        assert(s2.to_multiset().count(x) > 0);
        assert(s2.contains(x));
        let i = choose|i: int| 0 <= i < s2.len() && s2[i] == x;
        lemma_seq_weight_remove(s2, w, i);
        assert(s1.drop_last() =~= s1.remove(s1.len() - 1));
        assert(s1.remove(s1.len() - 1).to_multiset() =~= s1.to_multiset().remove(x));
        assert(s2.remove(i).to_multiset() =~= s2.to_multiset().remove(x));
        lemma_seq_weight_permutation(s1.drop_last(), s2.remove(i), w);
    }
}

/// Weight of one match for the query: 1 if its recorded winner matches,
/// else 0.
pub open spec fn win_weight(q: Id) -> spec_fn(Match) -> nat {
    |m: Match| if spec_win_for(m, q) { 1nat } else { 0nat }
}

/// Number of matches in the corpus whose winner matches the query; matches
/// with no winner contribute nothing.
pub open spec fn spec_total_wins(s: Seq<Match>, q: Id) -> nat {
    seq_weight(s, win_weight(q))
}

/// The total is insensitive to the order in which matches are processed:
/// two corpora holding the same matches agree on every query.
pub proof fn lemma_total_wins_order_independent(s1: Seq<Match>, s2: Seq<Match>, q: Id)
    requires
        s1.to_multiset() == s2.to_multiset(),
    ensures
        spec_total_wins(s1, q) == spec_total_wins(s2, q),
{
    lemma_seq_weight_permutation(s1, s2, win_weight(q));
}

/// Partial counts from any split of the corpus combine by addition, so
/// partial sums may be merged in any grouping.
pub proof fn lemma_total_wins_concat(a: Seq<Match>, b: Seq<Match>, q: Id)
    ensures
        spec_total_wins(a + b, q) == spec_total_wins(a, q) + spec_total_wins(b, q),
{
    lemma_seq_weight_concat(a, b, win_weight(q));
}

pub proof fn lemma_total_wins_le_len(s: Seq<Match>, q: Id)
    ensures
        spec_total_wins(s, q) <= s.len(),
{
    lemma_seq_weight_le_len(s, win_weight(q));
}

/// Counts the matches in the corpus won by the queried identity.
#[verifier::loop_isolation(false)]
pub fn get_total_wins(games: &Vec<Match>, id: &Id) -> (n: usize)
    ensures
        n == spec_total_wins(games@, *id),
{
    let mut n: usize = 0;
    let mut i: usize = 0;
    proof {
        assert(games@.take(0) =~= Seq::<Match>::empty());
    }
    while i < games.len()
        invariant
            i <= games@.len(),
            n == spec_total_wins(games@.take(i as int), *id),
        decreases games@.len() - i,
    {
        let won = match get_winner(&games[i]) {
            Some(p) => identity_matches(&p, id),
            None => false,
        };
        proof {
            lemma_total_wins_le_len(games@.take(i as int), *id);
            assert(games@.take(i + 1).drop_last() =~= games@.take(i as int));
            assert(games@.take(i + 1).last() == games@[i as int]);
        }
        if won {
            n = n + 1;
        }
        i += 1;
    }
    proof {
        assert(games@.take(games@.len() as int) =~= games@);
    }
    n
}

/// Weight of one match toward the bucket at roster position `k`: 1 when the
/// match is a win for the query with the character standing there.
pub open spec fn bucket_weight(q: Id, k: int) -> spec_fn(Match) -> nat {
    |m: Match|
        if spec_win_for(m, q) && spec_win_char(m).spec_roster_index() == k {
            1nat
        } else {
            0nat
        }
}

/// Per-character win counts for the query: position `k` counts the matches
/// won by the queried identity with the character at roster position `k`.
pub open spec fn spec_hist(s: Seq<Match>, q: Id) -> Seq<nat> {
    Seq::new(ROSTER_SIZE as nat, |k: int| seq_weight(s, bucket_weight(q, k)))
}

pub open spec fn nat_weight() -> spec_fn(nat) -> nat {
    |x: nat| x
}

/// Plain sum of a sequence of counts.
pub open spec fn seq_sum(h: Seq<nat>) -> nat {
    seq_weight(h, nat_weight())
}

pub proof fn lemma_seq_sum_all_zero(h: Seq<nat>)
    requires
        forall|k: int| 0 <= k < h.len() ==> h[k] == 0,
    ensures
        seq_sum(h) == 0,
    decreases h.len(),
{
    if h.len() > 0 {
        lemma_seq_sum_all_zero(h.drop_last());
    }
}

pub proof fn lemma_seq_sum_update_add(h: Seq<nat>, k: int, d: nat)
    requires
        0 <= k < h.len(),
    ensures
        seq_sum(h.update(k, (h[k] + d) as nat)) == seq_sum(h) + d,
    decreases h.len(),
{
    let h2 = h.update(k, (h[k] + d) as nat);
    if k == h.len() - 1 {
        assert(h2.drop_last() =~= h.drop_last());
        assert(h2.last() == h[k] + d);
    } else {
        assert(h2.drop_last() =~= h.drop_last().update(k, (h[k] + d) as nat));
        assert(h2.last() == h.last());
        assert(h.drop_last()[k] == h[k]);
        lemma_seq_sum_update_add(h.drop_last(), k, d);
    }
}

/// The histogram, and with it the ranked report, is insensitive to the
/// order in which matches are processed: two corpora holding the same
/// matches agree bucket for bucket.
pub proof fn lemma_hist_order_independent(s1: Seq<Match>, s2: Seq<Match>, q: Id)
    requires
        s1.to_multiset() == s2.to_multiset(),
    ensures
        spec_hist(s1, q) == spec_hist(s2, q),
{
    assert forall|k: int| 0 <= k < ROSTER_SIZE implies #[trigger] spec_hist(s1, q)[k]
        == spec_hist(s2, q)[k] by {
        lemma_seq_weight_permutation(s1, s2, bucket_weight(q, k));
    }
    assert(spec_hist(s1, q) =~= spec_hist(s2, q));
}

/// Every win lands in exactly one character bucket: for any corpus and
/// query, the histogram's counts add up to the total wins.
pub proof fn lemma_hist_sum_eq_total_wins(s: Seq<Match>, q: Id)
    ensures
        seq_sum(spec_hist(s, q)) == spec_total_wins(s, q),
    decreases s.len(),
{
    if s.len() == 0 {
        lemma_seq_sum_all_zero(spec_hist(s, q));
    } else {
        let s0 = s.drop_last();
        let m = s.last();
        lemma_hist_sum_eq_total_wins(s0, q);
        let h0 = spec_hist(s0, q);
        let h1 = spec_hist(s, q);
        assert forall|k: int| 0 <= k < ROSTER_SIZE implies h1[k] == h0[k] + bucket_weight(q, k)(
            m,
        ) by {
            assert(seq_weight(s, bucket_weight(q, k)) == seq_weight(s0, bucket_weight(q, k))
                + bucket_weight(q, k)(m));
        }
        if spec_win_for(m, q) {
            let kw = spec_win_char(m).spec_roster_index();
            Character::lemma_roster_index_bijective();
            assert(h1 =~= h0.update(kw, (h0[kw] + 1) as nat));
            lemma_seq_sum_update_add(h0, kw, 1);
        } else {
            assert(h1 =~= h0);
        }
    }
}

/// One line of a win report: a character and how many of the queried
/// identity's wins it accounts for.
#[derive(Clone, Copy, PartialEq, Eq, Structural)]
pub struct Entry {
    pub character: Character,
    pub count: usize,
}

pub open spec fn count_weight() -> spec_fn(Entry) -> nat {
    |e: Entry| e.count as nat
}

/// Sum of the counts carried by a report.
pub open spec fn sum_counts(es: Seq<Entry>) -> nat {
    seq_weight(es, count_weight())
}

/// Report entries drawn from the first `n` buckets of a histogram:
/// characters in roster order, zero counts omitted, counts as recorded.
pub open spec fn spec_entries_upto(h: Seq<nat>, n: int) -> Seq<Entry>
    decreases n,
{
    if n <= 0 {
        Seq::empty()
    } else {
        spec_entries_upto(h, n - 1) + if h[n - 1] > 0 {
            seq![
                Entry {
                    character: Character::spec_from_roster_index(n - 1),
                    count: h[n - 1] as usize,
                },
            ]
        } else {
            Seq::empty()
        }
    }
}

pub open spec fn spec_entries(h: Seq<nat>) -> Seq<Entry> {
    spec_entries_upto(h, h.len() as int)
}

/// Dropping the zero buckets loses nothing: the report's counts add up to
/// the histogram's sum.
pub proof fn lemma_entries_sum(h: Seq<nat>, n: int)
    requires
        0 <= n <= h.len(),
        forall|k: int| 0 <= k < h.len() ==> #[trigger] h[k] <= usize::MAX,
    ensures
        sum_counts(spec_entries_upto(h, n)) == seq_sum(h.take(n)),
    decreases n,
{
    if n == 0 {
        assert(h.take(0) =~= Seq::<nat>::empty());
    } else {
        lemma_entries_sum(h, n - 1);
        assert(h.take(n).drop_last() =~= h.take(n - 1));
        assert(h.take(n).last() == h[n - 1]);
        let head = spec_entries_upto(h, n - 1);
        if h[n - 1] > 0 {
            let e = Entry {
                character: Character::spec_from_roster_index(n - 1),
                count: h[n - 1] as usize,
            };
            lemma_seq_weight_concat(head, seq![e], count_weight());
            assert(seq![e].drop_last() =~= Seq::<Entry>::empty());
            assert(seq_weight(Seq::<Entry>::empty(), count_weight()) == 0);
            assert(seq_weight(seq![e], count_weight()) == count_weight()(e));
        } else {
            lemma_seq_weight_concat(head, Seq::<Entry>::empty(), count_weight());
            assert(head + Seq::<Entry>::empty() =~= head);
        }
    }
}

/// Alphabetical order on report entries: by display name, then by roster
/// position, then by count; the later keys only break ties and make the
/// order total and antisymmetric.
pub open spec fn alpha_le(a: Entry, b: Entry) -> bool {
    let an = a.character.spec_name();
    let bn = b.character.spec_name();
    if an != bn {
        lex_lt(an, bn)
    } else if a.character != b.character {
        a.character.spec_roster_index() <= b.character.spec_roster_index()
    } else {
        a.count <= b.count
    }
}

/// The requested ordering on report entries. Counts order the count-based
/// variants; every tie falls back to the alphabetical order.
pub open spec fn spec_entry_le(sort: Sort, a: Entry, b: Entry) -> bool {
    match sort {
        Sort::AlphabeticalAsc => alpha_le(a, b),
        Sort::AlphabeticalDesc => alpha_le(b, a),
        Sort::CountAsc => if a.count != b.count {
            a.count < b.count
        } else {
            alpha_le(a, b)
        },
        Sort::CountDesc => if a.count != b.count {
            b.count < a.count
        } else {
            alpha_le(a, b)
        },
    }
}

pub open spec fn spec_entry_le_fn(sort: Sort) -> spec_fn(Entry, Entry) -> bool {
    |a: Entry, b: Entry| spec_entry_le(sort, a, b)
}

proof fn lemma_alpha_le_connected(a: Entry, b: Entry)
    ensures
        alpha_le(a, b) || alpha_le(b, a),
{
    lemma_lex_lt_connected(a.character.spec_name(), b.character.spec_name());
}

proof fn lemma_alpha_le_antisymmetric(a: Entry, b: Entry)
    ensures
        alpha_le(a, b) && alpha_le(b, a) ==> a == b,
{
    lemma_lex_lt_asymmetric(a.character.spec_name(), b.character.spec_name());
    Character::lemma_roster_index_bijective();
}

proof fn lemma_alpha_le_transitive(a: Entry, b: Entry, c: Entry)
    ensures
        alpha_le(a, b) && alpha_le(b, c) ==> alpha_le(a, c),
{
    let an = a.character.spec_name();
    let bn = b.character.spec_name();
    let cn = c.character.spec_name();
    lemma_lex_lt_transitive(an, bn, cn);
    lemma_lex_lt_asymmetric(an, bn);
    lemma_lex_lt_asymmetric(bn, cn);
    lemma_lex_lt_asymmetric(an, cn);
    lemma_lex_lt_connected(an, cn);
    Character::lemma_roster_index_bijective();
}

/// Each requested ordering is a total ordering on entries, so a report
/// ranked by it is fully determined.
pub proof fn lemma_entry_le_total_ordering(sort: Sort)
    ensures
        total_ordering(spec_entry_le_fn(sort)),
{
    let leq = spec_entry_le_fn(sort);
    assert forall|a: Entry| #[trigger] leq(a, a) by {
        lemma_alpha_le_connected(a, a);
    }
    assert forall|a: Entry, b: Entry| #[trigger] leq(a, b) && #[trigger] leq(b, a) implies a
        == b by {
        lemma_alpha_le_antisymmetric(a, b);
    }
    assert forall|a: Entry, b: Entry, c: Entry|
        #[trigger] leq(a, b) && #[trigger] leq(b, c) implies leq(a, c) by {
        lemma_alpha_le_transitive(a, b, c);
        lemma_alpha_le_transitive(c, b, a);
        lemma_alpha_le_antisymmetric(a, b);
        lemma_alpha_le_antisymmetric(b, c);
        lemma_alpha_le_connected(a, c);
    }
    assert forall|a: Entry, b: Entry| #[trigger] leq(a, b) || #[trigger] leq(b, a) by {
        lemma_alpha_le_connected(a, b);
    }
}

fn alpha_le_exec(a: &Entry, b: &Entry) -> (r: bool)
    ensures
        r == alpha_le(*a, *b),
{
    let an = a.character.name();
    let bn = b.character.name();
    if an == bn {
        if a.character == b.character {
            a.count <= b.count
        } else {
            a.character.roster_index() <= b.character.roster_index()
        }
    } else {
        lex_lt_str(an.as_str(), bn.as_str())
    }
}

fn entry_le_exec(sort: &Sort, a: &Entry, b: &Entry) -> (r: bool)
    ensures
        r == spec_entry_le_fn(*sort)(*a, *b),
{
    match sort {
        Sort::AlphabeticalAsc => alpha_le_exec(a, b),
        Sort::AlphabeticalDesc => alpha_le_exec(b, a),
        Sort::CountAsc => if a.count != b.count {
            a.count < b.count
        } else {
            alpha_le_exec(a, b)
        },
        Sort::CountDesc => if a.count != b.count {
            b.count < a.count
        } else {
            alpha_le_exec(a, b)
        },
    }
}

/// First position of `out` whose entry does not come strictly before `x`.
#[verifier::loop_isolation(false)]
fn insert_pos(out: &Vec<Entry>, x: &Entry, sort: &Sort) -> (pos: usize)
    ensures
        pos <= out@.len(),
        forall|j: int| 0 <= j < pos ==> !spec_entry_le_fn(*sort)(*x, #[trigger] out@[j]),
        pos < out@.len() ==> spec_entry_le_fn(*sort)(*x, out@[pos as int]),
{
    let mut pos: usize = 0;
    while pos < out.len()
        invariant
            pos <= out@.len(),
            forall|j: int| 0 <= j < pos ==> !spec_entry_le_fn(*sort)(*x, #[trigger] out@[j]),
        decreases out@.len() - pos,
    {
        if entry_le_exec(sort, x, &out[pos]) {
            return pos;
        }
        pos += 1;
    }
    pos
}

/// Sorts report entries by the requested ordering.
#[verifier::loop_isolation(false)]
fn sort_entries(v: &mut Vec<Entry>, sort: &Sort)
    ensures
        final(v)@.to_multiset() == old(v)@.to_multiset(),
        sorted_by(final(v)@, spec_entry_le_fn(*sort)),
{
    proof {
        lemma_entry_le_total_ordering(*sort);
    }
    let ghost leq = spec_entry_le_fn(*sort);
    let mut out: Vec<Entry> = Vec::new();
    let mut i: usize = 0;
    proof {
        assert(v@.take(0) =~= Seq::<Entry>::empty());
        assert(out@.to_multiset() =~= v@.take(0).to_multiset());
    }
    while i < v.len()
        invariant
            i <= v@.len(),
            out@.to_multiset() == v@.take(i as int).to_multiset(),
            sorted_by(out@, leq),
        decreases v@.len() - i,
    {
        let x = v[i];
        let pos = insert_pos(&out, &x, sort);
        let ghost pre = out@;
        out.insert(pos, x);
        proof {
            assert(v@.take(i + 1) =~= v@.take(i as int).push(x));
            assert(out@ =~= pre.insert(pos as int, x));
            assert forall|j: int| 0 <= j < pos implies leq(#[trigger] pre[j], x) by {
                assert(!leq(x, pre[j]));
            }
            assert forall|j: int| pos <= j < pre.len() implies leq(x, #[trigger] pre[j]) by {
                assert(leq(x, pre[pos as int]));
                if j > pos {
                    assert(leq(pre[pos as int], pre[j]));
                }
            }
            assert forall|a: int, b: int| 0 <= a < b < out@.len() implies leq(
                out@[a],
                out@[b],
            ) by {
                assert(forall|j: int| 0 <= j < pos ==> #[trigger] out@[j] == pre[j]);
                assert(out@[pos as int] == x);
                assert(forall|j: int| pos < j < out@.len() ==> #[trigger] out@[j] == pre[j - 1]);
            }
        }
        i += 1;
    }
    proof {
        assert(v@.take(v@.len() as int) =~= v@);
    }
    *v = out;
}

/// Two sequences sorted by one total ordering and holding the same
/// elements are equal: a ranking is fully determined by its ordering.
pub proof fn lemma_sorted_unique<T>(s1: Seq<T>, s2: Seq<T>, leq: spec_fn(T, T) -> bool)
    requires
        total_ordering(leq),
        sorted_by(s1, leq),
        sorted_by(s2, leq),
        s1.to_multiset() == s2.to_multiset(),
    ensures
        s1 == s2,
    decreases s1.len(),
{
    s1.to_multiset_ensures();
    s2.to_multiset_ensures();
    if s1.len() == 0 {
        assert(s2.len() == 0);
        assert(s1 =~= s2);
    } else {
        assert(s2.len() == s1.len());
        let x = s1[0];
        let y = s2[0];
        assert(s1.contains(x));
        assert(s2.to_multiset().count(x) > 0);
        assert(s2.contains(x));
        assert(s1.to_multiset().count(y) > 0);
        assert(s1.contains(y));
        let i = choose|i: int| 0 <= i < s2.len() && s2[i] == x;
        let j = choose|j: int| 0 <= j < s1.len() && s1[j] == y;
        assert(leq(y, x));
        assert(leq(x, y));
        assert(x == y);
        assert(s1.drop_first() =~= s1.remove(0));
        assert(s2.drop_first() =~= s2.remove(0));
        assert(s1.remove(0).to_multiset() =~= s1.to_multiset().remove(x));
        assert(s2.remove(0).to_multiset() =~= s2.to_multiset().remove(x));
        assert(sorted_by(s1.drop_first(), leq)) by {
            assert(forall|a: int, b: int|
                0 <= a < b < s1.drop_first().len() ==> #[trigger] leq(
                    s1.drop_first()[a],
                    s1.drop_first()[b],
                ));
        }
        assert(sorted_by(s2.drop_first(), leq)) by {
            assert(forall|a: int, b: int|
                0 <= a < b < s2.drop_first().len() ==> #[trigger] leq(
                    s2.drop_first()[a],
                    s2.drop_first()[b],
                ));
        }
        lemma_sorted_unique(s1.drop_first(), s2.drop_first(), leq);
        assert forall|k: int| 0 <= k < s1.len() implies s1[k] == s2[k] by {
            if k > 0 {
                assert(s1.drop_first()[k - 1] == s2.drop_first()[k - 1]);
            }
        }
        assert(s1 =~= s2);
    }
}

/// Computes the ranked per-character win list for the query: one entry per
/// character the queried identity won with at least once, carrying that
/// character's win count, arranged by the requested ordering.
#[verifier::loop_isolation(false)]
pub fn wins_by_character(games: &Vec<Match>, id: &Id, sort: &Sort) -> (v: Vec<Entry>)
    ensures
        v@ == spec_ranked(games@, *id, *sort),
        v@.to_multiset() == spec_entries(spec_hist(games@, *id)).to_multiset(),
        sorted_by(v@, spec_entry_le_fn(*sort)),
        sum_counts(v@) == spec_total_wins(games@, *id),
{
    let mut hist: Vec<usize> = Vec::new();
    let mut k: usize = 0;
    while k < ROSTER_SIZE
        invariant
            hist@.len() == k,
            k <= ROSTER_SIZE,
            forall|j: int| 0 <= j < k ==> #[trigger] hist@[j] == 0,
        decreases ROSTER_SIZE - k,
    {
        hist.push(0);
        k += 1;
    }
    proof {
        assert(games@.take(0) =~= Seq::<Match>::empty());
    }
    let mut i: usize = 0;
    while i < games.len()
        invariant
            i <= games@.len(),
            hist@.len() == ROSTER_SIZE,
            forall|kk: int|
                0 <= kk < ROSTER_SIZE ==> #[trigger] hist@[kk] == seq_weight(
                    games@.take(i as int),
                    bucket_weight(*id, kk),
                ),
        decreases games@.len() - i,
    {
        let ghost m = games@[i as int];
        let won: Option<u8> = match get_winner(&games[i]) {
            Some(p) => if identity_matches(&p, id) {
                Some(p.character)
            } else {
                None
            },
            None => None,
        };
        proof {
            assert(games@.take(i + 1).drop_last() =~= games@.take(i as int));
            assert(games@.take(i + 1).last() == m);
        }
        match won {
            Some(cid) => {
                let c = Character::from_id(cid);
                let kw = c.roster_index();
                proof {
                    Character::lemma_roster_index_bijective();
                    assert(spec_win_for(m, *id));
                    assert(spec_win_char(m) == c);
                    assert forall|x: Match| #[trigger] bucket_weight(*id, kw as int)(x) <= 1 by {}
                    lemma_seq_weight_le_len(games@.take(i as int), bucket_weight(*id, kw as int));
                }
                let cur = hist[kw];
                let slot = vstd::std_specs::vec::vec_index_mut(&mut hist, kw);
                *slot = cur + 1;
                proof {
                    assert forall|kk: int| 0 <= kk < ROSTER_SIZE implies hist@[kk] == seq_weight(
                        games@.take(i + 1),
                        bucket_weight(*id, kk),
                    ) by {
                        assert(seq_weight(games@.take(i + 1), bucket_weight(*id, kk))
                            == seq_weight(games@.take(i as int), bucket_weight(*id, kk))
                            + bucket_weight(*id, kk)(m));
                        if kk == kw {
                            assert(bucket_weight(*id, kk)(m) == 1);
                        } else {
                            assert(bucket_weight(*id, kk)(m) == 0);
                        }
                    }
                }
            },
            None => {
                proof {
                    assert forall|kk: int| 0 <= kk < ROSTER_SIZE implies hist@[kk] == seq_weight(
                        games@.take(i + 1),
                        bucket_weight(*id, kk),
                    ) by {
                        assert(seq_weight(games@.take(i + 1), bucket_weight(*id, kk))
                            == seq_weight(games@.take(i as int), bucket_weight(*id, kk))
                            + bucket_weight(*id, kk)(m));
                        assert(bucket_weight(*id, kk)(m) == 0);
                    }
                }
            },
        }
        i += 1;
    }
    let ghost h = spec_hist(games@, *id);
    proof {
        assert(games@.take(games@.len() as int) =~= games@);
        assert(forall|kk: int| 0 <= kk < ROSTER_SIZE ==> #[trigger] hist@[kk] == h[kk]);
    }
    let mut entries: Vec<Entry> = Vec::new();
    let mut k2: usize = 0;
    while k2 < ROSTER_SIZE
        invariant
            k2 <= ROSTER_SIZE,
            hist@.len() == ROSTER_SIZE,
            h.len() == ROSTER_SIZE,
            forall|kk: int| 0 <= kk < ROSTER_SIZE ==> #[trigger] hist@[kk] == h[kk],
            entries@ == spec_entries_upto(h, k2 as int),
        decreases ROSTER_SIZE - k2,
    {
        let cnt = hist[k2];
        if cnt > 0 {
            let e = Entry { character: Character::from_roster_index(k2), count: cnt };
            entries.push(e);
            proof {
                assert(entries@ =~= spec_entries_upto(h, k2 as int) + seq![e]);
                assert(entries@ =~= spec_entries_upto(h, k2 as int + 1));
            }
        } else {
            proof {
                assert(spec_entries_upto(h, k2 as int + 1) =~= spec_entries_upto(h, k2 as int)
                    + Seq::<Entry>::empty());
                assert(entries@ =~= spec_entries_upto(h, k2 as int + 1));
            }
        }
        k2 += 1;
    }
    proof {
        assert(entries@ == spec_entries(h));
        assert forall|kk: int| 0 <= kk < h.len() implies #[trigger] h[kk] <= usize::MAX by {
            assert(hist@[kk] == h[kk]);
        }
        lemma_entries_sum(h, ROSTER_SIZE as int);
        assert(h.take(ROSTER_SIZE as int) =~= h);
        lemma_hist_sum_eq_total_wins(games@, *id);
    }
    let ghost pre_sort = entries@;
    sort_entries(&mut entries, sort);
    proof {
        lemma_seq_weight_permutation(entries@, pre_sort, count_weight());
        lemma_entry_le_total_ordering(*sort);
        spec_entries(spec_hist(games@, *id)).lemma_sort_by_ensures(spec_entry_le_fn(*sort));
        lemma_sorted_unique(entries@, spec_ranked(games@, *id, *sort), spec_entry_le_fn(*sort));
    }
    entries
}

/// One rendered line of the report: display name, ": ", decimal count.
pub open spec fn spec_line(e: Entry) -> Seq<char> {
    e.character.spec_name() + ": "@ + dec_digits(e.count as nat)
}

/// The rendered report: one line per entry, in order, joined by newlines.
pub open spec fn spec_report(es: Seq<Entry>) -> Seq<char>
    decreases es.len(),
{
    if es.len() == 0 {
        Seq::empty()
    } else if es.len() == 1 {
        spec_line(es[0])
    } else {
        spec_report(es.drop_last()) + "\n"@ + spec_line(es.last())
    }
}

/// Renders a ranked entry list, one "Name: count" line per entry.
#[verifier::loop_isolation(false)]
pub fn render_report(entries: &Vec<Entry>) -> (s: String)
    ensures
        s@ == spec_report(entries@),
{
    let mut s = String::new();
    let mut i: usize = 0;
    while i < entries.len()
        invariant
            i <= entries@.len(),
            s@ == spec_report(entries@.take(i as int)),
        decreases entries@.len() - i,
    {
        let e = entries[i];
        if i > 0 {
            s.append("\n");
        }
        let name = e.character.name();
        s.append(name.as_str());
        s.append(": ");
        append_dec(&mut s, e.count);
        proof {
            assert(entries@.take(i + 1).drop_last() =~= entries@.take(i as int));
            assert(entries@.take(i + 1).last() == e);
            assert(s@ =~= spec_report(entries@.take(i + 1)));
        }
        i += 1;
    }
    proof {
        assert(entries@.take(entries@.len() as int) =~= entries@);
    }
    s
}

/// The report entries for the query, arranged by the requested ordering.
pub open spec fn spec_ranked(s: Seq<Match>, q: Id, sort: Sort) -> Seq<Entry> {
    spec_entries(spec_hist(s, q)).sort_by(spec_entry_le_fn(sort))
}

/// Renders the ranked per-character win report for the query: one
/// "Name: count" line per character the queried identity won with,
/// arranged by the requested ordering.
pub fn get_total_wins_per_character(games: &Vec<Match>, id: &Id, sort: Sort) -> (s: String)
    ensures
        s@ == spec_report(spec_ranked(games@, *id, sort)),
{
    let v = wins_by_character(games, id, &sort);
    render_report(&v)
}

} // verus!
