use vstd::prelude::*;
use vstd::string::*;

use crate::replay::Match;

verus! {

/// Whether a file name carries the replay extension: it ends in ".slp" and
/// the dot of that suffix is not the name's first character (a bare ".slp"
/// is a hidden file without an extension).
pub open spec fn spec_is_replay_name(name: Seq<char>) -> bool {
    name.len() >= 5 && name.skip(name.len() - 4) == ".slp"@
}

pub fn is_replay_name(name: &str) -> (r: bool)
    ensures
        r == spec_is_replay_name(name@),
{
    let n = name.unicode_len();
    proof {
        reveal_strlit(".slp");
    }
    if n < 5 {
        return false;
    }
    let r = name.get_char(n - 4) == '.' && name.get_char(n - 3) == 's' && name.get_char(n - 2)
        == 'l' && name.get_char(n - 1) == 'p';
    proof {
        if r {
            assert(name@.skip(n - 4) =~= ".slp"@);
        } else {
            assert(name@.skip(n - 4) != ".slp"@) by {
                if name@.skip(n - 4) == ".slp"@ {
                    assert(name@[n - 4] == ".slp"@[0]);
                    assert(name@[n - 3] == ".slp"@[1]);
                    assert(name@[n - 2] == ".slp"@[2]);
                    assert(name@[n - 1] == ".slp"@[3]);
                }
            }
        }
    }
    r
}

/// The matches that decoded successfully, in order; failed files contribute
/// nothing.
pub open spec fn spec_successes(s: Seq<Option<Match>>) -> Seq<Match>
    decreases s.len(),
{
    if s.len() == 0 {
        Seq::empty()
    } else {
        spec_successes(s.drop_last()) + match s.last() {
            Some(m) => seq![m],
            None => Seq::empty(),
        }
    }
}

/// Builds the corpus from per-file decode results: every successful decode
/// is kept, every failure is dropped, and no failure aborts the batch.
pub fn corpus_from_results(results: Vec<Option<Match>>) -> (corpus: Vec<Match>)
    ensures
        corpus@ == spec_successes(results@),
{
    let ghost orig = results@;
    let mut rest = results;
    let mut rev: Vec<Match> = Vec::new();
    proof {
        assert(rev@.reverse() =~= Seq::<Match>::empty());
    }
    while rest.len() > 0
        invariant
            spec_successes(orig) =~= spec_successes(rest@) + rev@.reverse(),
        decreases rest@.len(),
    {
        let ghost pre_rest = rest@;
        let ghost pre_rev = rev@;
        match rest.pop() {
            Some(slot) => {
                match slot {
                    Some(m) => {
                        rev.push(m);
                        proof {
                            assert(rev@.reverse() =~= seq![m] + pre_rev.reverse());
                            assert(spec_successes(pre_rest) =~= spec_successes(rest@) + seq![m]);
                        }
                    },
                    None => {
                        proof {
                            assert(spec_successes(pre_rest) =~= spec_successes(rest@));
                        }
                    },
                }
            },
            None => {
                proof {
                    assert(false);
                }
            },
        }
    }
    let mut corpus: Vec<Match> = Vec::new();
    proof {
        assert(spec_successes(rest@) =~= Seq::<Match>::empty());
        assert(spec_successes(orig) =~= corpus@ + rev@.reverse());
    }
    while rev.len() > 0
        invariant
            spec_successes(orig) =~= corpus@ + rev@.reverse(),
        decreases rev@.len(),
    {
        let ghost pre_rev = rev@;
        let ghost pre_corpus = corpus@;
        match rev.pop() {
            Some(m) => {
                corpus.push(m);
                proof {
                    assert(pre_rev.reverse() =~= seq![m] + rev@.reverse());
                    assert(pre_corpus + pre_rev.reverse() =~= corpus@ + rev@.reverse());
                }
            },
            None => {
                proof {
                    assert(false);
                }
            },
        }
    }
    proof {
        assert(spec_successes(orig) =~= corpus@);
    }
    corpus
}

} // verus!
