use vstd::prelude::*;
use vstd::string::*;

verus! {

/// Canonical form of one identity character: a full-width form
/// (U+FF01 through U+FF5E) becomes its half-width equivalent, the
/// ideographic space (U+3000) becomes an ASCII space, the right single and
/// double quotation marks (U+2019, U+201D) become the apostrophe and the
/// ASCII double quote, and an ASCII capital letter is folded to lower case.
pub open spec fn canon_char(c: char) -> char {
    let u = c as int;
    let v: int = if 0xff01 <= u <= 0xff5e {
        u - 0xfee0
    } else if u == 0x3000 {
        0x20
    } else if u == 0x2019 {
        0x27
    } else if u == 0x201d {
        0x22
    } else {
        u
    };
    let w: int = if 0x41 <= v <= 0x5a {
        v + 0x20
    } else {
        v
    };
    w as char
}

/// Canonical form of a whole identity string: `canon_char` applied to each
/// character in place.
pub open spec fn canon_seq(s: Seq<char>) -> Seq<char> {
    s.map_values(|c: char| canon_char(c))
}

pub fn canonicalize_char(c: char) -> (r: char)
    ensures
        r == canon_char(c),
{
    let u: u32 = c as u32;
    let v: u32 = if 0xff01 <= u && u <= 0xff5e {
        u - 0xfee0
    } else if u == 0x3000 {
        0x20
    } else if u == 0x2019 {
        0x27
    } else if u == 0x201d {
        0x22
    } else {
        u
    };
    let w: u32 = if 0x41 <= v && v <= 0x5a {
        v + 0x20
    } else {
        v
    };
    if w == u {
        c
    } else {
        (w as u8) as char
    }
}

/// Decides whether two identity strings agree once both are put in
/// canonical form, without building the canonical strings.
pub fn canon_eq(a: &str, b: &str) -> (r: bool)
    ensures
        r == (canon_seq(a@) == canon_seq(b@)),
{
    let alen = a.unicode_len();
    let blen = b.unicode_len();
    if alen != blen {
        proof {
            assert(canon_seq(a@).len() != canon_seq(b@).len());
        }
        return false;
    }
    let mut i: usize = 0;
    while i < alen
        invariant
            i <= alen,
            alen == a@.len(),
            alen == b@.len(),
            forall|j: int| 0 <= j < i ==> canon_char(a@[j]) == canon_char(b@[j]),
        decreases alen - i,
    {
        let ca = a.get_char(i);
        let cb = b.get_char(i);
        if canonicalize_char(ca) != canonicalize_char(cb) {
            proof {
                assert(canon_seq(a@)[i as int] != canon_seq(b@)[i as int]);
            }
            return false;
        }
        i += 1;
    }
    proof {
        assert(canon_seq(a@) =~= canon_seq(b@));
    }
    true
}

/// Strict lexicographic order on character sequences by code point; a proper
/// prefix comes before its extensions.
pub open spec fn lex_lt(a: Seq<char>, b: Seq<char>) -> bool
    decreases a.len(),
{
    if b.len() == 0 {
        false
    } else if a.len() == 0 {
        true
    } else if a[0] != b[0] {
        (a[0] as int) < (b[0] as int)
    } else {
        lex_lt(a.drop_first(), b.drop_first())
    }
}

pub proof fn lemma_lex_lt_irreflexive(a: Seq<char>)
    ensures
        !lex_lt(a, a),
    decreases a.len(),
{
    if a.len() > 0 {
        lemma_lex_lt_irreflexive(a.drop_first());
    }
}

pub proof fn lemma_lex_lt_connected(a: Seq<char>, b: Seq<char>)
    ensures
        lex_lt(a, b) || lex_lt(b, a) || a == b,
    decreases a.len(),
{
    if b.len() == 0 {
        if a.len() == 0 {
            assert(a =~= b);
        }
    } else if a.len() == 0 {
    } else if a[0] != b[0] {
    } else {
        lemma_lex_lt_connected(a.drop_first(), b.drop_first());
        if !lex_lt(a, b) && !lex_lt(b, a) {
            assert(a.drop_first() == b.drop_first());
            assert(a.len() == b.len());
            assert forall|i: int| 0 <= i < a.len() implies a[i] == b[i] by {
                if i > 0 {
                    assert(a.drop_first()[i - 1] == b.drop_first()[i - 1]);
                }
            }
            assert(a =~= b);
        }
    }
}

pub proof fn lemma_lex_lt_asymmetric(a: Seq<char>, b: Seq<char>)
    ensures
        lex_lt(a, b) ==> !lex_lt(b, a),
    decreases a.len(),
{
    if a.len() > 0 && b.len() > 0 && a[0] == b[0] {
        lemma_lex_lt_asymmetric(a.drop_first(), b.drop_first());
    }
}

pub proof fn lemma_lex_lt_transitive(a: Seq<char>, b: Seq<char>, c: Seq<char>)
    ensures
        lex_lt(a, b) && lex_lt(b, c) ==> lex_lt(a, c),
    decreases a.len(),
{
    if lex_lt(a, b) && lex_lt(b, c) {
        if a.len() == 0 {
        } else {
            if a[0] == b[0] && b[0] == c[0] {
                lemma_lex_lt_transitive(a.drop_first(), b.drop_first(), c.drop_first());
            }
        }
    }
}

/// Sequences that agree on their first `i` characters compare the same way
/// as their remainders past `i`.
pub proof fn lemma_lex_lt_common_prefix(a: Seq<char>, b: Seq<char>, i: int)
    requires
        0 <= i <= a.len(),
        i <= b.len(),
        forall|j: int| 0 <= j < i ==> a[j] == b[j],
    ensures
        lex_lt(a, b) == lex_lt(a.skip(i), b.skip(i)),
    decreases i,
{
    if i > 0 {
        assert(a[0] == b[0]);
        lemma_lex_lt_common_prefix(a.drop_first(), b.drop_first(), i - 1);
        assert(a.drop_first().skip(i - 1) =~= a.skip(i));
        assert(b.drop_first().skip(i - 1) =~= b.skip(i));
    } else {
        assert(a.skip(0) =~= a);
        assert(b.skip(0) =~= b);
    }
}

/// Decides `lex_lt` on two strings.
pub fn lex_lt_str(a: &str, b: &str) -> (r: bool)
    ensures
        r == lex_lt(a@, b@),
{
    let alen = a.unicode_len();
    let blen = b.unicode_len();
    let n = if alen < blen {
        alen
    } else {
        blen
    };
    let mut i: usize = 0;
    while i < n
        invariant
            i <= n,
            n <= alen,
            n <= blen,
            alen == a@.len(),
            blen == b@.len(),
            alen <= blen || n == blen,
            blen <= alen || n == alen,
            forall|j: int| 0 <= j < i ==> a@[j] == b@[j],
        decreases n - i,
    {
        let ca = a.get_char(i);
        let cb = b.get_char(i);
        if ca != cb {
            proof {
                lemma_lex_lt_common_prefix(a@, b@, i as int);
                assert(a@.skip(i as int)[0] == a@[i as int]);
                assert(b@.skip(i as int)[0] == b@[i as int]);
            }
            return (ca as u32) < (cb as u32);
        }
        i += 1;
    }
    proof {
        lemma_lex_lt_common_prefix(a@, b@, n as int);
    }
    alen < blen
}

/// Character standing for a decimal digit value.
pub open spec fn digit_char(d: nat) -> char {
    (0x30 + d) as char
}

/// Decimal digits of `n`, most significant first, with no leading zeros.
pub open spec fn dec_digits(n: nat) -> Seq<char>
    decreases n,
{
    if n < 10 {
        seq![digit_char(n)]
    } else {
        dec_digits(n / 10) + seq![digit_char(n % 10)]
    }
}

/// Appends the decimal rendering of `n` to `out`.
pub fn append_dec(out: &mut String, n: usize)
    ensures
        final(out)@ == old(out)@ + dec_digits(n as nat),
    decreases n,
{
    let ghost pre = out@;
    if n >= 10 {
        append_dec(out, n / 10);
    }
    let d = n % 10;
    let ds: &str = match d {
        0 => "0",
        1 => "1",
        2 => "2",
        3 => "3",
        4 => "4",
        5 => "5",
        6 => "6",
        7 => "7",
        8 => "8",
        _ => "9",
    };
    proof {
        reveal_strlit("0");
        reveal_strlit("1");
        reveal_strlit("2");
        reveal_strlit("3");
        reveal_strlit("4");
        reveal_strlit("5");
        reveal_strlit("6");
        reveal_strlit("7");
        reveal_strlit("8");
        reveal_strlit("9");
        assert(ds@ =~= seq![digit_char((d % 10) as nat)]);
    }
    out.append(ds);
    proof {
        if n < 10 {
            assert(out@ =~= pre + dec_digits(n as nat));
        } else {
            assert(out@ =~= pre + dec_digits(n as nat));
        }
    }
}

} // verus!
