//! Character-level text utilities: whitespace trimming, splitting on single
//! spaces, string equality and prefix tests.
//!
//! Everything is specified over `Seq<char>` views; the executable functions
//! walk characters with vstd's string primitives.

use vstd::prelude::*;

verus! {

/// The Unicode `White_Space` characters, the set that `str::trim` removes.
pub open spec fn is_unicode_ws(c: char) -> bool {
    ||| c == ' '
    ||| c == '\t'
    ||| c == '\n'
    ||| c == '\u{b}'
    ||| c == '\u{c}'
    ||| c == '\r'
    ||| c == '\u{85}'
    ||| c == '\u{a0}'
    ||| c == '\u{1680}'
    ||| (0x2000 <= c as u32 && c as u32 <= 0x200a)
    ||| c == '\u{2028}'
    ||| c == '\u{2029}'
    ||| c == '\u{202f}'
    ||| c == '\u{205f}'
    ||| c == '\u{3000}'
}

fn is_unicode_ws_char(c: char) -> (r: bool)
    ensures
        r == is_unicode_ws(c),
{
    let u = c as u32;
    (u >= 0x09 && u <= 0x0d) || u == 0x20 || u == 0x85 || u == 0xa0 || u == 0x1680 || (u >= 0x2000
        && u <= 0x200a) || u == 0x2028 || u == 0x2029 || u == 0x202f || u == 0x205f || u == 0x3000
}

/// The sequence with its leading whitespace removed.
pub open spec fn trim_start_spec(s: Seq<char>) -> Seq<char>
    decreases s.len(),
{
    if s.len() > 0 && is_unicode_ws(s[0]) {
        trim_start_spec(s.drop_first())
    } else {
        s
    }
}

/// The sequence with its trailing whitespace removed.
pub open spec fn trim_end_spec(s: Seq<char>) -> Seq<char>
    decreases s.len(),
{
    if s.len() > 0 && is_unicode_ws(s.last()) {
        trim_end_spec(s.drop_last())
    } else {
        s
    }
}

/// The sequence with leading and trailing whitespace removed, as `str::trim`
/// leaves it.
pub open spec fn trim_spec(s: Seq<char>) -> Seq<char> {
    trim_end_spec(trim_start_spec(s))
}

proof fn lemma_trim_start_at(s: Seq<char>, a: int)
    requires
        0 <= a <= s.len(),
        forall|j: int| 0 <= j < a ==> is_unicode_ws(s[j]),
        a < s.len() ==> !is_unicode_ws(s[a]),
    ensures
        trim_start_spec(s) == s.skip(a),
    decreases a,
{
    if a == 0 {
        assert(s.skip(0) =~= s);
    } else {
        lemma_trim_start_at(s.drop_first(), a - 1);
        assert(s.drop_first().skip(a - 1) =~= s.skip(a));
    }
}

proof fn lemma_trim_end_at(s: Seq<char>, b: int)
    requires
        0 <= b <= s.len(),
        forall|j: int| b <= j < s.len() ==> is_unicode_ws(s[j]),
        b > 0 ==> !is_unicode_ws(s[b - 1]),
    ensures
        trim_end_spec(s) == s.take(b),
    decreases s.len() - b,
{
    if b == s.len() {
        assert(s.take(b) =~= s);
    } else {
        lemma_trim_end_at(s.drop_last(), b);
        assert(s.drop_last().take(b) =~= s.take(b));
    }
}

/// Leading and trailing whitespace removed, as `str::trim` does.
pub fn trim_str(s: &str) -> (t: &str)
    ensures
        t@ == trim_spec(s@),
{
    let n = s.unicode_len();
    let mut a: usize = 0;
    while a < n && is_unicode_ws_char(s.get_char(a))
        invariant
            n == s@.len(),
            a <= n,
            forall|j: int| 0 <= j < a ==> is_unicode_ws(s@[j]),
        decreases n - a,
    {
        a = a + 1;
    }
    let mut b: usize = n;
    while b > a && is_unicode_ws_char(s.get_char(b - 1))
        invariant
            n == s@.len(),
            a <= b <= n,
            forall|j: int| b <= j < n ==> is_unicode_ws(s@[j]),
        decreases b,
    {
        b = b - 1;
    }
    proof {
        lemma_trim_start_at(s@, a as int);
        lemma_trim_end_at(s@.skip(a as int), b - a);
        assert(s@.skip(a as int).take(b - a) =~= s@.subrange(a as int, b as int));
    }
    s.substring_char(a, b)
}

/// The tokens of `s` split on single spaces: every space is a separator, so
/// adjacent spaces produce empty tokens, and the result always holds at least
/// one token (the empty sequence splits to one empty token).
pub open spec fn split_spaces(s: Seq<char>) -> Seq<Seq<char>>
    decreases s.len(),
{
    if s.len() == 0 {
        seq![Seq::<char>::empty()]
    } else if s[0] == ' ' {
        seq![Seq::<char>::empty()] + split_spaces(s.drop_first())
    } else {
        let rest = split_spaces(s.drop_first());
        seq![seq![s[0]] + rest[0]] + rest.drop_first()
    }
}

pub proof fn lemma_split_spaces_nonempty(s: Seq<char>)
    ensures
        split_spaces(s).len() >= 1,
    decreases s.len(),
{
    if s.len() > 0 {
        lemma_split_spaces_nonempty(s.drop_first());
    }
}

/// If the first `q` characters of `s` hold no space and position `q` is a
/// space (or the end), the split is the first token of length `q` followed by
/// the split of the remainder.
proof fn lemma_split_spaces_chunk(s: Seq<char>, q: int)
    requires
        0 <= q <= s.len(),
        forall|j: int| 0 <= j < q ==> s[j] != ' ',
        q < s.len() ==> s[q] == ' ',
    ensures
        q == s.len() ==> split_spaces(s) == seq![s],
        q < s.len() ==> split_spaces(s) == seq![s.take(q)] + split_spaces(s.skip(q + 1)),
    decreases q,
{
    if q == 0 {
        if s.len() == 0 {
            assert(split_spaces(s) =~~= seq![s]);
        } else {
            assert(s[0] == ' ');
            assert(s.take(0) =~= Seq::<char>::empty());
            assert(s.skip(1) =~= s.drop_first());
            assert(split_spaces(s) =~~= seq![s.take(0)] + split_spaces(s.skip(1)));
        }
    } else {
        let d = s.drop_first();
        lemma_split_spaces_chunk(d, q - 1);
        lemma_split_spaces_nonempty(d);
        let rest = split_spaces(d);
        if q == s.len() {
            assert(rest == seq![d]);
            assert(seq![s[0]] + rest[0] =~= s);
            assert(split_spaces(s) =~~= seq![s]);
        } else {
            assert(rest == seq![d.take(q - 1)] + split_spaces(d.skip(q)));
            assert(seq![s[0]] + rest[0] =~= s.take(q));
            assert(rest.drop_first() =~~= split_spaces(d.skip(q)));
            assert(d.skip(q) =~= s.skip(q + 1));
            assert(split_spaces(s) =~~= seq![s.take(q)] + split_spaces(s.skip(q + 1)));
        }
    }
}

/// The tokens of `s` split on single spaces, each as its own `String`.
pub fn split_str(s: &str) -> (toks: Vec<String>)
    ensures
        toks.deep_view() == split_spaces(s@),
        toks@.len() == split_spaces(s@).len() >= 1,
        forall|i: int| 0 <= i < toks@.len() ==> toks@[i]@ == split_spaces(s@)[i],
{
    let n = s.unicode_len();
    let mut toks: Vec<String> = Vec::new();
    let mut p: usize = 0;
    proof {
        assert(s@.skip(0) =~= s@);
        assert(toks.deep_view() =~~= Seq::<Seq<char>>::empty());
    }
    loop
        invariant_except_break
            split_spaces(s@) =~~= toks.deep_view() + split_spaces(s@.skip(p as int)),
        invariant
            n == s@.len(),
            p <= n,
        ensures
            toks.deep_view() =~~= split_spaces(s@),
        decreases n - p,
    {
        let mut q: usize = p;
        while q < n && s.get_char(q) != ' '
            invariant
                n == s@.len(),
                p <= q <= n,
                forall|j: int| p <= j < q ==> s@[j] != ' ',
            decreases n - q,
        {
            q = q + 1;
        }
        let ghost tail = s@.skip(p as int);
        proof {
            assert(forall|j: int| 0 <= j < q - p ==> tail[j] != ' ');
            lemma_split_spaces_chunk(tail, q - p);
        }
        let tok = String::from_str(s.substring_char(p, q));
        proof {
            assert(tail.take(q - p) =~= s@.subrange(p as int, q as int));
        }
        let ghost old_views = toks.deep_view();
        toks.push(tok);
        proof {
            assert(toks.deep_view() =~~= old_views.push(tok@));
        }
        if q < n {
            proof {
                assert(tail.skip(q - p + 1) =~= s@.skip(q + 1));
                assert(split_spaces(s@) =~~= toks.deep_view() + split_spaces(s@.skip(q + 1)));
            }
            p = q + 1;
        } else {
            proof {
                assert(tail =~= s@.subrange(p as int, q as int));
                assert(split_spaces(s@) =~~= toks.deep_view());
            }
            break ;
        }
    }
    proof {
        lemma_split_spaces_nonempty(s@);
        assert(forall|i: int|
            0 <= i < toks@.len() ==> toks@[i]@ == #[trigger] toks.deep_view()[i]);
    }
    toks
}

/// `a` and `b` hold the same characters.
pub fn str_eq(a: &str, b: &str) -> (r: bool)
    ensures
        r == (a@ == b@),
{
    let n = a.unicode_len();
    let m = b.unicode_len();
    if n != m {
        return false;
    }
    let mut i: usize = 0;
    while i < n
        invariant
            n == a@.len() == b@.len(),
            i <= n,
            forall|j: int| 0 <= j < i ==> a@[j] == b@[j],
        decreases n - i,
    {
        if a.get_char(i) != b.get_char(i) {
            return false;
        }
        i = i + 1;
    }
    proof {
        assert(a@ =~= b@);
    }
    true
}

/// `p` is a prefix of `s`.
pub open spec fn is_prefix_of(p: Seq<char>, s: Seq<char>) -> bool {
    p.len() <= s.len() && s.take(p.len() as int) == p
}

/// Whether `s` starts with the prefix `p`, as `str::starts_with` decides it.
pub fn str_starts_with(s: &str, p: &str) -> (r: bool)
    ensures
        r == is_prefix_of(p@, s@),
{
    let n = s.unicode_len();
    let m = p.unicode_len();
    if m > n {
        return false;
    }
    let mut i: usize = 0;
    while i < m
        invariant
            n == s@.len(),
            m == p@.len(),
            m <= n,
            i <= m,
            forall|j: int| 0 <= j < i ==> s@[j] == p@[j],
        decreases m - i,
    {
        if s.get_char(i) != p.get_char(i) {
            proof {
                assert(s@.take(m as int)[i as int] != p@[i as int]);
            }
            return false;
        }
        i = i + 1;
    }
    proof {
        assert(s@.take(m as int) =~= p@);
    }
    true
}

/// `s` holds at least one space character.
pub open spec fn has_space(s: Seq<char>) -> bool {
    exists|i: int| 0 <= i < s.len() && s[i] == ' '
}

/// Whether `s` contains a space, as `str::contains(' ')` decides it.
pub fn str_has_space(s: &str) -> (r: bool)
    ensures
        r == has_space(s@),
{
    let n = s.unicode_len();
    let mut i: usize = 0;
    while i < n
        invariant
            n == s@.len(),
            i <= n,
            forall|j: int| 0 <= j < i ==> s@[j] != ' ',
        decreases n - i,
    {
        if s.get_char(i) == ' ' {
            return true;
        }
        i = i + 1;
    }
    false
}

} // verus!
